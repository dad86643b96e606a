//! Machine and connection metrics for the status view and the dashboard: the
//! local machine's specs, the remote engine's figures, the host's load, and the
//! formatting of byte counts.

use vstd::prelude::*;
use vstd::arithmetic::power2::{
    lemma2_to64, lemma2_to64_rest, lemma_pow2_strictly_increases, lemma_pow2_unfold, pow2,
};
use crate::config::Config;
use crate::text::{
    chars_of, dec, dec_chars, dec_signed, digit, digit_char, find_at, find_from, i64_to_string,
    is_whitespace, is_ws, lead_count, lemma_lead_count, next_word, next_word_at, opt_chars,
    parse_u64_chars, parse_u64_spec, range_starts_with, starts_with, string_of, subrange_vec, trim,
    trim_chars, trim_str, u64_to_string,
};
use crate::util::{bold, bold_spec, cyan, cyan_spec, magenta, magenta_spec, white, white_spec};

verus! {

/// `n / d` rounded to the nearest integer, ties to even.
pub open spec fn round_half_even(n: nat, d: nat) -> nat {
    let q = n / d;
    let r = n % d;
    if 2 * r < d {
        q
    } else if 2 * r > d {
        q + 1
    } else if q % 2 == 0 {
        q
    } else {
        q + 1
    }
}

/// `n` rounded to 53 significant bits from bit `k` upward (ties to even): the
/// value of the nearest `f64` to `n` when started at `k == 0`.
pub open spec fn round_from(n: nat, k: nat) -> nat
    decreases 64 - k,
{
    if k >= 64 {
        n
    } else if n / pow2(k) < 0x20000000000000 {
        round_half_even(n, pow2(k)) * pow2(k)
    } else {
        round_from(n, k + 1)
    }
}

/// The value of `n as f64`.
pub open spec fn f64_value(n: nat) -> nat {
    round_from(n, 0)
}

/// Tenths of a GiB in `n` bytes, as `{:.1}` rounds `n as f64 / 1024^3`.
pub open spec fn gib_tenths(n: nat) -> nat {
    round_half_even(f64_value(n) * 10, pow2(30))
}

/// `n` bytes written in GiB with one decimal, e.g. `1.5 GiB`.
pub open spec fn gib_text(n: nat) -> Seq<char> {
    let t = gib_tenths(n);
    dec(t / 10) + seq!['.', digit_char(t % 10)] + " GiB"@
}

fn round_half_even_exec(n: u128, d: u128) -> (q: u128)
    requires
        0 < d,
        n < u128::MAX,
    ensures
        q == round_half_even(n as nat, d as nat),
        q <= n / d + 1,
{
    let q = n / d;
    let r = n % d;
    if r < d - r {
        q
    } else if r > d - r {
        q + 1
    } else if q % 2 == 0 {
        q
    } else {
        q + 1
    }
}

/// The value of `n as f64`, exactly.
fn nearest_f64(n: u64) -> (f: u128)
    ensures
        f == f64_value(n as nat),
        f <= 0x18000000000000000,
{
    let mut k: u32 = 0;
    let mut d: u128 = 1;
    proof {
        lemma2_to64();
    }
    while k < 64 && (n as u128) / d >= 0x20000000000000
        invariant
            k <= 64,
            d > 0,
            d == pow2(k as nat),
            k < 64 ==> d <= 0x8000000000000000,
            round_from(n as nat, 0) == round_from(n as nat, k as nat),
        decreases 64 - k,
    {
        proof {
            lemma_pow2_unfold((k + 1) as nat);
            lemma2_to64();
            lemma2_to64_rest();
            if k + 1 < 63 {
                lemma_pow2_strictly_increases((k + 1) as nat, 63);
            }
        }
        d = d * 2;
        k = k + 1;
    }
    if k >= 64 {
        n as u128
    } else {
        let q = round_half_even_exec(n as u128, d);
        proof {
            assert(q * d <= (n as u128) + d) by (nonlinear_arith)
                requires
                    q <= (n as u128) / d + 1,
                    d > 0,
            ;
        }
        q * d
    }
}

fn gib_string(n: u64) -> (s: String)
    ensures
        s@ == gib_text(n as nat),
{
    let f = nearest_f64(n);
    proof {
        lemma2_to64();
    }
    let t = round_half_even_exec(f * 10, 1073741824);
    proof {
        assert(t <= 0x4000000000) by (nonlinear_arith)
            requires
                t <= (f * 10) / 1073741824 + 1,
                f <= 0x18000000000000000,
        ;
    }
    let whole = (t / 10) as u64;
    let frac = (t % 10) as u64;
    let mut out = dec_chars(whole);
    out.push('.');
    out.push(digit(frac));
    out.push(' ');
    out.push('G');
    out.push('i');
    out.push('B');
    proof {
        reveal_strlit(" GiB");
        assert(out@ =~= gib_text(n as nat));
    }
    string_of(&out)
}

/// A byte count in GiB with one decimal, or `?` when it is not positive.
pub fn fmt_gib(bytes: i64) -> (s: String)
    ensures
        bytes <= 0 ==> s@ == "?"@,
        bytes > 0 ==> s@ == gib_text(bytes as nat),
{
    if bytes <= 0 {
        return String::from_str("?");
    }
    gib_string(bytes as u64)
}

/// A byte count in GiB with one decimal.
pub fn fmt_gib_u(bytes: u64) -> (s: String)
    ensures
        s@ == gib_text(bytes as nat),
{
    gib_string(bytes)
}

/// `c` separates the figures of a load average: a comma or white space.
pub open spec fn is_load_sep(c: char) -> bool {
    c == ',' || is_ws(c)
}

/// `c` is the character `x`.
pub open spec fn is_char(x: char) -> spec_fn(char) -> bool {
    |c: char| c == x
}

/// The text between the first `average` of the `uptime` output and the next one
/// (or the end), as the second piece of `split("average")`.
pub open spec fn after_average(out: Seq<char>) -> Option<Seq<char>> {
    match find_from(out, "average"@, 0) {
        None => None,
        Some(j) => {
            let start = j + "average"@.len();
            let end = match find_from(out, "average"@, start) {
                Some(e) => e,
                None => out.len() as int,
            };
            Some(out.subrange(start, end))
        },
    }
}

/// The first figure of a load average: after `average`, leading `s` and `:`
/// characters are dropped, the rest trimmed, and the first run of characters
/// that are neither commas nor white space is taken.
pub open spec fn parse_load(out: Seq<char>) -> Option<Seq<char>> {
    match after_average(out) {
        None => None,
        Some(piece) => {
            let p1 = piece.skip(lead_count(piece, is_char('s')) as int);
            let p2 = p1.skip(lead_count(p1, is_char(':')) as int);
            let t = trim(p2);
            let a = lead_count(t, |c: char| is_load_sep(c)) as int;
            if a >= t.len() {
                None
            } else {
                let rest = t.skip(a);
                Some(rest.subrange(0, lead_count(rest, |c: char| !is_load_sep(c)) as int))
            }
        },
    }
}

fn skip_char(v: &Vec<char>, x: char) -> (r: Vec<char>)
    ensures
        r@ == v@.skip(lead_count(v@, is_char(x)) as int),
{
    let n = v.len();
    let mut i: usize = 0;
    while i < n && v[i] == x
        invariant
            n == v@.len(),
            i <= n,
            forall|k: int| 0 <= k < i ==> is_char(x)(#[trigger] v@[k]),
        decreases n - i,
    {
        i = i + 1;
    }
    proof {
        lemma_lead_count(v@, is_char(x), i as int);
        if i < n {
            assert(v@.skip(i as int)[0] == v@[i as int]);
        }
    }
    let r = subrange_vec(v, i, n);
    proof {
        assert(r@ =~= v@.skip(i as int));
    }
    r
}

/// The host's 1-minute load average from the output of `uptime`, e.g. `0.52`
/// from `... load average: 0.52, 0.48, 0.44` or `1.20` from
/// `... load averages: 1.20 1.10 0.95`.
pub fn remote_load(out: &str) -> (r: Option<String>)
    ensures
        match r {
            Some(s) => parse_load(out@) == Some(s@),
            None => parse_load(out@) is None,
        },
{
    let v = chars_of(out);
    let vn = v.len();
    let pat = chars_of("average");
    let j = match find_at(&v, &pat, 0) {
        None => {
            return None;
        },
        Some(j) => j,
    };
    let start = j + pat.len();
    let end = match find_at(&v, &pat, start) {
        Some(e) => e,
        None => v.len(),
    };
    proof {
        if end < v.len() {
            assert(find_from(v@, pat@, start as int) == Some(end as int));
        }
    }
    let piece = subrange_vec(&v, start, end);
    let p1 = skip_char(&piece, 's');
    let p2 = skip_char(&p1, ':');
    let t = trim_chars(&p2);
    let n = t.len();
    let mut a: usize = 0;
    while a < n && (t[a] == ',' || is_whitespace(t[a]))
        invariant
            n == t@.len(),
            a <= n,
            forall|k: int| 0 <= k < a ==> is_load_sep(#[trigger] t@[k]),
        decreases n - a,
    {
        a = a + 1;
    }
    proof {
        lemma_lead_count(t@, |c: char| is_load_sep(c), a as int);
        if a < n {
            assert(t@.skip(a as int)[0] == t@[a as int]);
        }
    }
    if a >= n {
        return None;
    }
    let mut e: usize = a;
    while e < n && !(t[e] == ',' || is_whitespace(t[e]))
        invariant
            n == t@.len(),
            a <= e <= n,
            forall|k: int| a <= k < e ==> !is_load_sep(#[trigger] t@[k]),
        decreases n - e,
    {
        e = e + 1;
    }
    proof {
        let rest = t@.skip(a as int);
        assert forall|k: int| 0 <= k < e - a implies !is_load_sep(#[trigger] rest[k]) by {
            assert(rest[k] == t@[k + a]);
        }
        lemma_lead_count(rest, |c: char| !is_load_sep(c), e - a);
        if e < n {
            assert(rest.skip(e - a)[0] == t@[e as int]);
        }
        assert(rest.subrange(0, e - a) =~= t@.subrange(a as int, e as int));
    }
    let w = subrange_vec(&t, a, e);
    Some(string_of(&w))
}

/// This machine's specs.
pub struct LocalSpecs {
    /// The host name.
    pub hostname: String,
    /// `os/arch`, e.g. `macos/aarch64`.
    pub os_arch: String,
    /// The number of CPU cores available.
    pub cores: usize,
    /// Total memory in bytes (0 when unknown).
    pub mem_bytes: u64,
}

/// The host name shown for this machine: the trimmed output of `hostname`,
/// or `this-machine` when that failed or printed nothing.
pub open spec fn hostname_of(out: Option<Seq<char>>) -> Seq<char> {
    match out {
        Some(o) => if trim(o).len() > 0 {
            trim(o)
        } else {
            "this-machine"@
        },
        None => "this-machine"@,
    }
}

/// This machine's specs from what the application probed: the output of
/// `hostname` (if it ran), the available parallelism (if known), the OS and
/// architecture names, and the memory size.
pub fn local_specs(
    hostname_out: Option<&str>,
    cores: Option<usize>,
    os: &str,
    arch: &str,
    mem_bytes: u64,
) -> (s: LocalSpecs)
    ensures
        s.hostname@ == hostname_of(opt_chars(hostname_out)),
        s.cores == match cores {
            Some(c) => c,
            None => 0,
        },
        s.os_arch@ == os@ + "/"@ + arch@,
        s.mem_bytes == mem_bytes,
{
    let hostname = match hostname_out {
        Some(o) => {
            let t = trim_str(o);
            if t.as_str().unicode_len() > 0 {
                t
            } else {
                String::from_str("this-machine")
            }
        },
        None => String::from_str("this-machine"),
    };
    let cores = match cores {
        Some(c) => c,
        None => 0,
    };
    let os_arch = String::from_str(os).concat("/").concat(arch);
    LocalSpecs { hostname, os_arch, cores, mem_bytes }
}

/// The length of the line of `s` that starts at `a`.
pub open spec fn line_len(s: Seq<char>, a: int) -> nat {
    lead_count(s.skip(a), |c: char| c != '\n')
}

/// The figure of a `MemTotal:` line: the first word after the prefix, when it
/// parses as a `u64`.
pub open spec fn mem_line(line: Seq<char>) -> Option<u64> {
    if starts_with(line, "MemTotal:"@) {
        match next_word(line.skip("MemTotal:"@.len() as int)) {
            Some((w, _)) => parse_u64_spec(w),
            None => None,
        }
    } else {
        None
    }
}

/// The `MemTotal:` figure (in kB) of `/proc/meminfo` text, looking at the lines
/// from index `a` on: the first line starting with `MemTotal:` whose next word
/// parses as a `u64`.
pub open spec fn mem_total_from(s: Seq<char>, a: int) -> Option<u64>
    decreases s.len() + 1 - a,
{
    if a < 0 || a > s.len() {
        None
    } else {
        let e = a + line_len(s, a);
        let found = mem_line(s.subrange(a, e));
        if found is Some {
            found
        } else if e >= s.len() {
            None
        } else {
            mem_total_from(s, e + 1)
        }
    }
}

/// The `MemTotal:` figure, in kB, of `/proc/meminfo` text.
pub fn mem_total_kb(meminfo: &str) -> (r: Option<u64>)
    ensures
        r == mem_total_from(meminfo@, 0),
{
    let v = chars_of(meminfo);
    let n = v.len();
    let prefix = chars_of("MemTotal:");
    let pl = prefix.len();
    let mut a: usize = 0;
    while a <= n
        invariant
            n == v@.len(),
            v@ == meminfo@,
            pl == prefix@.len(),
            prefix@ == "MemTotal:"@,
            mem_total_from(v@, 0) == mem_total_from(v@, a as int),
        decreases n + 1 - a,
    {
        let mut e: usize = a;
        while e < n && v[e] != '\n'
            invariant
                n == v@.len(),
                a <= e <= n,
                forall|k: int| a <= k < e ==> #[trigger] v@[k] != '\n',
            decreases n - e,
        {
            e = e + 1;
        }
        proof {
            let t = v@.skip(a as int);
            assert forall|k: int| 0 <= k < e - a implies (|c: char| c != '\n')(#[trigger] t[k]) by {
                assert(t[k] == v@[k + a]);
            }
            lemma_lead_count(t, |c: char| c != '\n', e - a);
            if e < n {
                assert(t.skip(e - a)[0] == v@[e as int]);
            }
            assert(line_len(v@, a as int) == e - a);
        }
        let line = subrange_vec(&v, a, e);
        let mut found: Option<u64> = None;
        if range_starts_with(&line, 0, line.len(), "MemTotal:") {
            proof {
                assert(line@.subrange(0, line@.len() as int) == line@);
            }
            let ln = line.len();
            match next_word_at(&line, pl) {
                Some((c, d)) => {
                    let w = subrange_vec(&line, c, d);
                    found = parse_u64_chars(&w);
                },
                None => {},
            }
        } else {
            proof {
                assert(line@.subrange(0, line@.len() as int) == line@);
            }
        }
        proof {
            assert(found == mem_line(line@));
            assert(line@ == v@.subrange(a as int, a + line_len(v@, a as int)));
        }
        if found.is_some() {
            return found;
        }
        if e >= n {
            return None;
        }
        a = e + 1;
    }
    None
}

/// The memory size `sysctl -n hw.memsize` printed (macOS): its trimmed output
/// when that is a positive number.
pub open spec fn sysctl_mem(sysctl_out: Option<Seq<char>>) -> Option<u64> {
    match sysctl_out {
        Some(o) => match parse_u64_spec(trim(o)) {
            Some(v) => if v > 0 {
                Some(v)
            } else {
                None
            },
            None => None,
        },
        None => None,
    }
}

/// Total memory in bytes from what the application probed: the output of
/// `sysctl -n hw.memsize` (macOS) when it is a positive number, else the
/// `MemTotal:` line of `/proc/meminfo` (Linux) times 1024, else 0.
pub open spec fn mem_bytes_of(sysctl_out: Option<Seq<char>>, meminfo: Option<Seq<char>>) -> nat {
    match sysctl_mem(sysctl_out) {
        Some(v) => v as nat,
        None => match meminfo {
            Some(t) => match mem_total_from(t, 0) {
                Some(kb) => (kb * 1024) as nat,
                None => 0,
            },
            None => 0,
        },
    }
}

/// The memory size from the output of `sysctl -n hw.memsize`, when positive.
pub fn mem_from_sysctl(sysctl_out: Option<&str>) -> (r: Option<u64>)
    ensures
        r == sysctl_mem(opt_chars(sysctl_out)),
{
    if let Some(o) = sysctl_out {
        let t = trim_str(o);
        let tv = chars_of(t.as_str());
        if let Some(v) = parse_u64_chars(&tv) {
            if v > 0 {
                return Some(v);
            }
        }
    }
    None
}

/// This machine's memory size in bytes. When `/proc/meminfo` is consulted
/// (`sysctl` gave no positive size), its `MemTotal:` figure must fit in 64 bits
/// once multiplied by 1024.
pub fn local_mem_bytes(sysctl_out: Option<&str>, meminfo: Option<&str>) -> (r: u64)
    requires
        sysctl_mem(opt_chars(sysctl_out)) is None ==> match meminfo {
            Some(t) => match mem_total_from(t@, 0) {
                Some(kb) => kb * 1024 <= u64::MAX,
                None => true,
            },
            None => true,
        },
    ensures
        r == mem_bytes_of(opt_chars(sysctl_out), opt_chars(meminfo)),
{
    if let Some(v) = mem_from_sysctl(sysctl_out) {
        return v;
    }
    if let Some(txt) = meminfo {
        if let Some(kb) = mem_total_kb(txt) {
            return kb * 1024;
        }
    }
    0
}

/// What the remote engine reports about itself, each figure when known.
pub struct EngineInfo {
    /// The engine's version.
    pub server_version: Option<String>,
    /// CPUs.
    pub ncpu: Option<i64>,
    /// Total memory in bytes.
    pub mem_total: Option<i64>,
    /// Images.
    pub images: Option<i64>,
    /// Containers.
    pub containers: Option<i64>,
    /// Running containers.
    pub containers_running: Option<i64>,
}

/// The remote engine's figures for the dashboard.
pub struct RemoteMetrics {
    /// The engine's version, `?` when unknown.
    pub version: String,
    /// CPUs (0 when unknown).
    pub ncpu: i64,
    /// Total memory in bytes (0 when unknown).
    pub mem_total: i64,
    /// Images (0 when unknown).
    pub images: i64,
    /// Containers (0 when unknown).
    pub containers: i64,
    /// Running containers (0 when unknown).
    pub running: i64,
    /// Sum of memory currently used by running containers on the host (bytes).
    pub offloaded_mem: u64,
}

/// An optional figure, 0 when unknown.
pub open spec fn or_zero(x: Option<i64>) -> i64 {
    match x {
        Some(v) => v,
        None => 0,
    }
}

fn unwrap_zero(x: Option<i64>) -> (r: i64)
    ensures
        r == or_zero(x),
{
    match x {
        Some(v) => v,
        None => 0,
    }
}

/// The remote metrics from the engine's report and the memory used by its
/// running containers.
pub fn remote_metrics(info: &EngineInfo, offloaded_mem: u64) -> (m: RemoteMetrics)
    ensures
        m.version@ == match info.server_version {
            Some(v) => v@,
            None => "?"@,
        },
        m.ncpu == or_zero(info.ncpu),
        m.mem_total == or_zero(info.mem_total),
        m.images == or_zero(info.images),
        m.containers == or_zero(info.containers),
        m.running == or_zero(info.containers_running),
        m.offloaded_mem == offloaded_mem,
{
    let version = match &info.server_version {
        Some(v) => v.clone(),
        None => String::from_str("?"),
    };
    RemoteMetrics {
        version,
        ncpu: unwrap_zero(info.ncpu),
        mem_total: unwrap_zero(info.mem_total),
        images: unwrap_zero(info.images),
        containers: unwrap_zero(info.containers),
        running: unwrap_zero(info.containers_running),
        offloaded_mem,
    }
}

/// How many running containers are sampled for their memory use.
pub const STATS_SAMPLE: usize = 40;

/// The ids of the containers to sample: among the first 40 listed, those with an id.
pub open spec fn stats_targets_spec(ids: Seq<Option<String>>) -> Seq<Seq<char>> {
    ids.take(if ids.len() < 40 {
        ids.len() as int
    } else {
        40
    }).filter(|o: Option<String>| o is Some).map_values(|o: Option<String>| o->0@)
}

/// The ids of the containers whose memory use is sampled, in order.
pub fn stats_targets(ids: &Vec<Option<String>>) -> (v: Vec<String>)
    ensures
        v@.map_values(|s: String| s@) == stats_targets_spec(ids@),
{
    let n = if ids.len() < STATS_SAMPLE {
        ids.len()
    } else {
        STATS_SAMPLE
    };
    let mut v: Vec<String> = Vec::new();
    let mut i: usize = 0;
    while i < n
        invariant
            n <= ids@.len(),
            n == (if ids@.len() < 40 {
                ids@.len() as int
            } else {
                40
            }),
            i <= n,
            v@.map_values(|s: String| s@) == ids@.take(i as int).filter(
                |o: Option<String>| o is Some,
            ).map_values(|o: Option<String>| o->0@),
        decreases n - i,
    {
        let ghost before = v@;
        proof {
            let t = ids@.take(i + 1);
            assert(t.drop_last() == ids@.take(i as int));
            reveal_with_fuel(Seq::<_>::filter, 1);
        }
        match &ids[i] {
            Some(id) => {
                v.push(id.clone());
                proof {
                    let f = |o: Option<String>| o is Some;
                    let g = |o: Option<String>| o->0@;
                    let t = ids@.take(i + 1);
                    assert(t.filter(f) == t.drop_last().filter(f).push(t.last()));
                    assert(v@.map_values(|s: String| s@) =~= before.map_values(|s: String| s@).push(
                        id@,
                    ));
                    assert(t.filter(f).map_values(g) =~= t.drop_last().filter(f).map_values(g).push(
                        g(t.last()),
                    ));
                }
            },
            None => {
                proof {
                    let f = |o: Option<String>| o is Some;
                    let t = ids@.take(i + 1);
                    assert(t.filter(f) == t.drop_last().filter(f));
                }
            },
        }
        i = i + 1;
    }
    v
}

/// How many entries of `s` hold an id.
pub open spec fn id_count(s: Seq<Option<String>>) -> nat
    decreases s.len(),
{
    if s.len() == 0 {
        0
    } else {
        id_count(s.drop_last()) + if s.last() is Some {
            1nat
        } else {
            0nat
        }
    }
}

proof fn lemma_id_count_is_filtered(s: Seq<Option<String>>)
    ensures
        id_count(s) == s.filter(|o: Option<String>| o is Some).len(),
    decreases s.len(),
{
    reveal(Seq::filter);
    if s.len() > 0 {
        lemma_id_count_is_filtered(s.drop_last());
    }
}

/// Whether `id` is the id of one of the first 40 containers listed.
pub open spec fn listed_among_first(ids: Seq<Option<String>>, id: Seq<char>) -> bool {
    exists|i: int| 0 <= i < ids.len() && i < 40 && ids[i] is Some && #[trigger] ids[i]->0@ == id
}

/// The containers sampled are those among the first 40 listed (all of them
/// when fewer are listed) that have an id: every such id is sampled, only
/// such ids are, and as many as there are such containers.
pub proof fn lemma_samples_first_listed(ids: Seq<Option<String>>)
    ensures
        forall|i: int|
            0 <= i < ids.len() && i < 40 && (#[trigger] ids[i]) is Some ==> stats_targets_spec(
                ids,
            ).contains(ids[i]->0@),
        forall|j: int|
            0 <= j < stats_targets_spec(ids).len() ==> listed_among_first(
                ids,
                #[trigger] stats_targets_spec(ids)[j],
            ),
        stats_targets_spec(ids).len() == id_count(
            ids.take(
                if ids.len() < 40 {
                    ids.len() as int
                } else {
                    40
                },
            ),
        ),
{
    let n: int = if ids.len() < 40 {
        ids.len() as int
    } else {
        40
    };
    let t = ids.take(n);
    let f = |o: Option<String>| o is Some;
    let g = |o: Option<String>| o->0@;
    let flt = t.filter(f);
    let r = flt.map_values(g);
    assert(r == stats_targets_spec(ids));
    assert forall|i: int| 0 <= i < ids.len() && i < 40 && (#[trigger] ids[i]) is Some implies r.contains(
        ids[i]->0@,
    ) by {
        assert(t[i] == ids[i]);
        t.lemma_filter_contains(f, i);
        let k = choose|k: int| 0 <= k < flt.len() && flt[k] == t[i];
        assert(r[k] == g(t[i]));
    }
    assert forall|j: int| 0 <= j < stats_targets_spec(ids).len() implies listed_among_first(
        ids,
        #[trigger] stats_targets_spec(ids)[j],
    ) by {
        t.lemma_filter_pred(f, j);
        assert(flt.contains(flt[j]));
        t.lemma_filter_contains_rev(f, flt[j]);
        let k = choose|k: int| 0 <= k < t.len() && t[k] == flt[j];
        assert(ids[k] == t[k]);
        assert(r[j] == g(flt[j]));
        assert(ids[k] is Some && ids[k]->0@ == stats_targets_spec(ids)[j]);
    }
    lemma_id_count_is_filtered(t);
}

/// The total of the sampled memory usages, a missing sample counting 0.
pub open spec fn usage_total(usages: Seq<Option<u64>>) -> nat
    decreases usages.len(),
{
    if usages.len() == 0 {
        0
    } else {
        usage_total(usages.drop_last()) + match usages.last() {
            Some(u) => u as nat,
            None => 0,
        }
    }
}

proof fn lemma_usage_total_prefix(usages: Seq<Option<u64>>, i: int)
    requires
        0 <= i <= usages.len(),
    ensures
        usage_total(usages.take(i)) <= usage_total(usages),
    decreases usages.len() - i,
{
    if i < usages.len() {
        lemma_usage_total_prefix(usages, i + 1);
        assert(usages.take(i + 1).drop_last() == usages.take(i));
    } else {
        assert(usages.take(i) == usages);
    }
}

/// The memory used by the sampled containers, in bytes. The total must fit in
/// 64 bits.
pub fn offloaded_total(usages: &Vec<Option<u64>>) -> (t: u64)
    requires
        usage_total(usages@) <= u64::MAX,
    ensures
        t == usage_total(usages@),
{
    let n = usages.len();
    let mut acc: u64 = 0;
    let mut i: usize = 0;
    while i < n
        invariant
            n == usages@.len(),
            i <= n,
            acc == usage_total(usages@.take(i as int)),
            usage_total(usages@) <= u64::MAX,
        decreases n - i,
    {
        proof {
            assert(usages@.take(i + 1).drop_last() == usages@.take(i as int));
            lemma_usage_total_prefix(usages@, i + 1);
        }
        match usages[i] {
            Some(u) => {
                acc = acc + u;
            },
            None => {},
        }
        i = i + 1;
    }
    proof {
        assert(usages@.take(n as int) == usages@);
    }
    acc
}

/// The dashboard's horizontal rule: 64 box-drawing dashes.
pub open spec fn rule() -> Seq<char> {
    Seq::new(64, |i: int| '\u{2500}')
}

/// The dashboard's lines: this machine, the host, the routing and what is
/// offloaded, between two cyan rules. Without remote metrics only the host's
/// address is shown.
pub open spec fn dashboard_text(
    cfg: Config,
    local: LocalSpecs,
    remote: Option<RemoteMetrics>,
    load: Option<Seq<char>>,
) -> Seq<Seq<char>> {
    let target = cfg.host_user@ + "@"@ + cfg.host_addr@;
    let bar = cyan_spec(rule());
    let this_machine = "  "@ + bold_spec("this machine"@) + "   "@ + white_spec(local.hostname@)
        + " \u{b7} "@ + local.os_arch@ + " \u{b7} "@ + dec(local.cores as nat) + " cores \u{b7} "@
        + gib_text(local.mem_bytes as nat);
    let middle = match remote {
        Some(r) => {
            let host = "  "@ + bold_spec("the host"@) + "        "@ + white_spec(target)
                + " \u{b7} docker "@ + r.version@ + " \u{b7} "@ + dec_signed(r.images as int)
                + " images \u{b7} "@ + dec_signed(r.running as int) + " running"@;
            let routing = "  "@ + bold_spec("routing"@) + "        docker \u{2192} "@
                + cfg.context_name@ + " context \u{b7} socket "@ + cfg.remote_socket@;
            let offloading = "  "@ + magenta_spec(bold_spec("offloading"@)) + "     "@ + magenta_spec(
                dec_signed(r.running as int) + " containers"@,
            ) + " \u{b7} "@ + dec_signed(r.ncpu as int) + " cores \u{b7} load "@ + match load {
                Some(l) => l,
                None => "?"@,
            } + " \u{b7} your laptop stays free "@ + magenta_spec("\u{2665}"@);
            let base = seq![host, routing, offloading];
            if r.offloaded_mem > 0 {
                base.push(
                    "  "@ + "         "@ + "     "@ + magenta_spec(gib_text(r.offloaded_mem as nat))
                        + " of "@ + (if r.mem_total <= 0 {
                        "?"@
                    } else {
                        gib_text(r.mem_total as nat)
                    }) + " used by containers on the host"@,
                )
            } else {
                base
            }
        },
        None => seq![
            "  "@ + bold_spec("the host"@) + "        "@ + white_spec(target)
                + " \u{b7} (bring it up to read remote metrics)"@,
        ],
    };
    seq![bar, this_machine] + middle + seq![bar]
}

fn rule_string() -> (r: String)
    ensures
        r@ == rule(),
{
    let mut v: Vec<char> = Vec::new();
    let mut i: usize = 0;
    while i < 64
        invariant
            i <= 64,
            v@ == Seq::new(i as nat, |k: int| '\u{2500}'),
        decreases 64 - i,
    {
        v.push('\u{2500}');
        i = i + 1;
        proof {
            assert(v@ =~= Seq::new(i as nat, |k: int| '\u{2500}'));
        }
    }
    string_of(&v)
}

/// The dashboard shown at the top of `orbit up --foreground`, line by line.
pub fn dashboard_lines(
    cfg: &Config,
    local: &LocalSpecs,
    remote: &Option<RemoteMetrics>,
    load: Option<&str>,
) -> (v: Vec<String>)
    ensures
        v@.map_values(|s: String| s@) == dashboard_text(*cfg, *local, *remote, opt_chars(load)),
{
    let target = cfg.ssh_target();
    let bar = cyan(rule_string().as_str());
    let mut v: Vec<String> = Vec::new();
    v.push(bar.clone());
    v.push(
        String::from_str("  ").concat(bold("this machine").as_str()).concat("   ").concat(
            white(local.hostname.as_str()).as_str(),
        ).concat(" \u{b7} ").concat(local.os_arch.as_str()).concat(" \u{b7} ").concat(
            u64_to_string(local.cores as u64).as_str(),
        ).concat(" cores \u{b7} ").concat(fmt_gib_u(local.mem_bytes).as_str()),
    );
    match remote {
        Some(r) => {
            v.push(
                String::from_str("  ").concat(bold("the host").as_str()).concat("        ").concat(
                    white(target.as_str()).as_str(),
                ).concat(" \u{b7} docker ").concat(r.version.as_str()).concat(" \u{b7} ").concat(
                    i64_to_string(r.images).as_str(),
                ).concat(" images \u{b7} ").concat(i64_to_string(r.running).as_str()).concat(
                    " running",
                ),
            );
            v.push(
                String::from_str("  ").concat(bold("routing").as_str()).concat(
                    "        docker \u{2192} ",
                ).concat(cfg.context_name.as_str()).concat(" context \u{b7} socket ").concat(
                    cfg.remote_socket.as_str(),
                ),
            );
            let load_str = match load {
                Some(l) => l,
                None => "?",
            };
            let containers = i64_to_string(r.running).concat(" containers");
            v.push(
                String::from_str("  ").concat(magenta(bold("offloading").as_str()).as_str()).concat(
                    "     ",
                ).concat(magenta(containers.as_str()).as_str()).concat(" \u{b7} ").concat(
                    i64_to_string(r.ncpu).as_str(),
                ).concat(" cores \u{b7} load ").concat(load_str).concat(
                    " \u{b7} your laptop stays free ",
                ).concat(magenta("\u{2665}").as_str()),
            );
            if r.offloaded_mem > 0 {
                v.push(
                    String::from_str("  ").concat("         ").concat("     ").concat(
                        magenta(fmt_gib_u(r.offloaded_mem).as_str()).as_str(),
                    ).concat(" of ").concat(fmt_gib(r.mem_total).as_str()).concat(
                        " used by containers on the host",
                    ),
                );
            }
        },
        None => {
            v.push(
                String::from_str("  ").concat(bold("the host").as_str()).concat("        ").concat(
                    white(target.as_str()).as_str(),
                ).concat(" \u{b7} (bring it up to read remote metrics)"),
            );
        },
    }
    v.push(bar);
    proof {
        assert(v@.map_values(|s: String| s@) =~= dashboard_text(
            *cfg,
            *local,
            *remote,
            opt_chars(load),
        ));
    }
    v
}

} // verus!
