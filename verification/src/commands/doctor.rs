//! `orbit doctor`: every check ends in a pass, a failure with its fix, or a
//! note; the failures are counted into the verdict.

use vstd::prelude::*;
use crate::metrics::{fmt_gib, gib_text, RemoteMetrics};
use crate::text::{dec, dec_signed, i64_to_string, opt_chars, trim, trim_str, u64_to_string};
use crate::util::{
    bold, bold_spec, cyan, cyan_spec, dimmed, dimmed_spec, green, green_spec, red, red_spec, yellow,
    yellow_spec,
};

verus! {

/// The outcome of one probe.
pub enum Finding {
    /// The probe passed.
    Pass(String),
    /// The probe failed: what is wrong, and the fix.
    Fail(String, String),
    /// Not a problem, but worth knowing: what, and what to do.
    Note(String, String),
}

/// The characters of a finding: its kind, message and fix.
pub open spec fn finding_view(f: Finding) -> (int, Seq<char>, Seq<char>) {
    match f {
        Finding::Pass(m) => (0, m@, Seq::empty()),
        Finding::Fail(m, x) => (1, m@, x@),
        Finding::Note(m, x) => (2, m@, x@),
    }
}

/// The second line of a failure or a note: an arrow and the fix.
pub open spec fn fix_line(fix: Seq<char>) -> Seq<char> {
    "      "@ + dimmed_spec("\u{2192}"@) + " "@ + fix
}

/// The lines a finding prints.
pub open spec fn finding_text(f: Finding) -> Seq<Seq<char>> {
    match f {
        Finding::Pass(m) => seq!["  "@ + bold_spec(green_spec("[\u{2713}]"@)) + " "@ + m@],
        Finding::Fail(m, x) => seq![
            "  "@ + bold_spec(red_spec("[\u{2717}]"@)) + " "@ + red_spec(m@),
            fix_line(x@),
        ],
        Finding::Note(m, x) => seq![
            "  "@ + bold_spec(yellow_spec("[!]"@)) + " "@ + m@,
            fix_line(x@),
        ],
    }
}

fn fix_line_exec(fix: &String) -> (s: String)
    ensures
        s@ == fix_line(fix@),
{
    String::from_str("      ").concat(dimmed("\u{2192}").as_str()).concat(" ").concat(
        fix.as_str(),
    )
}

/// The lines a finding prints.
pub fn finding_lines(f: &Finding) -> (v: Vec<String>)
    ensures
        v@.map_values(|s: String| s@) == finding_text(*f),
{
    let mut v: Vec<String> = Vec::new();
    match f {
        Finding::Pass(m) => {
            v.push(String::from_str("  ").concat(bold(green("[\u{2713}]").as_str()).as_str()).concat(
                " ",
            ).concat(m.as_str()));
        },
        Finding::Fail(m, x) => {
            v.push(String::from_str("  ").concat(bold(red("[\u{2717}]").as_str()).as_str()).concat(
                " ",
            ).concat(red(m.as_str()).as_str()));
            v.push(fix_line_exec(x));
        },
        Finding::Note(m, x) => {
            v.push(String::from_str("  ").concat(bold(yellow("[!]").as_str()).as_str()).concat(
                " ",
            ).concat(m.as_str()));
            v.push(fix_line_exec(x));
        },
    }
    proof {
        assert(v@.map_values(|s: String| s@) =~= finding_text(*f));
    }
    v
}

/// The number of failures among the findings.
pub open spec fn fail_count(fs: Seq<Finding>) -> nat
    decreases fs.len(),
{
    if fs.len() == 0 {
        0
    } else {
        fail_count(fs.drop_last()) + if fs.last() is Fail {
            1nat
        } else {
            0nat
        }
    }
}

proof fn lemma_fail_count_le(fs: Seq<Finding>)
    ensures
        fail_count(fs) <= fs.len(),
    decreases fs.len(),
{
    if fs.len() > 0 {
        lemma_fail_count_le(fs.drop_last());
    }
}

/// The problems are the failed findings, each counted once wherever it
/// stands: their number is the number of failures among the findings; a
/// single finding counts one exactly when it failed; and the count over two
/// lists of findings put together is the sum of their counts.
pub proof fn lemma_problems_are_failures(fs: Seq<Finding>, more: Seq<Finding>, f: Finding)
    ensures
        fail_count(fs) == fs.filter(|x: Finding| x is Fail).len(),
        fail_count(seq![f]) == (if f is Fail {
            1nat
        } else {
            0nat
        }),
        fail_count(fs + more) == fail_count(fs) + fail_count(more),
    decreases more.len(),
{
    lemma_fail_count_is_filtered(fs);
    assert(seq![f].drop_last() =~= Seq::<Finding>::empty());
    assert(fail_count(Seq::<Finding>::empty()) == 0);
    assert(seq![f].last() == f);
    if more.len() > 0 {
        lemma_problems_are_failures(fs, more.drop_last(), f);
        assert((fs + more).drop_last() =~= fs + more.drop_last());
        assert((fs + more).last() == more.last());
    } else {
        assert(fs + more =~= fs);
    }
}

proof fn lemma_fail_count_is_filtered(fs: Seq<Finding>)
    ensures
        fail_count(fs) == fs.filter(|x: Finding| x is Fail).len(),
    decreases fs.len(),
{
    reveal(Seq::filter);
    if fs.len() > 0 {
        lemma_fail_count_is_filtered(fs.drop_last());
    }
}

/// The number of problems found: the failures.
pub fn count_problems(findings: &Vec<Finding>) -> (n: u32)
    requires
        findings@.len() <= u32::MAX,
    ensures
        n == fail_count(findings@),
{
    let len = findings.len();
    let mut n: u32 = 0;
    let mut i: usize = 0;
    while i < len
        invariant
            len == findings@.len(),
            len <= u32::MAX,
            i <= len,
            n == fail_count(findings@.take(i as int)),
        decreases len - i,
    {
        proof {
            assert(findings@.take(i + 1).drop_last() == findings@.take(i as int));
            lemma_fail_count_le(findings@.take(i as int));
        }
        if let Finding::Fail(_, _) = &findings[i] {
            n = n + 1;
        }
        i = i + 1;
    }
    proof {
        assert(findings@.take(len as int) == findings@);
    }
    n
}

fn s(t: &str) -> (r: String)
    ensures
        r@ == t@,
{
    String::from_str(t)
}

/// The Docker CLI check, from the client version when `docker version` ran.
pub fn docker_cli_check(version: Option<&str>) -> (f: Finding)
    ensures
        finding_view(f) == match opt_chars(version) {
            Some(v) => (0int, "Docker CLI ("@ + trim(v) + ")"@, Seq::<char>::empty()),
            None => (1int, "Docker CLI not found"@, "install Docker / OrbStack / Rancher Desktop"@),
        },
{
    match version {
        Some(v) => Finding::Pass(s("Docker CLI (").concat(trim_str(v).as_str()).concat(")")),
        None => Finding::Fail(
            s("Docker CLI not found"),
            s("install Docker / OrbStack / Rancher Desktop"),
        ),
    }
}

/// The link check, from the configured `user@host` when a configuration loaded.
pub fn linked_check(target: Option<&str>) -> (f: Finding)
    ensures
        finding_view(f) == match opt_chars(target) {
            Some(t) => (0int, "Linked to "@ + t, Seq::<char>::empty()),
            None => (
                1int,
                "Not linked to a host"@,
                "run `orbit setup` (guided) or `orbit link <user@host>`"@,
            ),
        },
{
    match target {
        Some(t) => Finding::Pass(s("Linked to ").concat(t)),
        None => Finding::Fail(
            s("Not linked to a host"),
            s("run `orbit setup` (guided) or `orbit link <user@host>`"),
        ),
    }
}

/// The SSH check.
pub fn ssh_check(ok: bool) -> (f: Finding)
    ensures
        finding_view(f) == if ok {
            (0int, "SSH to the host works"@, Seq::<char>::empty())
        } else {
            (
                1int,
                "Cannot SSH to the host"@,
                "check the host is on, Remote Login/SSH is enabled, and the key is authorized (`orbit setup` re-does this)"@,
            )
        },
{
    if ok {
        Finding::Pass(s("SSH to the host works"))
    } else {
        Finding::Fail(
            s("Cannot SSH to the host"),
            s(
                "check the host is on, Remote Login/SSH is enabled, and the key is authorized (`orbit setup` re-does this)",
            ),
        )
    }
}

/// The remote docker socket check.
pub fn remote_socket_check(present: bool, socket: &str) -> (f: Finding)
    ensures
        finding_view(f) == if present {
            (0int, "Remote Docker daemon ("@ + socket@ + ")"@, Seq::<char>::empty())
        } else {
            (
                1int,
                "Remote Docker socket not found"@,
                "is Docker running on the host? re-run `orbit setup` to re-detect it"@,
            )
        },
{
    if present {
        Finding::Pass(s("Remote Docker daemon (").concat(socket).concat(")"))
    } else {
        Finding::Fail(
            s("Remote Docker socket not found"),
            s("is Docker running on the host? re-run `orbit setup` to re-detect it"),
        )
    }
}

/// What the forwarded docker socket did when probed.
pub enum ForwardedSocket {
    /// It answered a ping.
    Responding,
    /// A client could be made but the ping failed.
    NotResponding,
    /// No client could be made for it.
    Missing,
    /// Its path could not be determined; it was not probed.
    PathUnavailable,
}

/// The connection check: whether the SSH master is alive and, if so, how the
/// forwarded socket behaved. `None` when there is nothing to report.
pub fn connection_check(master_alive: bool, socket: ForwardedSocket) -> (f: Option<Finding>)
    ensures
        !master_alive ==> (f matches Some(x) && finding_view(x) == (
            2int,
            "orbit is not up yet"@,
            "run `orbit up` (or `orbit setup`) to delegate Docker"@,
        )),
        master_alive && socket is Responding ==> (f matches Some(x) && finding_view(x) == (
            0int,
            "Connection up \u{2014} forwarded Docker socket responds"@,
            Seq::<char>::empty(),
        )),
        master_alive && socket is NotResponding ==> (f matches Some(x) && finding_view(x) == (
            1int,
            "Forwarded socket not responding"@,
            "run `orbit down` then `orbit up`"@,
        )),
        master_alive && socket is Missing ==> (f matches Some(x) && finding_view(x) == (
            1int,
            "Forwarded socket missing"@,
            "run `orbit up`"@,
        )),
        master_alive && socket is PathUnavailable ==> f is None,
{
    if !master_alive {
        return Some(
            Finding::Note(
                s("orbit is not up yet"),
                s("run `orbit up` (or `orbit setup`) to delegate Docker"),
            ),
        );
    }
    match socket {
        ForwardedSocket::Responding => Some(
            Finding::Pass(s("Connection up \u{2014} forwarded Docker socket responds")),
        ),
        ForwardedSocket::NotResponding => Some(
            Finding::Fail(s("Forwarded socket not responding"), s("run `orbit down` then `orbit up`")),
        ),
        ForwardedSocket::Missing => Some(
            Finding::Fail(s("Forwarded socket missing"), s("run `orbit up`")),
        ),
        ForwardedSocket::PathUnavailable => None,
    }
}

/// The routing check: whether docker's current context is orbit's.
pub fn routing_check(current: &str, context_name: &str) -> (f: Finding)
    ensures
        current@ == context_name@ ==> finding_view(f) == (
            0int,
            "Docker is routed to the host"@,
            Seq::<char>::empty(),
        ),
        current@ != context_name@ ==> finding_view(f) == (
            2int,
            "Docker is on `"@ + current@ + "` (local)"@,
            "run `orbit up` to delegate to the host"@,
        ),
{
    if crate::text::chars_eq(&crate::text::chars_of(current), &crate::text::chars_of(context_name)) {
        Finding::Pass(s("Docker is routed to the host"))
    } else {
        Finding::Note(
            s("Docker is on `").concat(current).concat("` (local)"),
            s("run `orbit up` to delegate to the host"),
        )
    }
}

/// The last line of the report: no issues (with the host, when given), or how
/// many issues there are.
pub open spec fn verdict_text(problems: u32, host: Option<Seq<char>>) -> Seq<char> {
    if problems == 0 {
        bold_spec(green_spec("\u{2022}"@)) + " "@ + bold_spec(green_spec("No issues found! orbit is ready"@))
            + match host {
            Some(h) => " \u{2014} Docker runs on "@ + h,
            None => Seq::empty(),
        }
    } else {
        bold_spec(yellow_spec("\u{2022}"@)) + " "@ + yellow_spec(
            dec(problems as nat) + " issue(s) found \u{2014} see the fixes above"@,
        )
    }
}

/// The closing verdict line.
pub fn verdict(problems: u32, host: Option<&str>) -> (v: String)
    ensures
        v@ == verdict_text(problems, opt_chars(host)),
{
    if problems == 0 {
        let where_ = match host {
            Some(h) => s(" \u{2014} Docker runs on ").concat(h),
            None => String::new(),
        };
        bold(green("\u{2022}").as_str()).concat(" ").concat(
            bold(green("No issues found! orbit is ready").as_str()).as_str(),
        ).concat(where_.as_str())
    } else {
        let msg = u64_to_string(problems as u64).concat(
            " issue(s) found \u{2014} see the fixes above",
        );
        bold(yellow("\u{2022}").as_str()).concat(" ").concat(yellow(msg.as_str()).as_str())
    }
}

/// The line with the host's specs shown once connected.
pub open spec fn specs_text(m: RemoteMetrics) -> Seq<char> {
    "  "@ + cyan_spec("\u{25c7}"@) + " host has "@ + dec_signed(m.ncpu as int) + " cores \u{b7} "@
        + (if m.mem_total <= 0 {
        "?"@
    } else {
        gib_text(m.mem_total as nat)
    }) + " \u{b7} "@ + dec_signed(m.images as int) + " images \u{b7} "@ + dec_signed(
        m.running as int,
    ) + " running"@
}

/// How the host's total memory prints: in GiB with one decimal, `?` when
/// unknown (as `fmt_gib` prints it).
pub open spec fn memory_figure(bytes: i64) -> Seq<char> {
    if bytes <= 0 {
        "?"@
    } else {
        gib_text(bytes as nat)
    }
}

proof fn lemma_middle_cancels(a: Seq<char>, x: Seq<char>, y: Seq<char>, b: Seq<char>)
    requires
        a + x + b == a + y + b,
    ensures
        x == y,
{
    let l = a + x + b;
    let r = a + y + b;
    assert(l.len() == a.len() + x.len() + b.len());
    assert(r.len() == a.len() + y.len() + b.len());
    assert(x.len() == y.len());
    assert forall|k: int| 0 <= k < x.len() implies x[k] == y[k] by {
        assert((a + x)[a.len() + k] == x[k]);
        assert((a + y)[a.len() + k] == y[k]);
        assert(l[a.len() + k] == (a + x)[a.len() + k]);
        assert(r[a.len() + k] == (a + y)[a.len() + k]);
    }
    assert(x =~= y);
}

/// The host-specs line shows the engine's total memory: the memory used by
/// containers does not change it, and two hosts that differ only in total
/// memory get the same line exactly when their memory figures are the same.
pub proof fn lemma_specs_show_total_memory(m: RemoteMetrics, mem_total: i64, offloaded_mem: u64)
    ensures
        specs_text(m) == specs_text(
            RemoteMetrics {
                version: m.version,
                ncpu: m.ncpu,
                mem_total: m.mem_total,
                images: m.images,
                containers: m.containers,
                running: m.running,
                offloaded_mem,
            },
        ),
        specs_text(m) == specs_text(
            RemoteMetrics {
                version: m.version,
                ncpu: m.ncpu,
                mem_total,
                images: m.images,
                containers: m.containers,
                running: m.running,
                offloaded_mem: m.offloaded_mem,
            },
        ) <==> memory_figure(m.mem_total) == memory_figure(mem_total),
{
    let m2 = RemoteMetrics {
        version: m.version,
        ncpu: m.ncpu,
        mem_total,
        images: m.images,
        containers: m.containers,
        running: m.running,
        offloaded_mem: m.offloaded_mem,
    };
    let a = "  "@ + cyan_spec("\u{25c7}"@) + " host has "@ + dec_signed(m.ncpu as int)
        + " cores \u{b7} "@;
    let b = " \u{b7} "@ + dec_signed(m.images as int) + " images \u{b7} "@ + dec_signed(
        m.running as int,
    ) + " running"@;
    assert(specs_text(m) =~= a + memory_figure(m.mem_total) + b);
    assert(specs_text(m2) =~= a + memory_figure(mem_total) + b);
    if specs_text(m) == specs_text(m2) {
        lemma_middle_cancels(a, memory_figure(m.mem_total), memory_figure(mem_total), b);
    }
}

/// The line with the host's specs.
pub fn specs_line(m: &RemoteMetrics) -> (v: String)
    ensures
        v@ == specs_text(*m),
{
    s("  ").concat(cyan("\u{25c7}").as_str()).concat(" host has ").concat(
        i64_to_string(m.ncpu).as_str(),
    ).concat(" cores \u{b7} ").concat(fmt_gib(m.mem_total).as_str()).concat(" \u{b7} ").concat(
        i64_to_string(m.images).as_str(),
    ).concat(" images \u{b7} ").concat(i64_to_string(m.running).as_str()).concat(" running")
}

} // verus!
