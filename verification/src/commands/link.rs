//! `orbit link <user@host>`: the client-side decisions: the target, the adapter
//! for the remote OS, the socket probes and the provisional configuration.

use vstd::prelude::*;
use crate::config::{Config, DEFAULT_CONTEXT};
use crate::host::HostKind;
use crate::text::{
    chars_of, find_at, find_from, lemma_find_from_occurs, opt_chars, string_of, subrange_vec, trim,
    trim_chars, trim_str,
};

verus! {

/// `user@host` split at its first `@`; without one, the local user and the
/// whole target.
pub open spec fn split_target(target: Seq<char>, local_user: Seq<char>) -> (Seq<char>, Seq<char>) {
    match find_from(target, seq!['@'], 0) {
        Some(j) => (target.subrange(0, j), target.skip(j + 1)),
        None => (local_user, target),
    }
}

/// Split a `user@host` target; `local_user` is used when the target names no user.
pub fn parse_target(target: &str, local_user: &str) -> (r: (String, String))
    ensures
        (r.0@, r.1@) == split_target(target@, local_user@),
{
    let v = chars_of(target);
    let n = v.len();
    let mut at: Vec<char> = Vec::new();
    at.push('@');
    match find_at(&v, &at, 0) {
        Some(j) => {
            proof {
                assert(at@ == seq!['@']);
            }
            let u = subrange_vec(&v, 0, j);
            let h = subrange_vec(&v, j + 1, n);
            proof {
                assert(h@ =~= v@.skip(j + 1));
            }
            (string_of(&u), string_of(&h))
        },
        None => {
            proof {
                assert(at@ == seq!['@']);
            }
            (String::from_str(local_user), String::from_str(target))
        },
    }
}

/// Whether the target names no user (it has no `@`), so that the local user
/// is needed.
pub fn needs_local_user(target: &str) -> (r: bool)
    ensures
        r == (find_from(target@, seq!['@'], 0) is None),
{
    let v = chars_of(target);
    let mut at: Vec<char> = Vec::new();
    at.push('@');
    proof {
        assert(at@ == seq!['@']);
    }
    find_at(&v, &at, 0).is_none()
}

/// Whether `p` occurs somewhere in `s`.
pub open spec fn contains_text(s: Seq<char>, p: Seq<char>) -> bool {
    find_from(s, p, 0) is Some
}

fn contains_str(s: &str, p: &str) -> (r: bool)
    ensures
        r == contains_text(s@, p@),
{
    let v = chars_of(s);
    let pv = chars_of(p);
    find_at(&v, &pv, 0).is_some()
}

/// The adapter for a host whose `uname -s` printed `uname`: unix when it names
/// Darwin or Linux, the WSL2 adapter otherwise.
pub fn adapter_for_os(uname: &str) -> (k: HostKind)
    ensures
        k == (if contains_text(uname@, "Darwin"@) || contains_text(uname@, "Linux"@) {
            HostKind::Unix
        } else {
            HostKind::WindowsWsl
        }),
{
    if contains_str(uname, "Darwin") || contains_str(uname, "Linux") {
        HostKind::Unix
    } else {
        HostKind::WindowsWsl
    }
}

/// The remote shell command that prints `yes` when `socket` is a socket.
pub fn socket_probe(socket: &str) -> (s: String)
    ensures
        s@ == "test -S "@ + socket@ + " && echo yes"@,
{
    String::from_str("test -S ").concat(socket).concat(" && echo yes")
}

/// Whether the socket probe answered `yes` (the probe's output, when it ran).
pub fn probe_says_yes(out: Option<&str>) -> (r: bool)
    ensures
        r == match opt_chars(out) {
            Some(o) => trim(o) == "yes"@,
            None => false,
        },
{
    match out {
        Some(o) => {
            let t = trim_chars(&chars_of(o));
            let y = chars_of("yes");
            crate::text::chars_eq(&t, &y)
        },
        None => false,
    }
}

/// The remote shell command that prints the first existing docker socket among
/// the usual places.
pub fn detect_socket_probe() -> (s: String)
    ensures
        s@ == "for s in /var/run/docker.sock /run/docker.sock \"$HOME/.docker/run/docker.sock\" \"$HOME/.orbstack/run/docker.sock\" \"$HOME/.colima/default/docker.sock\"; do [ -S \"$s\" ] && echo \"$s\" && break; done"@,
{
    String::from_str(
        "for s in /var/run/docker.sock /run/docker.sock \"$HOME/.docker/run/docker.sock\" \"$HOME/.orbstack/run/docker.sock\" \"$HOME/.colima/default/docker.sock\"; do [ -S \"$s\" ] && echo \"$s\" && break; done",
    )
}

/// The socket the detection probe found: its trimmed output when that is not
/// empty (the probe's output, when it ran).
pub fn detected_socket(out: Option<&str>) -> (r: Option<String>)
    ensures
        match opt_chars(out) {
            Some(o) => if trim(o).len() > 0 {
                r matches Some(s) && s@ == trim(o)
            } else {
                r is None
            },
            None => r is None,
        },
{
    match out {
        Some(o) => {
            let t = trim_str(o);
            if t.as_str().unicode_len() > 0 {
                Some(t)
            } else {
                None
            }
        },
        None => None,
    }
}

/// The provisional configuration `orbit link` starts from: a unix host at the
/// given address, the socket override or `/var/run/docker.sock`, the default
/// context, no previous context.
pub fn provisional_config(user: &str, host: &str, port: u16, socket_override: Option<&str>) -> (c:
    Config)
    ensures
        c.host_user@ == user@,
        c.host_addr@ == host@,
        c.ssh_port == port,
        c.adapter == HostKind::Unix,
        c.remote_socket@ == match socket_override {
            Some(s) => s@,
            None => "/var/run/docker.sock"@,
        },
        c.context_name@ == DEFAULT_CONTEXT@,
        c.previous_context is None,
{
    Config {
        host_user: String::from_str(user),
        host_addr: String::from_str(host),
        ssh_port: port,
        adapter: HostKind::Unix,
        remote_socket: match socket_override {
            Some(s) => String::from_str(s),
            None => String::from_str("/var/run/docker.sock"),
        },
        context_name: String::from_str(DEFAULT_CONTEXT),
        previous_context: None,
    }
}

/// The description of orbit's docker context: `orbit → <user@host>`.
pub fn context_description(target: &str) -> (r: String)
    ensures
        r@ == "orbit \u{2192} "@ + target@,
{
    String::from_str("orbit \u{2192} ").concat(target)
}

/// The public half of orbit's key pair: the private key's path with `.pub`
/// added (the key file has no extension).
pub fn public_key_path(private_key: &str) -> (r: String)
    ensures
        r@ == private_key@ + ".pub"@,
{
    String::from_str(private_key).concat(".pub")
}

/// The `ssh-copy-id` arguments that install the public key on the host.
pub fn copy_id_args(public_key: &str, port: u16, target: &str) -> (v: Vec<String>)
    ensures
        v@.map_values(|s: String| s@) == seq![
            "-i"@,
            public_key@,
            "-p"@,
            crate::text::dec(port as nat),
            target@,
        ],
{
    let mut v: Vec<String> = Vec::new();
    v.push(String::from_str("-i"));
    v.push(String::from_str(public_key));
    v.push(String::from_str("-p"));
    v.push(crate::text::u64_to_string(port as u64));
    v.push(String::from_str(target));
    proof {
        assert(v@.map_values(|s: String| s@) =~= seq![
            "-i"@,
            public_key@,
            "-p"@,
            crate::text::dec(port as nat),
            target@,
        ]);
    }
    v
}

/// A `user@host` target survives linking: the configuration made from its
/// parts gives the same target back as its SSH target.
pub proof fn lemma_target_round_trip(target: Seq<char>, local_user: Seq<char>)
    requires
        find_from(target, seq!['@'], 0) is Some,
    ensures
        split_target(target, local_user).0 + "@"@ + split_target(target, local_user).1 == target,
{
    reveal_strlit("@");
    lemma_find_from_occurs(target, seq!['@'], 0);
    let j = find_from(target, seq!['@'], 0)->0;
    assert(target.subrange(j, j + 1) == seq!['@']);
    assert(target[j] == target.subrange(j, j + 1)[0]);
    assert(target.subrange(0, j) + "@"@ + target.skip(j + 1) =~= target);
}

} // verus!
