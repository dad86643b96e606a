//! `orbit status`: the state words, the docker context line, and the pid check
//! of the forwarder.

use vstd::prelude::*;
use crate::text::{chars_eq, chars_of, dec, dec_signed, i64_to_string, trim, trim_str, u64_to_string};
use crate::util::{dimmed, dimmed_spec, green, green_spec, red, red_spec};

verus! {

/// `running` in green or `stopped` in red.
pub fn state(up: bool) -> (s: String)
    ensures
        up ==> s@ == green_spec("running"@),
        !up ==> s@ == red_spec("stopped"@),
{
    if up {
        green("running")
    } else {
        red("stopped")
    }
}

/// The docker context line: the current context, marked active when it is
/// orbit's context, local otherwise.
pub fn context_line(current: &str, context_name: &str) -> (s: String)
    ensures
        current@ == context_name@ ==> s@ == current@ + " "@ + green_spec(
            "(active \u{2014} docker \u{2192} host)"@,
        ),
        current@ != context_name@ ==> s@ == current@ + " "@ + dimmed_spec("(local engine)"@),
{
    if chars_eq(&chars_of(current), &chars_of(context_name)) {
        String::from_str(current).concat(" ").concat(
            green("(active \u{2014} docker \u{2192} host)").as_str(),
        )
    } else {
        String::from_str(current).concat(" ").concat(dimmed("(local engine)").as_str())
    }
}

/// The pid to probe with `kill -0`: the trimmed content of the pid file, when
/// not empty.
pub fn pid_to_check(content: &str) -> (r: Option<String>)
    ensures
        trim(content@).len() > 0 ==> (r matches Some(p) && p@ == trim(content@)),
        trim(content@).len() == 0 ==> r is None,
{
    let t = trim_str(content);
    if t.as_str().unicode_len() > 0 {
        Some(t)
    } else {
        None
    }
}

/// A forwarded port as listed: `localhost:<port> → host:<port>`, the arrow dimmed.
pub fn port_line(port: u16) -> (r: String)
    ensures
        r@ == "  localhost:"@ + dec(port as nat) + " "@ + dimmed_spec("\u{2192}"@) + " host:"@ + dec(
            port as nat,
        ),
{
    let p = u64_to_string(port as u64);
    String::from_str("  localhost:").concat(p.as_str()).concat(" ").concat(
        dimmed("\u{2192}").as_str(),
    ).concat(" host:").concat(p.as_str())
}

/// The line shown when no port is forwarded.
pub fn no_ports_line() -> (r: String)
    ensures
        r@ == "  "@ + dimmed_spec("none \u{2014} start a container with -p to see it here"@),
{
    String::from_str("  ").concat(
        dimmed("none \u{2014} start a container with -p to see it here").as_str(),
    )
}

/// The container counts of the remote engine: `<running> running / <total> total`.
pub fn containers_summary(running: i64, total: i64) -> (r: String)
    ensures
        r@ == dec_signed(running as int) + " running / "@ + dec_signed(total as int) + " total"@,
{
    i64_to_string(running).concat(" running / ").concat(i64_to_string(total).as_str()).concat(
        " total",
    )
}

} // verus!
