//! `orbit host init`: the host's LAN address and the join command it prints
//! for the client.

use vstd::prelude::*;
use crate::text::{chars_of, next_word, next_word_at, opt_chars, string_of, subrange_vec};

verus! {

/// The first white-space separated word of the text, if any.
pub open spec fn first_word(s: Option<Seq<char>>) -> Option<Seq<char>> {
    match s {
        Some(t) => match next_word(t) {
            Some((w, _)) => Some(w),
            None => None,
        },
        None => None,
    }
}

/// The address shown for this host: the first non-empty address of `en0` or
/// `en1` (macOS `ipconfig getifaddr`), else the first word of `hostname -I`
/// (Linux), else the output of `hostname`, else `<this-host>`. Each argument is
/// the trimmed output of the command when it succeeded.
pub open spec fn lan_address_spec(
    en0: Option<Seq<char>>,
    en1: Option<Seq<char>>,
    hostname_i: Option<Seq<char>>,
    hostname: Option<Seq<char>>,
) -> Seq<char> {
    if en0 matches Some(ip) && ip.len() > 0 {
        en0->0
    } else if en1 matches Some(ip) && ip.len() > 0 {
        en1->0
    } else {
        match first_word(hostname_i) {
            Some(w) => w,
            None => match hostname {
                Some(h) => h,
                None => "<this-host>"@,
            },
        }
    }
}

/// The interfaces are tried in order: a non-empty address of `en0` wins; when
/// `en0` gives none (its probe failed or printed nothing) a non-empty address
/// of `en1` wins, so a failed and an empty `en0` probe pick the same address;
/// only when neither gives one do the `hostname` probes count.
pub proof fn lemma_interfaces_in_order(
    en0: Option<Seq<char>>,
    en1: Option<Seq<char>>,
    hostname_i: Option<Seq<char>>,
    hostname: Option<Seq<char>>,
)
    ensures
        (en0 matches Some(ip) && ip.len() > 0) ==> lan_address_spec(en0, en1, hostname_i, hostname)
            == en0->0,
        lan_address_spec(None, en1, hostname_i, hostname) == lan_address_spec(
            Some(Seq::empty()),
            en1,
            hostname_i,
            hostname,
        ),
        !(en0 matches Some(ip) && ip.len() > 0) && (en1 matches Some(ip) && ip.len() > 0)
            ==> lan_address_spec(en0, en1, hostname_i, hostname) == en1->0,
        !(en0 matches Some(ip) && ip.len() > 0) && !(en1 matches Some(ip) && ip.len() > 0)
            ==> lan_address_spec(en0, en1, hostname_i, hostname) == lan_address_spec(
            None,
            None,
            hostname_i,
            hostname,
        ),
{
}

/// Pick the host's LAN address from the probes' outputs.
pub fn lan_address(
    en0: Option<&str>,
    en1: Option<&str>,
    hostname_i: Option<&str>,
    hostname: Option<&str>,
) -> (r: String)
    ensures
        r@ == lan_address_spec(
            opt_chars(en0),
            opt_chars(en1),
            opt_chars(hostname_i),
            opt_chars(hostname),
        ),
{
    if let Some(ip) = en0 {
        if ip.unicode_len() > 0 {
            return String::from_str(ip);
        }
    }
    if let Some(ip) = en1 {
        if ip.unicode_len() > 0 {
            return String::from_str(ip);
        }
    }
    if let Some(ips) = hostname_i {
        let v = chars_of(ips);
        proof {
            assert(v@.skip(0) == v@);
        }
        if let Some((a, e)) = next_word_at(&v, 0) {
            let w = subrange_vec(&v, a, e);
            return string_of(&w);
        }
    }
    match hostname {
        Some(h) => String::from_str(h),
        None => String::from_str("<this-host>"),
    }
}

/// The user named in the join command: the output of `whoami`, or `<user>`.
pub fn host_user(whoami: Option<&str>) -> (r: String)
    ensures
        r@ == match opt_chars(whoami) {
            Some(u) => u,
            None => "<user>"@,
        },
{
    match whoami {
        Some(u) => String::from_str(u),
        None => String::from_str("<user>"),
    }
}

/// The command the client runs to link to this host.
pub fn join_command(user: &str, addr: &str) -> (r: String)
    ensures
        r@ == "orbit link "@ + user@ + "@"@ + addr@,
{
    String::from_str("orbit link ").concat(user).concat("@").concat(addr)
}

} // verus!
