//! `orbit setup`: the guided path's decisions: the host menu, the SSH user, the
//! manual key-authorization command and the self-test's port, steps and outcome.

use vstd::prelude::*;
use crate::text::{chars_eq, chars_of, dec, trim, trim_str, u64_to_string};

verus! {

/// The menu entry for typing an address by hand.
pub open spec fn manual_entry() -> Seq<char> {
    "\u{270e} Enter an address manually"@
}

/// The menu entry for scanning again.
pub open spec fn rescan_entry() -> Seq<char> {
    "\u{21bb} Rescan"@
}

/// The strings of `v`, each by its characters.
pub open spec fn strings_view(v: Seq<String>) -> Seq<Seq<char>> {
    v.map_values(|s: String| s@)
}

/// The host menu for the addresses found on the LAN: the addresses, then the
/// manual entry and the rescan entry; `None` when nothing was found (the user
/// then types an address).
pub fn host_menu(found: &Vec<String>) -> (r: Option<Vec<String>>)
    ensures
        found@.len() == 0 ==> r is None,
        found@.len() > 0 ==> (r matches Some(v) && strings_view(v@) == strings_view(found@) + seq![
            manual_entry(),
            rescan_entry(),
        ]),
{
    if found.len() == 0 {
        return None;
    }
    let mut v: Vec<String> = found.clone();
    proof {
        assert(v@ =~= found@);
    }
    v.push(String::from_str("\u{270e} Enter an address manually"));
    v.push(String::from_str("\u{21bb} Rescan"));
    proof {
        assert(strings_view(v@) =~= strings_view(found@) + seq![manual_entry(), rescan_entry()]);
    }
    Some(v)
}

/// What the user picked from the host menu.
pub enum HostChoice {
    /// Type an address by hand.
    Manual,
    /// Scan the LAN again.
    Rescan,
    /// This address.
    Address(String),
}

/// Classify the picked menu entry.
pub fn classify_choice(choice: String) -> (r: HostChoice)
    ensures
        choice@ == manual_entry() ==> r is Manual,
        choice@ != manual_entry() && choice@ == rescan_entry() ==> r is Rescan,
        choice@ != manual_entry() && choice@ != rescan_entry() ==> (r matches HostChoice::Address(a)
            && a@ == choice@),
{
    let c = chars_of(choice.as_str());
    if chars_eq(&c, &chars_of("\u{270e} Enter an address manually")) {
        HostChoice::Manual
    } else if chars_eq(&c, &chars_of("\u{21bb} Rescan")) {
        HostChoice::Rescan
    } else {
        HostChoice::Address(choice)
    }
}

/// The SSH user when none was given: the default user with `--yes`, `None` when
/// the user should be asked.
pub fn ssh_user(user_arg: Option<String>, yes: bool, default_user: &str) -> (r: Option<String>)
    ensures
        user_arg is Some ==> r == user_arg,
        user_arg is None && yes ==> (r matches Some(u) && u@ == default_user@),
        user_arg is None && !yes ==> r is None,
{
    match user_arg {
        Some(u) => Some(u),
        None => if yes {
            Some(String::from_str(default_user))
        } else {
            None
        },
    }
}

/// The command to run on the host to authorize the key by hand.
pub fn manual_key_command(pubkey: &str) -> (r: String)
    ensures
        r@ == "mkdir -p ~/.ssh && chmod 700 ~/.ssh && echo '"@ + trim(pubkey@)
            + "' >> ~/.ssh/authorized_keys && chmod 600 ~/.ssh/authorized_keys"@,
{
    String::from_str("mkdir -p ~/.ssh && chmod 700 ~/.ssh && echo '").concat(
        trim_str(pubkey).as_str(),
    ).concat("' >> ~/.ssh/authorized_keys && chmod 600 ~/.ssh/authorized_keys")
}

/// The port of the self-test: a free local port, or 8080.
pub fn self_test_port(free: Option<u16>) -> (p: u16)
    ensures
        p == match free {
            Some(f) => f,
            None => 8080u16,
        },
{
    match free {
        Some(f) => f,
        None => 8080,
    }
}

/// The `-p` argument of the self-test container: the port on the host mapped
/// to nginx's port 80.
pub fn publish_arg(port: u16) -> (r: String)
    ensures
        r@ == dec(port as nat) + ":80"@,
{
    u64_to_string(port as u64).concat(":80")
}

/// The URL the self-test fetches.
pub fn self_test_url(port: u16) -> (r: String)
    ensures
        r@ == "http://localhost:"@ + dec(port as nat),
{
    String::from_str("http://localhost:").concat(u64_to_string(port as u64).as_str())
}

/// Where the host comes from: the `--host` argument, or the menu (`Ok(None)`);
/// with `--yes` and no `--host` there is nothing to pick non-interactively.
pub fn host_source(host_arg: Option<String>, yes: bool) -> (r: Result<Option<String>, String>)
    ensures
        host_arg is Some ==> r == Ok::<Option<String>, String>(host_arg),
        host_arg is None && !yes ==> r == Ok::<Option<String>, String>(None),
        host_arg is None && yes ==> (r matches Err(e) && e@
            == "--yes needs --host <addr> (nothing to pick non-interactively)"@),
{
    match host_arg {
        Some(h) => Ok(Some(h)),
        None => if yes {
            Err(String::from_str("--yes needs --host <addr> (nothing to pick non-interactively)"))
        } else {
            Ok(None)
        },
    }
}

/// Whether to try `ssh-copy-id` (which may prompt for the host password): not
/// with `--yes`.
pub fn try_copy_id(yes: bool) -> (r: bool)
    ensures
        r == !yes,
{
    !yes
}

/// After the manual instructions are shown: with `--yes`, stop with an error;
/// otherwise wait for the user to add the key (`Ok`).
pub fn after_manual_instructions(yes: bool) -> (r: Result<(), String>)
    ensures
        !yes ==> r is Ok,
        yes ==> (r matches Err(e) && e@
            == "key not authorized and --yes was set; authorize it and re-run"@),
{
    if yes {
        Err(String::from_str("key not authorized and --yes was set; authorize it and re-run"))
    } else {
        Ok(())
    }
}

/// How many times the self-test asks localhost for the test page.
pub const SELF_TEST_ATTEMPTS: u32 = 15;

/// How long the self-test waits before each attempt, in milliseconds (time
/// for the reconciler to open the forward).
pub const SELF_TEST_WAIT_MS: u64 = 700;

/// The self-test's next step.
#[derive(Clone, Copy, Debug, PartialEq, Eq, Structural)]
pub enum SelfTestStep {
    /// The test page answered on localhost: the test passed.
    Pass,
    /// Wait this many milliseconds, then ask again.
    Wait(u64),
    /// No answer after every attempt: the test failed.
    Fail,
}

/// The self-test's next step after `attempts_done` attempts, `answered` telling
/// whether the last one got the test page.
pub fn self_test_step(attempts_done: u32, answered: bool) -> (s: SelfTestStep)
    ensures
        answered ==> s == SelfTestStep::Pass,
        !answered && attempts_done < SELF_TEST_ATTEMPTS ==> s == SelfTestStep::Wait(SELF_TEST_WAIT_MS),
        !answered && attempts_done >= SELF_TEST_ATTEMPTS ==> s == SelfTestStep::Fail,
{
    if answered {
        SelfTestStep::Pass
    } else if attempts_done < SELF_TEST_ATTEMPTS {
        SelfTestStep::Wait(SELF_TEST_WAIT_MS)
    } else {
        SelfTestStep::Fail
    }
}

/// What the self-test reports: the success line when the container answered
/// on `localhost:<port>`, else the error.
pub fn self_test_outcome(passed: bool, port: u16) -> (r: Result<String, String>)
    ensures
        passed ==> (r matches Ok(t) && t@
            == "self-test passed \u{2014} a container on the host answered on localhost:"@ + dec(
            port as nat,
        )),
        !passed ==> (r matches Err(e) && e@ == "the test container didn't answer on localhost:"@
            + dec(port as nat)),
{
    let p = u64_to_string(port as u64);
    if passed {
        Ok(
            String::from_str(
                "self-test passed \u{2014} a container on the host answered on localhost:",
            ).concat(p.as_str()),
        )
    } else {
        Err(String::from_str("the test container didn't answer on localhost:").concat(p.as_str()))
    }
}

} // verus!
