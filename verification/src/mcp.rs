//! The MCP (Model Context Protocol) server's decisions: which fields of a
//! JSON-RPC message it reads, which method a request names, the tool catalogue,
//! which orbit command a tool call runs, how the command's output becomes the
//! tool's reply text, and the answers over a whole input stream.

use vstd::prelude::*;
use crate::text::{
    chars_eq, chars_of, dec, is_ws, lemma_blank_is_white_space, lemma_trim_keeps_absent, parse_u64_chars, parse_u64_spec, string_of, trim, trim_chars, u64_to_string,
};

verus! {

/// Whether `c` is an ASCII letter.
pub open spec fn is_ascii_alpha(c: char) -> bool {
    ('a' <= c && c <= 'z') || ('A' <= c && c <= 'Z')
}

/// `s` with ANSI escape sequences removed: an ESC character and everything up to
/// and including the next ASCII letter are dropped. `in_escape` says whether the
/// text starts inside such a sequence.
pub open spec fn strip_from(s: Seq<char>, in_escape: bool) -> Seq<char>
    decreases s.len(),
{
    if s.len() == 0 {
        Seq::empty()
    } else if in_escape {
        strip_from(s.drop_first(), !is_ascii_alpha(s[0]))
    } else if s[0] == '\u{1b}' {
        strip_from(s.drop_first(), true)
    } else {
        seq![s[0]] + strip_from(s.drop_first(), false)
    }
}

/// `s` without ANSI color codes.
pub open spec fn strip_ansi_spec(s: Seq<char>) -> Seq<char> {
    strip_from(s, false)
}

/// Strip ANSI color codes so the assistant sees clean text.
pub fn strip_ansi(s: &str) -> (r: String)
    ensures
        r@ == strip_ansi_spec(s@),
{
    let v = chars_of(s);
    let n = v.len();
    let mut out: Vec<char> = Vec::new();
    let mut esc = false;
    let mut i: usize = 0;
    proof {
        assert(v@.skip(0) == v@);
        assert(out@ + strip_from(v@, false) =~= strip_from(v@, false));
    }
    while i < n
        invariant
            n == v@.len(),
            i <= n,
            out@ + strip_from(v@.skip(i as int), esc) == strip_from(v@, false),
        decreases n - i,
    {
        let c = v[i];
        let ghost rest = v@.skip(i as int);
        proof {
            assert(rest[0] == c);
            assert(rest.drop_first() == v@.skip(i + 1));
        }
        if esc {
            esc = !(('a' <= c && c <= 'z') || ('A' <= c && c <= 'Z'));
        } else if c == '\u{1b}' {
            esc = true;
        } else {
            let ghost before = out@;
            out.push(c);
            proof {
                assert(strip_from(rest, false) == seq![c] + strip_from(v@.skip(i + 1), false));
                assert(out@ + strip_from(v@.skip(i + 1), false) =~= before + (seq![c] + strip_from(
                    v@.skip(i + 1),
                    false,
                )));
            }
        }
        i = i + 1;
    }
    proof {
        assert(v@.skip(n as int) =~= Seq::<char>::empty());
        assert(out@ + Seq::<char>::empty() =~= out@);
    }
    string_of(&out)
}

/// The text a tool call replies with: the command's standard output, then its
/// standard error on a new line when that holds more than white space, colors
/// removed.
pub open spec fn combined_output(stdout: Seq<char>, stderr: Seq<char>) -> Seq<char> {
    let text = strip_ansi_spec(stdout);
    let errs = strip_ansi_spec(stderr);
    if trim(errs).len() > 0 {
        if text.len() > 0 {
            text + seq!['\n'] + errs
        } else {
            errs
        }
    } else {
        text
    }
}

/// Stripped text holds no escape character: nothing of a color code reaches
/// the assistant.
pub proof fn lemma_stripped_text_is_clean(s: Seq<char>, in_escape: bool)
    ensures
        !strip_from(s, in_escape).contains('\u{1b}'),
    decreases s.len(),
{
    if s.len() > 0 {
        lemma_stripped_text_is_clean(s.drop_first(), !is_ascii_alpha(s[0]));
        lemma_stripped_text_is_clean(s.drop_first(), true);
        lemma_stripped_text_is_clean(s.drop_first(), false);
        if !in_escape && s[0] != '\u{1b}' {
            let rest = strip_from(s.drop_first(), false);
            let out = seq![s[0]] + rest;
            assert forall|i: int| 0 <= i < out.len() implies out[i] != '\u{1b}' by {
                if i > 0 {
                    assert(out[i] == rest[i - 1]);
                }
            }
        }
    }
}

proof fn lemma_strip_clean_text(s: Seq<char>)
    requires
        !s.contains('\u{1b}'),
    ensures
        strip_from(s, false) == s,
    decreases s.len(),
{
    if s.len() > 0 {
        assert(s[0] != '\u{1b}');
        let t = s.drop_first();
        assert forall|i: int| 0 <= i < t.len() implies t[i] != '\u{1b}' by {
            assert(t[i] == s[i + 1]);
        }
        lemma_strip_clean_text(t);
        assert(seq![s[0]] + t =~= s);
    }
}

/// Stripping color codes twice is stripping them once.
pub proof fn lemma_strip_ansi_idempotent(s: Seq<char>)
    ensures
        strip_ansi_spec(strip_ansi_spec(s)) == strip_ansi_spec(s),
{
    lemma_stripped_text_is_clean(s, false);
    lemma_strip_clean_text(strip_from(s, false));
}

/// A tool's reply never holds an escape character, whatever the command
/// printed; and when the command's standard error holds nothing but white
/// space, the reply is its standard output with colors removed, trimmed.
pub proof fn lemma_reply_is_clean(stdout: Seq<char>, stderr: Seq<char>)
    ensures
        !trim(combined_output(stdout, stderr)).contains('\u{1b}'),
        trim(stderr).len() == 0 ==> trim(combined_output(stdout, stderr)) == trim(
            strip_ansi_spec(stdout),
        ),
{
    lemma_stripped_text_is_clean(stdout, false);
    lemma_stripped_text_is_clean(stderr, false);
    let text = strip_ansi_spec(stdout);
    let errs = strip_ansi_spec(stderr);
    let c = combined_output(stdout, stderr);
    assert(!c.contains('\u{1b}')) by {
        if trim(errs).len() > 0 && text.len() > 0 {
            let all = text + seq!['\n'] + errs;
            assert(c == all);
            assert forall|i: int| 0 <= i < all.len() implies all[i] != '\u{1b}' by {
                if i < text.len() {
                    assert(all[i] == text[i]);
                } else if i > text.len() {
                    assert(all[i] == errs[i - text.len() - 1]);
                }
            }
        }
    }
    lemma_trim_keeps_absent(c, '\u{1b}');
    if trim(stderr).len() == 0 {
        lemma_blank_is_white_space(stderr);
        assert(!stderr.contains('\u{1b}')) by {
            if stderr.contains('\u{1b}') {
                let k = choose|k: int| 0 <= k < stderr.len() && stderr[k] == '\u{1b}';
                assert(is_ws(stderr[k]));
            }
        }
        lemma_strip_clean_text(stderr);
        assert(errs == stderr);
    }
}

/// Combine the output of an orbit subprocess into the tool's reply: the trimmed
/// text, as an error when the process failed.
pub fn combine_output(stdout: &str, stderr: &str, success: bool) -> (r: Result<String, String>)
    ensures
        success ==> (r matches Ok(t) && t@ == trim(combined_output(stdout@, stderr@))),
        !success ==> (r matches Err(t) && t@ == trim(combined_output(stdout@, stderr@))),
{
    let text = strip_ansi(stdout);
    let errs = strip_ansi(stderr);
    let tv = chars_of(text.as_str());
    let ev = chars_of(errs.as_str());
    let mut all: Vec<char> = tv.clone();
    let et = trim_chars(&ev);
    if et.len() > 0 {
        if all.len() > 0 {
            all.push('\n');
        }
        let mut e2 = ev.clone();
        all.append(&mut e2);
    }
    proof {
        if et@.len() > 0 {
            if tv@.len() > 0 {
                assert(all@ =~= tv@ + seq!['\n'] + ev@);
            } else {
                assert(all@ =~= ev@);
            }
        }
    }
    let t = trim_chars(&all);
    let s = string_of(&t);
    if success {
        Ok(s)
    } else {
        Err(s)
    }
}

/// What a tool call amounts to.
pub enum ToolPlan {
    /// Run orbit with these arguments and reply with its output.
    Run(Seq<Seq<char>>),
    /// Reply with this text directly.
    Reply(Seq<char>),
    /// Fail with this message.
    Fail(Seq<char>),
}

/// The text of the `setup_hint` tool.
pub open spec fn setup_hint_text() -> Seq<char> {
    "Run `orbit setup` in a terminal. It's interactive: it discovers the host on your LAN, authorizes the SSH key (asking for the host password once if needed), links, and runs an end-to-end self-test."@
}

/// The orbit command line for a tool call, by tool name and its `target` and
/// `port` arguments (`port` only when it is an unsigned integer).
pub open spec fn tool_plan(name: Seq<char>, target: Option<Seq<char>>, port: Option<u64>) -> ToolPlan {
    if name == "status"@ {
        ToolPlan::Run(seq!["status"@])
    } else if name == "up"@ {
        ToolPlan::Run(seq!["up"@])
    } else if name == "down"@ {
        ToolPlan::Run(seq!["down"@])
    } else if name == "doctor"@ {
        ToolPlan::Run(seq!["doctor"@])
    } else if name == "list_forwards"@ {
        ToolPlan::Run(seq!["ports"@])
    } else if name == "link"@ {
        match target {
            None => ToolPlan::Fail("link requires a 'target'"@),
            Some(t) => match port {
                Some(p) => ToolPlan::Run(seq!["link"@, t, "--port"@, dec(p as nat)]),
                None => ToolPlan::Run(seq!["link"@, t]),
            },
        }
    } else if name == "add_forward"@ {
        match port {
            None => ToolPlan::Fail("add_forward requires a 'port'"@),
            Some(p) => ToolPlan::Run(seq!["ports"@, "add"@, dec(p as nat)]),
        }
    } else if name == "remove_forward"@ {
        match port {
            None => ToolPlan::Fail("remove_forward requires a 'port'"@),
            Some(p) => ToolPlan::Run(seq!["ports"@, "rm"@, dec(p as nat)]),
        }
    } else if name == "setup_hint"@ {
        ToolPlan::Reply(setup_hint_text())
    } else {
        ToolPlan::Fail("unknown tool: "@ + name)
    }
}

/// The names of the tools the server offers, in catalogue order.
pub open spec fn tool_names_spec() -> Seq<Seq<char>> {
    seq![
        "status"@,
        "up"@,
        "down"@,
        "doctor"@,
        "list_forwards"@,
        "link"@,
        "add_forward"@,
        "remove_forward"@,
        "setup_hint"@,
    ]
}

/// The names of the tools the server offers.
pub fn tool_names() -> (v: Vec<String>)
    ensures
        v@.map_values(|s: String| s@) == tool_names_spec(),
{
    let mut v: Vec<String> = Vec::new();
    v.push(String::from_str("status"));
    v.push(String::from_str("up"));
    v.push(String::from_str("down"));
    v.push(String::from_str("doctor"));
    v.push(String::from_str("list_forwards"));
    v.push(String::from_str("link"));
    v.push(String::from_str("add_forward"));
    v.push(String::from_str("remove_forward"));
    v.push(String::from_str("setup_hint"));
    proof {
        assert(v@.map_values(|s: String| s@) =~= tool_names_spec());
    }
    v
}

/// Every tool in the catalogue is handled: given the arguments its schema
/// asks for, a call runs a command or replies, and never fails; and a name
/// outside the catalogue is refused as an unknown tool.
pub proof fn lemma_catalogue_handled(name: Seq<char>, target: Seq<char>, port: u64)
    ensures
        tool_names_spec().contains(name) ==> !(tool_plan(name, Some(target), Some(port)) is Fail),
        !tool_names_spec().contains(name) ==> tool_plan(name, Some(target), Some(port))
            == ToolPlan::Fail("unknown tool: "@ + name),
{
    reveal_strlit("status");
    reveal_strlit("up");
    reveal_strlit("down");
    reveal_strlit("doctor");
    reveal_strlit("list_forwards");
    reveal_strlit("link");
    reveal_strlit("add_forward");
    reveal_strlit("remove_forward");
    reveal_strlit("setup_hint");
    let names = tool_names_spec();
    if !names.contains(name) {
        assert(names[0] == "status"@);
        assert(names[1] == "up"@);
        assert(names[2] == "down"@);
        assert(names[3] == "doctor"@);
        assert(names[4] == "list_forwards"@);
        assert(names[5] == "link"@);
        assert(names[6] == "add_forward"@);
        assert(names[7] == "remove_forward"@);
        assert(names[8] == "setup_hint"@);
    }
}

/// The JSON type of a tool argument.
#[derive(Clone, Copy, Debug, PartialEq, Eq, Structural)]
pub enum ArgKind {
    /// A string.
    Str,
    /// An integer.
    Int,
}

/// One argument of a tool, as its input schema lists it.
pub struct ToolArg {
    /// The argument's name.
    pub name: String,
    /// Its JSON type.
    pub kind: ArgKind,
    /// What it is for, when the schema says.
    pub description: Option<String>,
}

/// A tool the server offers: its name, what it does, its arguments and which
/// of them a call must give.
pub struct ToolSpec {
    /// The tool's name.
    pub name: String,
    /// What the tool does.
    pub description: String,
    /// The arguments it takes; none means it takes no arguments at all.
    pub args: Vec<ToolArg>,
    /// The arguments a call must give.
    pub required: Vec<String>,
}

/// An argument as plain values: name, type, description.
pub open spec fn arg_view(a: ToolArg) -> (Seq<char>, ArgKind, Option<Seq<char>>) {
    (a.name@, a.kind, opt_string(a.description))
}

/// A tool as plain values: name, description, arguments, required arguments.
pub open spec fn tool_spec_view(t: ToolSpec) -> (
    Seq<char>,
    Seq<char>,
    Seq<(Seq<char>, ArgKind, Option<Seq<char>>)>,
    Seq<Seq<char>>,
) {
    (t.name@, t.description@, t.args@.map_values(|a: ToolArg| arg_view(a)), strings_view(t.required@))
}

/// The arguments of `link`.
pub open spec fn link_args() -> Seq<(Seq<char>, ArgKind, Option<Seq<char>>)> {
    seq![
        ("target"@, ArgKind::Str, Some("user@host or just host"@)),
        ("port"@, ArgKind::Int, Some("SSH port (default 22)"@)),
    ]
}

/// The arguments of `add_forward` and `remove_forward`.
pub open spec fn port_args() -> Seq<(Seq<char>, ArgKind, Option<Seq<char>>)> {
    seq![("port"@, ArgKind::Int, None)]
}

/// The tool catalogue, in order: name, description, arguments and required
/// arguments of each tool.
pub open spec fn tool_catalogue_spec() -> Seq<
    (Seq<char>, Seq<char>, Seq<(Seq<char>, ArgKind, Option<Seq<char>>)>, Seq<Seq<char>>),
> {
    seq![
        (
            "status"@,
            "Show orbit link, connection state, forwarded ports, and remote CPU/RAM/image counts."@,
            Seq::empty(),
            Seq::empty(),
        ),
        (
            "up"@,
            "Delegate Docker to the linked host and start forwarding published ports. Detached."@,
            Seq::empty(),
            Seq::empty(),
        ),
        (
            "down"@,
            "Stop forwarding, close the SSH connection, and restore the previous docker context."@,
            Seq::empty(),
            Seq::empty(),
        ),
        (
            "doctor"@,
            "Diagnose SSH, the remote docker daemon, the forwarded socket, and the docker context."@,
            Seq::empty(),
            Seq::empty(),
        ),
        (
            "list_forwards"@,
            "List the ports currently forwarded from the host to localhost."@,
            Seq::empty(),
            Seq::empty(),
        ),
        (
            "link"@,
            "Link this machine to a host. The SSH key must already be authorized (else tell the user to run `orbit setup`)."@,
            link_args(),
            seq!["target"@],
        ),
        (
            "add_forward"@,
            "Forward an extra TCP port from the host to localhost."@,
            port_args(),
            seq!["port"@],
        ),
        (
            "remove_forward"@,
            "Stop forwarding a previously added TCP port."@,
            port_args(),
            seq!["port"@],
        ),
        (
            "setup_hint"@,
            "How to run first-time interactive setup. Returns the exact command for the user to run in a terminal."@,
            Seq::empty(),
            Seq::empty(),
        ),
    ]
}

fn tool_arg(name: &str, kind: ArgKind, description: Option<&str>) -> (a: ToolArg)
    ensures
        arg_view(a) == (name@, kind, match description {
            Some(d) => Some(d@),
            None => None::<Seq<char>>,
        }),
{
    let d = match description {
        Some(d) => Some(String::from_str(d)),
        None => None,
    };
    ToolArg { name: String::from_str(name), kind, description: d }
}

fn tool_spec(name: &str, description: &str, args: Vec<ToolArg>, required: Vec<String>) -> (t:
    ToolSpec)
    ensures
        tool_spec_view(t) == (
            name@,
            description@,
            args@.map_values(|a: ToolArg| arg_view(a)),
            strings_view(required@),
        ),
{
    ToolSpec { name: String::from_str(name), description: String::from_str(description), args, required }
}

fn no_args(name: &str, description: &str) -> (t: ToolSpec)
    ensures
        tool_spec_view(t) == (
            name@,
            description@,
            Seq::<(Seq<char>, ArgKind, Option<Seq<char>>)>::empty(),
            Seq::<Seq<char>>::empty(),
        ),
{
    let args: Vec<ToolArg> = Vec::new();
    let required: Vec<String> = Vec::new();
    let t = tool_spec(name, description, args, required);
    proof {
        assert(args@.map_values(|a: ToolArg| arg_view(a)) =~= Seq::empty());
        assert(strings_view(required@) =~= Seq::empty());
    }
    t
}

fn port_only(name: &str, description: &str) -> (t: ToolSpec)
    ensures
        tool_spec_view(t) == (name@, description@, port_args(), seq!["port"@]),
{
    let mut args: Vec<ToolArg> = Vec::new();
    args.push(tool_arg("port", ArgKind::Int, None));
    let mut required: Vec<String> = Vec::new();
    required.push(String::from_str("port"));
    let t = tool_spec(name, description, args, required);
    proof {
        assert(args@.map_values(|a: ToolArg| arg_view(a)) =~= port_args());
        assert(strings_view(required@) =~= seq!["port"@]);
    }
    t
}

/// The tools the server offers, as `tools/list` describes them.
pub fn tool_catalogue() -> (v: Vec<ToolSpec>)
    ensures
        v@.map_values(|t: ToolSpec| tool_spec_view(t)) == tool_catalogue_spec(),
{
    let mut v: Vec<ToolSpec> = Vec::new();
    v.push(
        no_args(
            "status",
            "Show orbit link, connection state, forwarded ports, and remote CPU/RAM/image counts.",
        ),
    );
    v.push(
        no_args(
            "up",
            "Delegate Docker to the linked host and start forwarding published ports. Detached.",
        ),
    );
    v.push(
        no_args(
            "down",
            "Stop forwarding, close the SSH connection, and restore the previous docker context.",
        ),
    );
    v.push(
        no_args(
            "doctor",
            "Diagnose SSH, the remote docker daemon, the forwarded socket, and the docker context.",
        ),
    );
    v.push(
        no_args("list_forwards", "List the ports currently forwarded from the host to localhost."),
    );
    let mut link: Vec<ToolArg> = Vec::new();
    link.push(tool_arg("target", ArgKind::Str, Some("user@host or just host")));
    link.push(tool_arg("port", ArgKind::Int, Some("SSH port (default 22)")));
    let mut link_required: Vec<String> = Vec::new();
    link_required.push(String::from_str("target"));
    proof {
        assert(link@.map_values(|a: ToolArg| arg_view(a)) =~= link_args());
        assert(strings_view(link_required@) =~= seq!["target"@]);
    }
    v.push(
        tool_spec(
            "link",
            "Link this machine to a host. The SSH key must already be authorized (else tell the user to run `orbit setup`).",
            link,
            link_required,
        ),
    );
    v.push(port_only("add_forward", "Forward an extra TCP port from the host to localhost."));
    v.push(port_only("remove_forward", "Stop forwarding a previously added TCP port."));
    v.push(
        no_args(
            "setup_hint",
            "How to run first-time interactive setup. Returns the exact command for the user to run in a terminal.",
        ),
    );
    proof {
        assert(v@.map_values(|t: ToolSpec| tool_spec_view(t)) =~= tool_catalogue_spec());
    }
    v
}

/// `Some(v)` when `key` is among the required arguments `req`.
pub open spec fn if_required<T>(req: Seq<Seq<char>>, key: Seq<char>, v: T) -> Option<T> {
    if req.contains(key) {
        Some(v)
    } else {
        None
    }
}

/// The catalogue lists the tools the server handles, in the same order; each
/// required argument is one of the tool's arguments; and the required
/// arguments are exactly what a call needs: called with none, a tool fails
/// just when it requires some, and a call that gives the required ones never
/// fails.
pub proof fn lemma_catalogue_matches_calls(i: int, target: Seq<char>, port: u64)
    requires
        0 <= i < tool_catalogue_spec().len(),
    ensures
        tool_catalogue_spec().len() == tool_names_spec().len(),
        tool_catalogue_spec()[i].0 == tool_names_spec()[i],
        forall|k: int|
            0 <= k < tool_catalogue_spec()[i].3.len() ==> exists|j: int|
                0 <= j < tool_catalogue_spec()[i].2.len() && tool_catalogue_spec()[i].2[j].0
                    == #[trigger] tool_catalogue_spec()[i].3[k],
        (tool_plan(tool_catalogue_spec()[i].0, None, None) is Fail) <==> tool_catalogue_spec()[i].3.len()
            > 0,
        !(tool_plan(
            tool_catalogue_spec()[i].0,
            if_required(tool_catalogue_spec()[i].3, "target"@, target),
            if_required(tool_catalogue_spec()[i].3, "port"@, port),
        ) is Fail),
{
    reveal_strlit("status");
    reveal_strlit("up");
    reveal_strlit("down");
    reveal_strlit("doctor");
    reveal_strlit("list_forwards");
    reveal_strlit("link");
    reveal_strlit("add_forward");
    reveal_strlit("remove_forward");
    reveal_strlit("setup_hint");
    reveal_strlit("target");
    reveal_strlit("port");
    let e = tool_catalogue_spec()[i];
    let req = e.3;
    if i == 5 {
        assert(req[0] == "target"@);
        assert(!req.contains("port"@)) by {
            if req.contains("port"@) {
                let k = choose|k: int| 0 <= k < req.len() && req[k] == "port"@;
                assert(req[k].len() != "port"@.len());
            }
        }
        assert(e.2[0].0 == "target"@);
        assert(e.0 == "link"@);
        assert("link"@[0] != "down"@[0]);
        assert(tool_plan(e.0, None, None) == ToolPlan::Fail("link requires a 'target'"@));
    } else if i == 6 || i == 7 {
        assert(req[0] == "port"@);
        assert(!req.contains("target"@)) by {
            if req.contains("target"@) {
                let k = choose|k: int| 0 <= k < req.len() && req[k] == "target"@;
                assert(req[k].len() != "target"@.len());
            }
        }
        assert(e.2[0].0 == "port"@);
        if i == 6 {
            assert(e.0 == "add_forward"@);
            assert(tool_plan(e.0, None, None) == ToolPlan::Fail("add_forward requires a 'port'"@));
        } else {
            assert(e.0 == "remove_forward"@);
            assert(tool_plan(e.0, None, None) == ToolPlan::Fail(
                "remove_forward requires a 'port'"@,
            ));
        }
    } else {
        assert(req.len() == 0);
        assert(!req.contains("target"@));
        assert(!req.contains("port"@));
        if i == 8 {
            assert(e.0 == "setup_hint"@);
            assert(tool_plan(e.0, None, None) == ToolPlan::Reply(setup_hint_text()));
        } else {
            assert(tool_plan(e.0, None, None) is Run);
        }
    }
}

/// What to do for a tool call: run orbit with arguments, or reply directly.
pub enum ToolCall {
    /// Run orbit with these arguments.
    Run(Vec<String>),
    /// Reply with this text.
    Reply(String),
}

/// The strings of `v`, each by its characters.
pub open spec fn strings_view(v: Seq<String>) -> Seq<Seq<char>> {
    v.map_values(|s: String| s@)
}

/// Whether the call's outcome is the plan.
pub open spec fn call_matches(r: Result<ToolCall, String>, plan: ToolPlan) -> bool {
    match (r, plan) {
        (Ok(ToolCall::Run(v)), ToolPlan::Run(args)) => strings_view(v@) == args,
        (Ok(ToolCall::Reply(t)), ToolPlan::Reply(text)) => t@ == text,
        (Err(e), ToolPlan::Fail(msg)) => e@ == msg,
        _ => false,
    }
}

fn str_is(a: &str, b: &str) -> (r: bool)
    ensures
        r == (a@ == b@),
{
    chars_eq(&chars_of(a), &chars_of(b))
}

fn lit(s: &str) -> (r: String)
    ensures
        r@ == s@,
{
    String::from_str(s)
}

/// Map a tool call to the orbit command line that carries it out.
pub fn call_tool(name: &str, target: Option<&str>, port: Option<u64>) -> (r: Result<ToolCall, String>)
    ensures
        call_matches(
            r,
            tool_plan(
                name@,
                match target {
                    Some(t) => Some(t@),
                    None => None,
                },
                port,
            ),
        ),
{
    let ghost tv = match target {
        Some(t) => Some(t@),
        None => None::<Seq<char>>,
    };
    let mut v: Vec<String> = Vec::new();
    if str_is(name, "status") {
        v.push(lit("status"));
    } else if str_is(name, "up") {
        v.push(lit("up"));
    } else if str_is(name, "down") {
        v.push(lit("down"));
    } else if str_is(name, "doctor") {
        v.push(lit("doctor"));
    } else if str_is(name, "list_forwards") {
        v.push(lit("ports"));
    } else if str_is(name, "link") {
        match target {
            None => {
                return Err(lit("link requires a 'target'"));
            },
            Some(t) => {
                v.push(lit("link"));
                v.push(lit(t));
                if let Some(p) = port {
                    v.push(lit("--port"));
                    v.push(u64_to_string(p));
                }
            },
        }
    } else if str_is(name, "add_forward") {
        match port {
            None => {
                return Err(lit("add_forward requires a 'port'"));
            },
            Some(p) => {
                v.push(lit("ports"));
                v.push(lit("add"));
                v.push(u64_to_string(p));
            },
        }
    } else if str_is(name, "remove_forward") {
        match port {
            None => {
                return Err(lit("remove_forward requires a 'port'"));
            },
            Some(p) => {
                v.push(lit("ports"));
                v.push(lit("rm"));
                v.push(u64_to_string(p));
            },
        }
    } else if str_is(name, "setup_hint") {
        return Ok(
            ToolCall::Reply(
                lit(
                    "Run `orbit setup` in a terminal. It's interactive: it discovers the host on your LAN, authorizes the SSH key (asking for the host password once if needed), links, and runs an end-to-end self-test.",
                ),
            ),
        );
    } else {
        return Err(lit("unknown tool: ").concat(name));
    }
    proof {
        assert(strings_view(v@) =~= match tool_plan(name@, tv, port) {
            ToolPlan::Run(args) => args,
            _ => Seq::empty(),
        });
    }
    Ok(ToolCall::Run(v))
}

/// How the server answers a JSON-RPC request, by its method.
pub enum Route {
    /// `initialize`: the server's capabilities and instructions.
    Initialize,
    /// `tools/list`: the tool catalogue.
    ListTools,
    /// `tools/call`: run a tool.
    CallTool,
    /// `ping`: an empty result.
    Ping,
    /// Anything else: error -32601, "method not found".
    MethodNotFound,
}

/// The JSON-RPC error code for an unknown method.
pub const METHOD_NOT_FOUND: i64 = -32601;

/// The route for a request whose method is `method` (empty when it has none).
pub fn route(method: &str) -> (r: Route)
    ensures
        method@ == "initialize"@ <==> r is Initialize,
        method@ == "tools/list"@ <==> r is ListTools,
        method@ == "tools/call"@ <==> r is CallTool,
        method@ == "ping"@ <==> r is Ping,
        r is MethodNotFound <==> (method@ != "initialize"@ && method@ != "tools/list"@ && method@
            != "tools/call"@ && method@ != "ping"@),
{
    proof {
        reveal_strlit("initialize");
        reveal_strlit("tools/list");
        reveal_strlit("tools/call");
        reveal_strlit("ping");
        assert("initialize"@[0] != "tools/list"@[0]);
        assert("initialize"@[0] != "tools/call"@[0]);
        assert("tools/list"@[6] != "tools/call"@[6]);
        assert("initialize"@.len() != "ping"@.len());
        assert("tools/list"@.len() != "ping"@.len());
        assert("tools/call"@.len() != "ping"@.len());
    }
    if str_is(method, "initialize") {
        Route::Initialize
    } else if str_is(method, "tools/list") {
        Route::ListTools
    } else if str_is(method, "tools/call") {
        Route::CallTool
    } else if str_is(method, "ping") {
        Route::Ping
    } else {
        Route::MethodNotFound
    }
}

/// What the server tells the assistant about orbit when it initializes.
pub const INSTRUCTIONS: &'static str = "orbit delegates the user's local Docker to a beefier machine on their LAN over SSH, and forwards published container ports back to their localhost so it feels local.\n\nTypical flow:\n- `status` \u{2014} is orbit linked/up? what's forwarded? remote CPU/RAM?\n- `up` / `down` \u{2014} start/stop delegating Docker to the host.\n- `link` \u{2014} link to a host (needs the SSH key already authorized; otherwise tell the user to run `orbit setup` in a terminal \u{2014} it's interactive).\n- `add_forward` / `remove_forward` / `list_forwards` \u{2014} manage TCP port tunnels.\n- `doctor` \u{2014} diagnose SSH, the remote daemon, the forwarded socket and the docker context.\n\nFor first-time setup, host authorization, or anything interactive, tell the user to run `orbit setup` in their terminal \u{2014} do not try to proxy interactive prompts.";

/// The MCP protocol version the server speaks.
pub const PROTOCOL_VERSION: &'static str = "2024-11-05";

/// A JSON value. A number is kept as the text serde_json writes for it; an
/// object as its entries, in the order serde_json hands them out.
#[derive(Debug)]
pub enum Json {
    /// `null`.
    Null,
    /// `true` or `false`.
    Bool(bool),
    /// A number, by its text.
    Num(String),
    /// A string.
    Str(String),
    /// An array.
    Arr(Vec<Json>),
    /// An object: its keys with their values.
    Obj(Vec<(String, Json)>),
}

/// What serde_json's `from_str::<Value>` makes of `text`: `None` when the text
/// is not one JSON value, else that value taken one for one into `Json`.
pub uninterp spec fn json_parse(text: Seq<char>) -> Option<Json>;

#[verifier::external_type_specification]
#[verifier::external_body]
pub struct ExJsonValue(serde_json::Value);

/// serde_json's `from_str::<Value>` on `text`. Nothing is stated of which
/// value a given text holds: that is serde_json's JSON grammar, named
/// `json_parse` here.
#[verifier::external_body]
fn parse_json(text: &str) -> (r: Option<Json>)
    ensures
        r == json_parse(text@),
{
    serde_json::from_str::<serde_json::Value>(text).ok().map(json_of_value)
}

/// A serde_json `Value` taken one for one into `Json` (a number by serde_json's
/// `Display` of it).
#[verifier::external_body]
fn json_of_value(v: serde_json::Value) -> Json {
    match v {
        serde_json::Value::Null => Json::Null,
        serde_json::Value::Bool(b) => Json::Bool(b),
        serde_json::Value::Number(n) => Json::Num(n.to_string()),
        serde_json::Value::String(s) => Json::Str(s),
        serde_json::Value::Array(a) => Json::Arr(a.into_iter().map(json_of_value).collect()),
        serde_json::Value::Object(o) => Json::Obj(o.into_iter().map(|(k, x)| (k, json_of_value(x))).collect()),
    }
}

/// The value of the first entry of `es`, from index `i` on, whose key is `key`.
pub open spec fn entry_from(es: Seq<(String, Json)>, key: Seq<char>, i: int) -> Option<Json>
    decreases es.len() - i,
{
    if 0 <= i < es.len() {
        if es[i].0@ == key {
            Some(es[i].1)
        } else {
            entry_from(es, key, i + 1)
        }
    } else {
        None
    }
}

/// The member `key` of `v`, when `v` is an object that has it.
pub open spec fn json_get(v: Option<Json>, key: Seq<char>) -> Option<Json> {
    match v {
        Some(Json::Obj(es)) => entry_from(es@, key, 0),
        _ => None,
    }
}

/// The text of `v`, when it is a string.
pub open spec fn json_str(v: Option<Json>) -> Option<Seq<char>> {
    match v {
        Some(Json::Str(s)) => Some(s@),
        _ => None,
    }
}

/// The value of a number's text when it is an unsigned integer that fits in 64
/// bits: decimal digits only.
pub open spec fn num_u64(t: Seq<char>) -> Option<u64> {
    if t.len() > 0 && t[0] != '+' {
        parse_u64_spec(t)
    } else {
        None
    }
}

/// The value of `v`, when it is a number that is an unsigned 64-bit integer.
pub open spec fn json_u64(v: Option<Json>) -> Option<u64> {
    match v {
        Some(Json::Num(t)) => num_u64(t@),
        _ => None,
    }
}

/// The fields of a JSON-RPC message that the server reads: `id` (any JSON
/// value), `method` (a string), and `params.name`,
/// `params.arguments.target` (strings) and `params.arguments.port` (an unsigned
/// integer), each `None` when absent or of another type.
pub open spec fn request_fields(msg: Json) -> (
    Option<Json>,
    Option<Seq<char>>,
    Option<Seq<char>>,
    Option<Seq<char>>,
    Option<u64>,
) {
    let m = Some(msg);
    let params = json_get(m, "params"@);
    let args = json_get(params, "arguments"@);
    (
        json_get(m, "id"@),
        json_str(json_get(m, "method"@)),
        json_str(json_get(params, "name"@)),
        json_str(json_get(args, "target"@)),
        json_u64(json_get(args, "port"@)),
    )
}

/// The fields of a JSON-RPC message that the server reads.
pub struct RpcRequest {
    /// The request id; absent for a notification.
    pub id: Option<Json>,
    /// The method, when it is a string.
    pub method: Option<String>,
    /// `params.name`, when it is a string.
    pub tool: Option<String>,
    /// `params.arguments.target`, when it is a string.
    pub target: Option<String>,
    /// `params.arguments.port`, when it is an unsigned integer.
    pub port: Option<u64>,
}

/// The characters of an optional string.
pub open spec fn opt_string(o: Option<String>) -> Option<Seq<char>> {
    match o {
        Some(s) => Some(s@),
        None => None,
    }
}

/// The request's fields as plain values.
pub open spec fn request_view(q: RpcRequest) -> (
    Option<Json>,
    Option<Seq<char>>,
    Option<Seq<char>>,
    Option<Seq<char>>,
    Option<u64>,
) {
    (q.id, opt_string(q.method), opt_string(q.tool), opt_string(q.target), q.port)
}

/// The value behind an optional reference.
pub open spec fn deref_opt(o: Option<&Json>) -> Option<Json> {
    match o {
        Some(x) => Some(*x),
        None => None,
    }
}

/// The index of the first entry of `es` whose key is `key`.
fn entry_index(es: &Vec<(String, Json)>, key: &str) -> (r: Option<usize>)
    ensures
        match r {
            Some(i) => i < es@.len() && entry_from(es@, key@, 0) == Some(es@[i as int].1),
            None => entry_from(es@, key@, 0) is None,
        },
{
    let mut i: usize = 0;
    while i < es.len()
        invariant
            i <= es@.len(),
            entry_from(es@, key@, 0) == entry_from(es@, key@, i as int),
        decreases es@.len() - i,
    {
        if str_is(es[i].0.as_str(), key) {
            return Some(i);
        }
        i = i + 1;
    }
    None
}

/// The member `key` of `v`, when `v` is an object that has it.
fn member<'a>(v: Option<&'a Json>, key: &str) -> (r: Option<&'a Json>)
    ensures
        deref_opt(r) == json_get(deref_opt(v), key@),
{
    match v {
        Some(Json::Obj(es)) => match entry_index(es, key) {
            Some(i) => Some(&es[i].1),
            None => None,
        },
        _ => None,
    }
}

/// The text of `v`, when it is a string.
fn str_member(v: Option<&Json>) -> (r: Option<String>)
    ensures
        opt_string(r) == json_str(deref_opt(v)),
{
    match v {
        Some(Json::Str(s)) => Some(s.clone()),
        _ => None,
    }
}

/// The value of `v`, when it is a number that is an unsigned 64-bit integer.
fn u64_member(v: Option<&Json>) -> (r: Option<u64>)
    ensures
        r == json_u64(deref_opt(v)),
{
    match v {
        Some(Json::Num(t)) => {
            let c = chars_of(t.as_str());
            if c.len() > 0 && c[0] != '+' {
                parse_u64_chars(&c)
            } else {
                None
            }
        },
        _ => None,
    }
}

/// The member `key` of `v`, moved out, when `v` is an object that has it.
fn take_member(v: Json, key: &str) -> (r: Option<Json>)
    ensures
        r == json_get(Some(v), key@),
{
    match v {
        Json::Obj(es) => {
            let mut es = es;
            let ghost old_es = es@;
            match entry_index(&es, key) {
                Some(i) => {
                    let (_k, x) = es.remove(i);
                    assert(x == old_es[i as int].1);
                    Some(x)
                },
                None => None,
            }
        },
        _ => None,
    }
}

/// The fields of a JSON-RPC message that the server reads.
pub fn request_of(msg: Json) -> (q: RpcRequest)
    ensures
        request_view(q) == request_fields(msg),
{
    let method = str_member(member(Some(&msg), "method"));
    let params = member(Some(&msg), "params");
    let tool = str_member(member(params, "name"));
    let args = member(params, "arguments");
    let target = str_member(member(args, "target"));
    let port = u64_member(member(args, "port"));
    let ghost fields = request_fields(msg);
    let id = take_member(msg, "id");
    RpcRequest { id, method, tool, target, port }
}
/// The answer a request gets.
pub enum Reply {
    /// The `initialize` result.
    Initialize,
    /// The tool catalogue.
    ListTools,
    /// The outcome of mapping a tool call to its command.
    Tool(Result<ToolCall, String>),
    /// An empty result.
    Ping,
    /// Error -32601, "method not found".
    MethodNotFound,
}

/// What the server does with one line of input.
pub enum LineAction {
    /// Nothing: a blank line, text that is not JSON, or a notification (no id).
    Skip,
    /// Answer the request with this id.
    Answer(Json, Reply),
}

/// The method of a request, or the empty text when it has none.
pub open spec fn method_or_empty(m: Option<Seq<char>>) -> Seq<char> {
    match m {
        Some(x) => x,
        None => Seq::empty(),
    }
}

/// Whether `reply` is the answer for a request with `method` and the tool
/// fields `tool`, `target`, `port`.
pub open spec fn reply_matches(
    reply: Reply,
    method: Seq<char>,
    tool: Option<Seq<char>>,
    target: Option<Seq<char>>,
    port: Option<u64>,
) -> bool {
    if method == "initialize"@ {
        reply is Initialize
    } else if method == "tools/list"@ {
        reply is ListTools
    } else if method == "tools/call"@ {
        reply matches Reply::Tool(r) && call_matches(
            r,
            tool_plan(method_or_empty(tool), target, port),
        )
    } else if method == "ping"@ {
        reply is Ping
    } else {
        reply is MethodNotFound
    }
}

/// How a parsed request is answered: not at all without an id (a
/// notification); otherwise by its method, running the named tool for
/// `tools/call`.
pub fn respond(q: RpcRequest) -> (a: LineAction)
    ensures
        answers_request(a, request_view(q)),
{
    let id = match q.id {
        None => {
            return LineAction::Skip;
        },
        Some(id) => id,
    };
    let method = match &q.method {
        Some(m) => m.clone(),
        None => String::new(),
    };
    let reply = match route(method.as_str()) {
        Route::Initialize => Reply::Initialize,
        Route::ListTools => Reply::ListTools,
        Route::CallTool => {
            let name = match &q.tool {
                Some(n) => n.clone(),
                None => String::new(),
            };
            let target: Option<&str> = match &q.target {
                Some(x) => Some(x.as_str()),
                None => None,
            };
            let r = call_tool(name.as_str(), target, q.port);
            Reply::Tool(r)
        },
        Route::Ping => Reply::Ping,
        Route::MethodNotFound => Reply::MethodNotFound,
    };
    LineAction::Answer(id, reply)
}

/// Whether `a` answers a request with these fields: not at all without an
/// id, else with that id and the reply its method calls for.
pub open spec fn answers_request(
    a: LineAction,
    fields: (Option<Json>, Option<Seq<char>>, Option<Seq<char>>, Option<Seq<char>>, Option<u64>),
) -> bool {
    match fields {
        (id, method, tool, target, port) => match id {
            None => a is Skip,
            Some(idj) => a matches LineAction::Answer(i, reply) && i == idj && reply_matches(
                reply,
                method_or_empty(method),
                tool,
                target,
                port,
            ),
        },
    }
}

/// The request fields a line of input holds: none for a blank line or text
/// that is not JSON.
pub open spec fn line_fields(line: Seq<char>) -> Option<
    (Option<Json>, Option<Seq<char>>, Option<Seq<char>>, Option<Seq<char>>, Option<u64>),
> {
    if trim(line).len() == 0 {
        None
    } else {
        match json_parse(trim(line)) {
            None => None,
            Some(msg) => Some(request_fields(msg)),
        }
    }
}

/// Whether `a` is what the server does with the line `line`.
pub open spec fn answers_line(a: LineAction, line: Seq<char>) -> bool {
    match line_fields(line) {
        None => a is Skip,
        Some(f) => answers_request(a, f),
    }
}

/// The id of the request a line holds, when it holds one that is answered.
pub open spec fn line_id(line: Seq<char>) -> Option<Json> {
    match line_fields(line) {
        Some(f) => f.0,
        None => None,
    }
}

/// Handle one line of input: skip blank lines, text that is not JSON and
/// notifications; otherwise answer by the request's method.
pub fn handle_line(line: &str) -> (a: LineAction)
    ensures
        answers_line(a, line@),
{
    let t = crate::text::trim_str(line);
    if t.as_str().unicode_len() == 0 {
        return LineAction::Skip;
    }
    match parse_json(t.as_str()) {
        None => LineAction::Skip,
        Some(msg) => respond(request_of(msg)),
    }
}

/// The ids the server answers, in order, for the input lines `lines`: one for
/// each line that holds a request with an id, none for any other line.
pub open spec fn answered_ids(lines: Seq<Seq<char>>) -> Seq<Json>
    decreases lines.len(),
{
    if lines.len() == 0 {
        Seq::empty()
    } else {
        answered_ids(lines.drop_last()) + match line_id(lines.last()) {
            Some(id) => seq![id],
            None => Seq::empty(),
        }
    }
}

/// The id an action answers, if any.
pub open spec fn answer_id(a: LineAction) -> Seq<Json> {
    match a {
        LineAction::Answer(id, _) => seq![id],
        LineAction::Skip => Seq::empty(),
    }
}

/// The server over its input stream: the lines read so far and the ids
/// answered so far.
pub struct Session {
    lines: Ghost<Seq<Seq<char>>>,
    answered: Ghost<Seq<Json>>,
}

impl Session {
    /// The lines read so far, in order.
    pub closed spec fn lines(self) -> Seq<Seq<char>> {
        self.lines@
    }

    /// The ids answered so far, in order.
    pub closed spec fn answered(self) -> Seq<Json> {
        self.answered@
    }

    /// What has been answered is what the lines read call for.
    #[verifier::type_invariant]
    closed spec fn answered_matches_lines(self) -> bool {
        self.answered@ == answered_ids(self.lines@)
    }

    /// A session that has read nothing.
    pub fn new() -> (s: Self)
        ensures
            s.lines() == Seq::<Seq<char>>::empty(),
            s.answered() == Seq::<Json>::empty(),
    {
        Session { lines: Ghost(Seq::empty()), answered: Ghost(Seq::empty()) }
    }

    /// Read one more line: handle it, and answer at most once, with the id of
    /// the request it holds. Over the whole input, the answers are exactly the
    /// ids of the requests, in input order.
    pub fn feed(&mut self, line: &str) -> (a: LineAction)
        ensures
            answers_line(a, line@),
            final(self).lines() == old(self).lines().push(line@),
            final(self).answered() == answered_ids(final(self).lines()),
            final(self).answered() == old(self).answered() + answer_id(a),
    {
        proof {
            use_type_invariant(&*self);
        }
        let a = handle_line(line);
        let ghost lines = self.lines@.push(line@);
        let ghost answered = self.answered@ + answer_id(a);
        proof {
            assert(lines.drop_last() =~= self.lines@);
            assert(answered == answered_ids(lines));
        }
        *self = Session { lines: Ghost(lines), answered: Ghost(answered) };
        a
    }
}

/// The answers to a stream read in two parts are the answers to the first
/// part followed by those to the second.
pub proof fn lemma_answers_follow_input(first: Seq<Seq<char>>, rest: Seq<Seq<char>>)
    ensures
        answered_ids(first + rest) == answered_ids(first) + answered_ids(rest),
    decreases rest.len(),
{
    if rest.len() == 0 {
        assert(first + rest == first);
    } else {
        lemma_answers_follow_input(first, rest.drop_last());
        assert((first + rest).drop_last() == first + rest.drop_last());
        assert((first + rest).last() == rest.last());
    }
}

} // verus!
