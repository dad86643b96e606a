use orbit::mcp::{
    call_tool, combine_output, handle_line, request_of, respond, route, strip_ansi, tool_catalogue,
    tool_names, ArgKind, Json, LineAction, Reply, Route, RpcRequest, Session, ToolCall,
    METHOD_NOT_FOUND, PROTOCOL_VERSION,
};

fn num(j: &Json) -> String {
    match j {
        Json::Num(t) => t.clone(),
        other => panic!("expected a number, got {:?}", other),
    }
}

fn run_args(r: Result<ToolCall, String>) -> Vec<String> {
    match r {
        Ok(ToolCall::Run(v)) => v,
        _ => panic!("expected a command"),
    }
}

#[test]
fn strips_color_codes() {
    assert_eq!(strip_ansi("\u{1b}[32mrunning\u{1b}[39m"), "running");
    assert_eq!(strip_ansi("plain text"), "plain text");
    assert_eq!(strip_ansi("a\u{1b}[1;4mb\u{1b}[0mc"), "abc");
    assert_eq!(strip_ansi("cut \u{1b}[123"), "cut ");
    assert_eq!(strip_ansi(""), "");
}

#[test]
fn combines_stdout_and_stderr() {
    assert_eq!(combine_output("  out\n", "", true), Ok("out".to_string()));
    assert_eq!(combine_output("out", "err\n", true), Ok("out\nerr".to_string()));
    assert_eq!(combine_output("", "\u{1b}[31merr\u{1b}[39m", false), Err("err".to_string()));
    assert_eq!(combine_output("out", "   \n", false), Err("out".to_string()));
}

#[test]
fn tools_map_to_commands() {
    assert_eq!(run_args(call_tool("status", None, None)), vec!["status"]);
    assert_eq!(run_args(call_tool("up", None, None)), vec!["up"]);
    assert_eq!(run_args(call_tool("down", None, None)), vec!["down"]);
    assert_eq!(run_args(call_tool("doctor", None, None)), vec!["doctor"]);
    assert_eq!(run_args(call_tool("list_forwards", None, None)), vec!["ports"]);
    assert_eq!(
        run_args(call_tool("link", Some("dany@gamer"), Some(2222))),
        vec!["link", "dany@gamer", "--port", "2222"]
    );
    assert_eq!(run_args(call_tool("link", Some("gamer"), None)), vec!["link", "gamer"]);
    assert_eq!(run_args(call_tool("add_forward", None, Some(5432))), vec!["ports", "add", "5432"]);
    assert_eq!(run_args(call_tool("remove_forward", None, Some(0))), vec!["ports", "rm", "0"]);
}

#[test]
fn tool_errors() {
    assert!(matches!(call_tool("link", None, Some(22)), Err(e) if e == "link requires a 'target'"));
    assert!(matches!(call_tool("add_forward", None, None), Err(e) if e == "add_forward requires a 'port'"));
    assert!(matches!(call_tool("remove_forward", Some("x"), None), Err(e) if e == "remove_forward requires a 'port'"));
    assert!(matches!(call_tool("rm -rf", None, None), Err(e) if e == "unknown tool: rm -rf"));
    assert!(matches!(call_tool("", None, None), Err(e) if e == "unknown tool: "));
}

#[test]
fn setup_hint_replies_directly() {
    match call_tool("setup_hint", None, None) {
        Ok(ToolCall::Reply(t)) => assert!(t.starts_with("Run `orbit setup` in a terminal.")),
        _ => panic!("expected a reply"),
    }
}

#[test]
fn routes_methods() {
    assert!(matches!(route("initialize"), Route::Initialize));
    assert!(matches!(route("tools/list"), Route::ListTools));
    assert!(matches!(route("tools/call"), Route::CallTool));
    assert!(matches!(route("ping"), Route::Ping));
    assert!(matches!(route("resources/list"), Route::MethodNotFound));
    assert!(matches!(route(""), Route::MethodNotFound));
    assert_eq!(METHOD_NOT_FOUND, -32601);
    assert_eq!(PROTOCOL_VERSION, "2024-11-05");
}

#[test]
fn handles_lines() {
    assert!(matches!(handle_line("   "), LineAction::Skip));
    assert!(matches!(handle_line("not json"), LineAction::Skip));
    assert!(matches!(handle_line(r#"{"jsonrpc":"2.0","method":"notifications/initialized"}"#), LineAction::Skip));
    match handle_line(r#"{"jsonrpc":"2.0","id":7,"method":"ping"}"#) {
        LineAction::Answer(id, Reply::Ping) => assert_eq!(num(&id), "7"),
        _ => panic!("expected a ping answer"),
    }
    match handle_line(r#" {"id":"a","method":"initialize","params":{}} "#) {
        LineAction::Answer(Json::Str(id), Reply::Initialize) => assert_eq!(id, "a"),
        _ => panic!("expected initialize"),
    }
    match handle_line(r#"{"id":1,"method":"nope"}"#) {
        LineAction::Answer(_, Reply::MethodNotFound) => {}
        _ => panic!("expected method not found"),
    }
    match handle_line(r#"{"id":2,"method":"tools/call","params":{"name":"add_forward","arguments":{"port":8080}}}"#) {
        LineAction::Answer(id, Reply::Tool(Ok(ToolCall::Run(v)))) => {
            assert_eq!(num(&id), "2");
            assert_eq!(v, vec!["ports", "add", "8080"]);
        }
        _ => panic!("expected a tool command"),
    }
    match handle_line(r#"{"id":3,"method":"tools/call","params":{"name":"add_forward","arguments":{"port":-1}}}"#) {
        LineAction::Answer(_, Reply::Tool(Err(e))) => assert_eq!(e, "add_forward requires a 'port'"),
        _ => panic!("expected a tool error"),
    }
    match handle_line(r#"{"id":4,"method":"tools/list"}"#) {
        LineAction::Answer(_, Reply::ListTools) => {}
        _ => panic!("expected the tool list"),
    }
}

#[test]
fn responds_to_parsed_requests() {
    let notification = RpcRequest { id: None, method: Some("ping".to_string()), tool: None, target: None, port: None };
    assert!(matches!(respond(notification), LineAction::Skip));
    let call = RpcRequest {
        id: Some(Json::Num("9".to_string())),
        method: Some("tools/call".to_string()),
        tool: Some("link".to_string()),
        target: Some("dany@gamer".to_string()),
        port: None,
    };
    match respond(call) {
        LineAction::Answer(id, Reply::Tool(Ok(ToolCall::Run(v)))) => {
            assert_eq!(num(&id), "9");
            assert_eq!(v, vec!["link", "dany@gamer"]);
        }
        _ => panic!("expected a link command"),
    }
    let no_method = RpcRequest { id: Some(Json::Null), method: None, tool: None, target: None, port: None };
    assert!(matches!(respond(no_method), LineAction::Answer(_, Reply::MethodNotFound)));
}

#[test]
fn stripping_twice_is_stripping_once() {
    for s in ["\u{1b}[32mok\u{1b}[39m", "a\u{1b}\u{1b}[1mb", "plain", "\u{1b}"] {
        let once = strip_ansi(s);
        assert!(!once.contains('\u{1b}'));
        assert_eq!(strip_ansi(&once), once);
    }
}

#[test]
fn every_catalogue_tool_is_handled() {
    let names = tool_names();
    assert_eq!(
        names,
        vec![
            "status", "up", "down", "doctor", "list_forwards", "link", "add_forward",
            "remove_forward", "setup_hint"
        ]
    );
    for n in &names {
        assert!(call_tool(n, Some("dany@gamer"), Some(8080)).is_ok(), "tool {} failed", n);
    }
}

fn obj(entries: Vec<(&str, Json)>) -> Json {
    Json::Obj(entries.into_iter().map(|(k, v)| (k.to_string(), v)).collect())
}

fn text(s: &str) -> Json {
    Json::Str(s.to_string())
}

#[test]
fn reads_request_fields_by_path() {
    let msg = obj(vec![
        ("jsonrpc", text("2.0")),
        ("id", Json::Num("12".to_string())),
        ("method", text("tools/call")),
        (
            "params",
            obj(vec![
                ("name", text("link")),
                ("arguments", obj(vec![("target", text("dany@gamer")), ("port", Json::Num("2222".to_string()))])),
            ]),
        ),
    ]);
    let q = request_of(msg);
    assert_eq!(num(q.id.as_ref().unwrap()), "12");
    assert_eq!(q.method.as_deref(), Some("tools/call"));
    assert_eq!(q.tool.as_deref(), Some("link"));
    assert_eq!(q.target.as_deref(), Some("dany@gamer"));
    assert_eq!(q.port, Some(2222));

    // Wrong types and wrong places read as absent.
    let odd = obj(vec![
        ("method", Json::Num("3".to_string())),
        ("name", text("link")),
        ("params", obj(vec![("args", obj(vec![("port", Json::Num("1".to_string()))]))])),
    ]);
    let q = request_of(odd);
    assert!(q.id.is_none());
    assert!(q.method.is_none());
    assert!(q.tool.is_none());
    assert!(q.port.is_none());
    for bad in ["-1", "1.0", "18446744073709551616", "+5", ""] {
        let m = obj(vec![("params", obj(vec![("arguments", obj(vec![("port", Json::Num(bad.to_string()))]))]))]);
        assert!(request_of(m).port.is_none(), "port {} read", bad);
    }
    assert!(request_of(Json::Arr(vec![text("id")])).id.is_none());
}

#[test]
fn port_must_be_an_unsigned_integer_on_the_wire() {
    for (line, expect) in [
        (r#"{"id":1,"method":"tools/call","params":{"name":"add_forward","arguments":{"port":5.0}}}"#, false),
        (r#"{"id":1,"method":"tools/call","params":{"name":"add_forward","arguments":{"port":"80"}}}"#, false),
        (r#"{"id":1,"method":"tools/call","params":{"name":"add_forward","arguments":{"port":18446744073709551615}}}"#, true),
    ] {
        match handle_line(line) {
            LineAction::Answer(_, Reply::Tool(r)) => assert_eq!(r.is_ok(), expect, "{}", line),
            _ => panic!("expected a tool reply"),
        }
    }
}

#[test]
fn session_answers_each_request_once_in_order() {
    let mut s = Session::new();
    let input = [
        r#"{"jsonrpc":"2.0","id":1,"method":"initialize"}"#,
        r#"{"jsonrpc":"2.0","method":"notifications/initialized"}"#,
        "",
        "garbage",
        r#"{"jsonrpc":"2.0","id":"two","method":"tools/list"}"#,
        r#"{"jsonrpc":"2.0","id":null,"method":"ping"}"#,
    ];
    let mut ids = Vec::new();
    for line in input {
        if let LineAction::Answer(id, _) = s.feed(line) {
            ids.push(format!("{:?}", id));
        }
    }
    assert_eq!(ids, vec!["Num(\"1\")", "Str(\"two\")", "Null"]);
}

#[test]
fn catalogue_lists_each_tool_with_its_arguments() {
    let cat = tool_catalogue();
    let names: Vec<String> = cat.iter().map(|t| t.name.clone()).collect();
    assert_eq!(names, tool_names());
    for t in &cat {
        assert!(!t.description.is_empty());
        for r in &t.required {
            assert!(t.args.iter().any(|a| &a.name == r));
        }
        // Giving the required arguments is enough for the call.
        let target = if t.required.iter().any(|r| r == "target") { Some("dany@gamer") } else { None };
        let port = if t.required.iter().any(|r| r == "port") { Some(22) } else { None };
        assert!(call_tool(&t.name, target, port).is_ok(), "{}", t.name);
        // Without arguments, a call fails just when some are required.
        assert_eq!(call_tool(&t.name, None, None).is_err(), !t.required.is_empty(), "{}", t.name);
    }
    let link = &cat[5];
    assert_eq!(link.required, vec!["target"]);
    assert_eq!(link.args.len(), 2);
    assert_eq!(link.args[0].name, "target");
    assert_eq!(link.args[0].kind, ArgKind::Str);
    assert_eq!(link.args[0].description.as_deref(), Some("user@host or just host"));
    assert_eq!(link.args[1].kind, ArgKind::Int);
    assert_eq!(link.args[1].description.as_deref(), Some("SSH port (default 22)"));
    assert_eq!(cat[6].required, vec!["port"]);
    assert!(cat[6].args[0].description.is_none());
    assert_eq!(cat[0].description, "Show orbit link, connection state, forwarded ports, and remote CPU/RAM/image counts.");
    assert!(cat[8].args.is_empty() && cat[8].required.is_empty());
}
