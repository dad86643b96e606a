use orbit::cli::default_log_filter;
use orbit::commands::doctor::{
    connection_check, count_problems, docker_cli_check, finding_lines, linked_check,
    remote_socket_check, routing_check, specs_line, ssh_check, verdict, Finding, ForwardedSocket,
};
use orbit::commands::host_init::{host_user, join_command, lan_address};
use orbit::commands::link::{
    adapter_for_os, context_description, copy_id_args, detect_socket_probe, detected_socket,
    needs_local_user, parse_target, probe_says_yes, provisional_config, public_key_path, socket_probe,
};
use orbit::commands::setup::{
    after_manual_instructions, classify_choice, host_menu, host_source, manual_key_command,
    publish_arg, self_test_outcome, self_test_port, self_test_step, self_test_url, ssh_user, try_copy_id,
    HostChoice, SelfTestStep, SELF_TEST_ATTEMPTS, SELF_TEST_WAIT_MS,
};
use orbit::commands::status::{context_line, containers_summary, no_ports_line, pid_to_check, port_line, state};
use orbit::docker_ctx::{create_or_update, use_context};
use orbit::host::HostKind;
use orbit::metrics::RemoteMetrics;
use orbit::util::{
    funding_line, header_line, info_line, join_with_spaces, ok_line, run_result, step_line, warn_line,
};

#[test]
fn log_filters() {
    assert_eq!(default_log_filter(0), "orbit=warn");
    assert_eq!(default_log_filter(1), "orbit=info");
    assert_eq!(default_log_filter(2), "orbit=debug");
    assert_eq!(default_log_filter(3), "orbit=trace");
    assert_eq!(default_log_filter(255), "orbit=trace");
}

#[test]
fn local_user_needed_only_without_at() {
    assert!(needs_local_user("gamer"));
    assert!(needs_local_user("192.168.1.20"));
    assert!(!needs_local_user("dany@gamer"));
    assert!(!needs_local_user("@gamer"));
}

#[test]
fn host_comes_from_argument_or_menu() {
    assert_eq!(host_source(Some("gamer".to_string()), true), Ok(Some("gamer".to_string())));
    assert_eq!(host_source(Some("gamer".to_string()), false), Ok(Some("gamer".to_string())));
    assert_eq!(host_source(None, false), Ok(None));
    assert_eq!(
        host_source(None, true),
        Err("--yes needs --host <addr> (nothing to pick non-interactively)".to_string())
    );
}

#[test]
fn yes_skips_interactive_key_copy() {
    assert!(try_copy_id(false));
    assert!(!try_copy_id(true));
    assert_eq!(after_manual_instructions(false), Ok(()));
    assert_eq!(
        after_manual_instructions(true),
        Err("key not authorized and --yes was set; authorize it and re-run".to_string())
    );
}

#[test]
fn docker_context_commands() {
    assert_eq!(
        create_or_update("orbit", "unix:///x.sock", "orbit \u{2192} a@b", true),
        vec!["context", "update", "orbit", "--docker", "host=unix:///x.sock"]
    );
    assert_eq!(
        create_or_update("orbit", "unix:///x.sock", "desc", false),
        vec!["context", "create", "orbit", "--description", "desc", "--docker", "host=unix:///x.sock"]
    );
    assert_eq!(use_context("orbit"), vec!["context", "use", "orbit"]);
}

#[test]
fn command_outcomes() {
    assert_eq!(run_result("docker", &vec!["context", "show"], true, Some(0), " orbit\n", ""), Ok("orbit".to_string()));
    assert_eq!(
        run_result("docker", &vec!["context", "use", "x"], false, Some(1), "", "  no such context\n"),
        Err("`docker context use x` failed (exit 1):\nno such context".to_string())
    );
    assert_eq!(
        run_result("whoami", &vec![], false, None, "", ""),
        Err("`whoami ` failed (exit -1):\n".to_string())
    );
    assert_eq!(join_with_spaces(&vec!["a", "b", "c"]), "a b c");
}

#[test]
fn terminal_lines() {
    assert_eq!(step_line("go"), "\u{1b}[1m\u{1b}[36m\u{25b8}\u{1b}[39m\u{1b}[0m go");
    assert_eq!(ok_line("done"), "\u{1b}[1m\u{1b}[32m\u{2713}\u{1b}[39m\u{1b}[0m done");
    assert_eq!(warn_line("hm"), "\u{1b}[1m\u{1b}[33m!\u{1b}[39m\u{1b}[0m \u{1b}[33mhm\u{1b}[39m");
    assert_eq!(info_line("host", "a@b"), "  \u{1b}[2mhost:         \u{1b}[0m a@b");
    assert_eq!(info_line("a very long label", "v"), "  \u{1b}[2ma very long label:\u{1b}[0m v");
    assert_eq!(header_line("orbit"), "\n\u{1b}[4m\u{1b}[1morbit\u{1b}[0m\u{1b}[0m");
    assert!(funding_line().contains("https://slothlabs.org/pricing"));
}

#[test]
fn status_lines() {
    assert_eq!(state(true), "\u{1b}[32mrunning\u{1b}[39m");
    assert_eq!(state(false), "\u{1b}[31mstopped\u{1b}[39m");
    assert_eq!(context_line("orbit", "orbit"), "orbit \u{1b}[32m(active \u{2014} docker \u{2192} host)\u{1b}[39m");
    assert_eq!(context_line("desktop-linux", "orbit"), "desktop-linux \u{1b}[2m(local engine)\u{1b}[0m");
    assert_eq!(pid_to_check(" 4242\n").as_deref(), Some("4242"));
    assert_eq!(pid_to_check("  \n"), None);
    assert_eq!(port_line(8080), "  localhost:8080 \u{1b}[2m\u{2192}\u{1b}[0m host:8080");
    assert!(no_ports_line().contains("none \u{2014} start a container with -p to see it here"));
    assert_eq!(containers_summary(2, 5), "2 running / 5 total");
}

#[test]
fn link_decisions() {
    assert_eq!(parse_target("dany@192.168.1.42", "me"), ("dany".to_string(), "192.168.1.42".to_string()));
    assert_eq!(parse_target("gamer.local", "me"), ("me".to_string(), "gamer.local".to_string()));
    assert_eq!(parse_target("a@b@c", "me"), ("a".to_string(), "b@c".to_string()));
    assert_eq!(adapter_for_os("Darwin\n"), HostKind::Unix);
    assert_eq!(adapter_for_os("Linux"), HostKind::Unix);
    assert_eq!(adapter_for_os("MINGW64_NT-10.0"), HostKind::WindowsWsl);
    assert_eq!(adapter_for_os("unknown"), HostKind::WindowsWsl);
    assert_eq!(socket_probe("/run/docker.sock"), "test -S /run/docker.sock && echo yes");
    assert!(probe_says_yes(Some(" yes\n")));
    assert!(!probe_says_yes(Some("no")));
    assert!(!probe_says_yes(None));
    assert_eq!(detected_socket(Some(" /run/docker.sock\n")).as_deref(), Some("/run/docker.sock"));
    assert_eq!(detected_socket(Some("  ")), None);
    assert_eq!(detected_socket(None), None);
    assert!(detect_socket_probe().starts_with("for s in /var/run/docker.sock /run/docker.sock"));
    assert_eq!(context_description("a@b"), "orbit \u{2192} a@b");
    assert_eq!(public_key_path("/h/.orbit/keys/id_orbit_ed25519"), "/h/.orbit/keys/id_orbit_ed25519.pub");
    assert_eq!(copy_id_args("/k.pub", 2222, "a@b"), vec!["-i", "/k.pub", "-p", "2222", "a@b"]);
    let c = provisional_config("dany", "gamer", 2222, None);
    assert_eq!(c.ssh_target(), "dany@gamer");
    assert_eq!(c.ssh_port, 2222);
    assert_eq!(c.remote_socket, "/var/run/docker.sock");
    assert_eq!(c.context_name, "orbit");
    assert!(c.previous_context.is_none());
    assert_eq!(provisional_config("d", "g", 22, Some("/s.sock")).remote_socket, "/s.sock");
}

#[test]
fn doctor_findings() {
    let lines = finding_lines(&docker_cli_check(Some(" 27.0.3\n")));
    assert_eq!(lines, vec!["  \u{1b}[1m\u{1b}[32m[\u{2713}]\u{1b}[39m\u{1b}[0m Docker CLI (27.0.3)"]);
    let fail = finding_lines(&docker_cli_check(None));
    assert_eq!(fail.len(), 2);
    assert_eq!(fail[0], "  \u{1b}[1m\u{1b}[31m[\u{2717}]\u{1b}[39m\u{1b}[0m \u{1b}[31mDocker CLI not found\u{1b}[39m");
    assert_eq!(fail[1], "      \u{1b}[2m\u{2192}\u{1b}[0m install Docker / OrbStack / Rancher Desktop");
    let findings = vec![
        linked_check(Some("a@b")),
        ssh_check(false),
        remote_socket_check(true, "/run/docker.sock"),
        connection_check(false, ForwardedSocket::PathUnavailable).unwrap(),
        routing_check("desktop-linux", "orbit"),
    ];
    assert_eq!(count_problems(&findings), 1);
    assert!(connection_check(true, ForwardedSocket::PathUnavailable).is_none());
    assert!(matches!(connection_check(true, ForwardedSocket::Missing), Some(Finding::Fail(_, _))));
    assert!(matches!(connection_check(true, ForwardedSocket::NotResponding), Some(Finding::Fail(_, _))));
    assert!(matches!(connection_check(true, ForwardedSocket::Responding), Some(Finding::Pass(_))));
    assert!(matches!(linked_check(None), Finding::Fail(_, _)));
    assert!(matches!(routing_check("orbit", "orbit"), Finding::Pass(_)));
}

#[test]
fn doctor_verdicts() {
    assert_eq!(
        verdict(0, Some("a@b")),
        "\u{1b}[1m\u{1b}[32m\u{2022}\u{1b}[39m\u{1b}[0m \u{1b}[1m\u{1b}[32mNo issues found! orbit is ready\u{1b}[39m\u{1b}[0m \u{2014} Docker runs on a@b"
    );
    assert_eq!(
        verdict(2, None),
        "\u{1b}[1m\u{1b}[33m\u{2022}\u{1b}[39m\u{1b}[0m \u{1b}[33m2 issue(s) found \u{2014} see the fixes above\u{1b}[39m"
    );
    let m = RemoteMetrics {
        version: "27".to_string(),
        ncpu: 8,
        mem_total: 0,
        images: 1,
        containers: 1,
        running: 0,
        offloaded_mem: 0,
    };
    assert_eq!(
        specs_line(&m),
        "  \u{1b}[36m\u{25c7}\u{1b}[39m host has 8 cores \u{b7} ? \u{b7} 1 images \u{b7} 0 running"
    );
}

#[test]
fn host_init_choices() {
    assert_eq!(lan_address(Some("192.168.1.5"), None, None, None), "192.168.1.5");
    assert_eq!(lan_address(Some(""), Some("10.0.0.3"), None, None), "10.0.0.3");
    assert_eq!(lan_address(None, None, Some("10.1.1.1 172.17.0.1"), Some("box")), "10.1.1.1");
    assert_eq!(lan_address(None, None, Some("   "), Some("box")), "box");
    assert_eq!(lan_address(None, None, None, None), "<this-host>");
    assert_eq!(host_user(Some("dany")), "dany");
    assert_eq!(host_user(None), "<user>");
    assert_eq!(join_command("dany", "10.0.0.3"), "orbit link dany@10.0.0.3");
}

#[test]
fn setup_choices() {
    assert!(host_menu(&vec![]).is_none());
    let menu = host_menu(&vec!["10.0.0.2".to_string()]).unwrap();
    assert_eq!(menu, vec!["10.0.0.2", "\u{270e} Enter an address manually", "\u{21bb} Rescan"]);
    assert!(matches!(classify_choice(menu[1].clone()), HostChoice::Manual));
    assert!(matches!(classify_choice(menu[2].clone()), HostChoice::Rescan));
    assert!(matches!(classify_choice(menu[0].clone()), HostChoice::Address(a) if a == "10.0.0.2"));
    assert_eq!(ssh_user(Some("x".to_string()), true, "me").as_deref(), Some("x"));
    assert_eq!(ssh_user(None, true, "me").as_deref(), Some("me"));
    assert_eq!(ssh_user(None, false, "me"), None);
    assert_eq!(
        manual_key_command(" ssh-ed25519 AAAA orbit\n"),
        "mkdir -p ~/.ssh && chmod 700 ~/.ssh && echo 'ssh-ed25519 AAAA orbit' >> ~/.ssh/authorized_keys && chmod 600 ~/.ssh/authorized_keys"
    );
    assert_eq!(self_test_port(None), 8080);
    assert_eq!(self_test_port(Some(51234)), 51234);
    assert_eq!(publish_arg(8080), "8080:80");
    assert_eq!(self_test_url(8081), "http://localhost:8081");
}

#[test]
fn linked_target_round_trips() {
    for target in ["dany@192.168.1.42", "a@b@c", "@host", "user@"] {
        let (user, host) = parse_target(target, "me");
        let cfg = provisional_config(&user, &host, 22, None);
        assert_eq!(cfg.ssh_target(), target);
    }
}

#[test]
fn self_test_waits_then_decides() {
    assert_eq!(SELF_TEST_ATTEMPTS, 15);
    assert_eq!(SELF_TEST_WAIT_MS, 700);
    assert_eq!(self_test_step(0, false), SelfTestStep::Wait(700));
    assert_eq!(self_test_step(14, false), SelfTestStep::Wait(700));
    assert_eq!(self_test_step(15, false), SelfTestStep::Fail);
    assert_eq!(self_test_step(3, true), SelfTestStep::Pass);
    assert_eq!(self_test_step(15, true), SelfTestStep::Pass);
    // A host that never answers is asked exactly fifteen times.
    let mut attempts = 0;
    while let SelfTestStep::Wait(_) = self_test_step(attempts, false) {
        attempts += 1;
    }
    assert_eq!(attempts, 15);
    assert_eq!(
        self_test_outcome(true, 8080),
        Ok("self-test passed \u{2014} a container on the host answered on localhost:8080".to_string())
    );
    assert_eq!(
        self_test_outcome(false, 49152),
        Err("the test container didn't answer on localhost:49152".to_string())
    );
}
