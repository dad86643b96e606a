use orbit::config::{
    config_dir, config_path, control_socket, default_context, default_ssh_port, join_path, keys_dir,
    local_docker_socket, pid_file, require_linked, run_dir, ssh_key_path, Config, ConfigError,
    DEFAULT_CONTEXT,
};
use orbit::host::HostKind;

fn cfg() -> Config {
    Config {
        host_user: "dany".to_string(),
        host_addr: "192.168.1.42".to_string(),
        ssh_port: 22,
        adapter: HostKind::Unix,
        remote_socket: "/var/run/docker.sock".to_string(),
        context_name: "orbit".to_string(),
        previous_context: None,
    }
}

#[test]
fn target_and_endpoint() {
    let c = cfg();
    assert_eq!(c.ssh_target(), "dany@192.168.1.42");
    assert_eq!(c.docker_endpoint(Some("/home/dany/.orbit/run/docker.sock")), "unix:///home/dany/.orbit/run/docker.sock");
    assert_eq!(c.docker_endpoint(None), "unix://<unavailable>");
}

#[test]
fn defaults() {
    assert_eq!(default_ssh_port(), 22);
    assert_eq!(default_context(), "orbit");
    assert_eq!(DEFAULT_CONTEXT, "orbit");
}

#[test]
fn paths_under_home() {
    let h = Some("/home/dany");
    assert_eq!(config_dir(h).ok().unwrap(), "/home/dany/.orbit");
    assert_eq!(config_path(h).ok().unwrap(), "/home/dany/.orbit/config.toml");
    assert_eq!(run_dir(h).ok().unwrap(), "/home/dany/.orbit/run");
    assert_eq!(control_socket(h).ok().unwrap(), "/home/dany/.orbit/run/control.sock");
    assert_eq!(local_docker_socket(h).ok().unwrap(), "/home/dany/.orbit/run/docker.sock");
    assert_eq!(pid_file(h).ok().unwrap(), "/home/dany/.orbit/run/orbit.pid");
    assert_eq!(keys_dir(h).ok().unwrap(), "/home/dany/.orbit/keys");
    assert_eq!(ssh_key_path(h).ok().unwrap(), "/home/dany/.orbit/keys/id_orbit_ed25519");
}

#[test]
fn paths_join_like_pathbuf() {
    assert_eq!(join_path("/", ".orbit"), "/.orbit");
    assert_eq!(join_path("/home/x/", ".orbit"), "/home/x/.orbit");
    assert_eq!(join_path("", ".orbit"), ".orbit");
    for base in ["/", "/home/x/", "", "rel/dir", "/a"] {
        let expected = std::path::Path::new(base).join(".orbit");
        assert_eq!(join_path(base, ".orbit"), expected.to_string_lossy());
    }
}

#[test]
fn paths_without_home() {
    assert!(matches!(config_dir(None), Err(ConfigError::NoHome)));
    assert!(matches!(pid_file(None), Err(ConfigError::NoHome)));
    assert_eq!(ConfigError::NoHome.message(), "cannot determine home directory");
}

#[test]
fn require_linked_cases() {
    let c = require_linked(Some(cfg())).ok().unwrap();
    assert_eq!(c.host_addr, "192.168.1.42");
    match require_linked(None) {
        Err(e) => assert_eq!(
            e.message(),
            "not linked to a host yet \u{2014} run `orbit link <user@host>` first"
        ),
        Ok(_) => panic!("expected not linked"),
    }
}
