use orbit::host::unix::{candidates, detect};
use orbit::host::windows_wsl;
use orbit::host::{detect_local, DetectError, HostKind};

#[test]
fn host_kind_names_and_forwarding() {
    assert_eq!(HostKind::Unix.to_string(), "unix (macOS/Linux)");
    assert_eq!(HostKind::WindowsWsl.to_string(), "windows-wsl2");
    assert!(HostKind::Unix.supports_socket_forward());
    assert!(!HostKind::WindowsWsl.supports_socket_forward());
}

#[test]
fn unix_candidates() {
    assert_eq!(candidates(None), vec!["/var/run/docker.sock", "/run/docker.sock"]);
    assert_eq!(
        candidates(Some("/Users/dany")),
        vec![
            "/var/run/docker.sock",
            "/run/docker.sock",
            "/Users/dany/.docker/run/docker.sock",
            "/Users/dany/.orbstack/run/docker.sock",
            "/Users/dany/.colima/default/docker.sock",
        ]
    );
}

#[test]
fn unix_detect_first_present() {
    let info = detect(Some("/Users/dany"), &vec![false, false, false, true, true]).ok().unwrap();
    assert_eq!(info.kind, HostKind::Unix);
    assert_eq!(info.socket, "/Users/dany/.orbstack/run/docker.sock");
    let std = detect(None, &vec![true, true]).ok().unwrap();
    assert_eq!(std.socket, "/var/run/docker.sock");
}

#[test]
fn unix_detect_none() {
    match detect(None, &vec![false, false]) {
        Err(e) => assert!(e.message().starts_with("no docker socket found on this host.")),
        Ok(_) => panic!("expected no socket"),
    }
    assert!(matches!(DetectError::NoSocket, DetectError::NoSocket));
}

#[test]
fn wsl_only_on_windows() {
    assert!(windows_wsl::detect(false, false).is_none());
    assert!(windows_wsl::detect(false, true).is_none());
    assert!(windows_wsl::detect(true, false).is_none());
    let w = windows_wsl::detect(true, true).unwrap();
    assert_eq!(w.kind, HostKind::WindowsWsl);
    assert_eq!(w.socket, "/var/run/docker.sock");
}

#[test]
fn detect_local_prefers_wsl_on_windows() {
    let w = detect_local(true, true, None, &vec![true, true]).ok().unwrap();
    assert_eq!(w.kind, HostKind::WindowsWsl);
    let u = detect_local(false, true, None, &vec![false, true]).ok().unwrap();
    assert_eq!(u.socket, "/run/docker.sock");
}

#[test]
fn windows_without_wsl_falls_back_to_unix_probe() {
    let u = detect_local(true, false, None, &vec![false, true]).ok().unwrap();
    assert_ne!(u.kind, HostKind::WindowsWsl);
    assert_eq!(u.socket, "/run/docker.sock");
    assert!(detect_local(true, false, None, &vec![false, false]).is_err());
}
