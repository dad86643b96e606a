use orbit::commands::host_setup::{add_key, looks_like_key, KeyError, KeyUpdate};

const KEY: &str = "ssh-ed25519 AAAAC3NzaC1lZDI1NTE5AAAAIOrbitTestKey orbit";

fn appended(r: Result<KeyUpdate, KeyError>) -> String {
    match r {
        Ok(KeyUpdate::Append(t)) => t,
        Ok(KeyUpdate::AlreadyAuthorized) => panic!("expected an append"),
        Err(_) => panic!("expected a key"),
    }
}

#[test]
fn recognizes_public_keys() {
    assert!(looks_like_key(KEY));
    assert!(looks_like_key("ecdsa-sha2-nistp256 AAAAE2VjZHNhLXNoYTItbmlzdHAyNTY"));
    assert!(looks_like_key("sk-ssh-ed25519@openssh.com AAAAGnNrLXNzaC1lZDI1NTE5"));
    assert!(looks_like_key("   ssh-rsa\t123456789012345678901   "));
}

#[test]
fn rejects_what_is_not_a_key() {
    assert!(!looks_like_key(""));
    assert!(!looks_like_key("ssh-ed25519"));
    assert!(!looks_like_key("ssh-ed25519 short"));
    assert!(!looks_like_key("ssh-rsa 12345678901234567890"));
    assert!(!looks_like_key("rsa-ssh AAAAC3NzaC1lZDI1NTE5AAAAIOrbit"));
    assert!(!looks_like_key("hello world this is not a key"));
}

#[test]
fn body_length_counts_bytes() {
    // 7 two-byte characters: 14 bytes, not enough; 11 of them: 22 bytes.
    assert!(!looks_like_key("ssh-x \u{e9}\u{e9}\u{e9}\u{e9}\u{e9}\u{e9}\u{e9}"));
    assert!(looks_like_key("ssh-x \u{e9}\u{e9}\u{e9}\u{e9}\u{e9}\u{e9}\u{e9}\u{e9}\u{e9}\u{e9}\u{e9}"));
}

#[test]
fn append_to_empty_file() {
    assert_eq!(appended(add_key(KEY, "")), format!("{KEY}\n"));
}

#[test]
fn append_adds_missing_newline() {
    assert_eq!(appended(add_key(KEY, "ssh-rsa OTHERKEYOTHERKEYOTHERKEY x")), format!("\n{KEY}\n"));
    assert_eq!(appended(add_key(KEY, "ssh-rsa OTHER x\n")), format!("{KEY}\n"));
}

#[test]
fn key_is_trimmed() {
    assert_eq!(appended(add_key(&format!("  {KEY}\n"), "")), format!("{KEY}\n"));
}

#[test]
fn already_authorized_key_is_left_alone() {
    let existing = format!("ssh-rsa OTHER x\n  {KEY}  \r\nlast line");
    assert!(matches!(add_key(KEY, &existing), Ok(KeyUpdate::AlreadyAuthorized)));
}

#[test]
fn adding_twice_is_idempotent() {
    let mut file = String::from("ssh-rsa OTHER x");
    let first = appended(add_key(KEY, &file));
    file.push_str(&first);
    assert!(matches!(add_key(KEY, &file), Ok(KeyUpdate::AlreadyAuthorized)));
}

#[test]
fn not_a_key_is_refused() {
    match add_key("not a key", "") {
        Err(e) => assert_eq!(
            e.message(),
            "that doesn't look like an SSH public key.\nExpected something like: ssh-ed25519 AAAA... comment"
        ),
        Ok(_) => panic!("expected an error"),
    }
}
