//! Host adapters: how the Docker socket of the machine that lends its engine is
//! located.

pub mod unix;
pub mod windows_wsl;

use vstd::prelude::*;
use crate::text::opt_chars;

verus! {

/// Which adapter exposes the remote Docker socket.
#[derive(Clone, Copy, Debug, PartialEq, Eq, Structural)]
pub enum HostKind {
    /// macOS or Linux exposing a unix domain socket.
    Unix,
    /// Windows with Docker reachable inside a WSL2 distro.
    WindowsWsl,
}

/// The name shown to the user for each adapter.
pub open spec fn host_kind_label(k: HostKind) -> Seq<char> {
    match k {
        HostKind::Unix => "unix (macOS/Linux)"@,
        HostKind::WindowsWsl => "windows-wsl2"@,
    }
}

impl HostKind {
    /// Whether forwarding the remote socket as a unix-to-unix `-L` tunnel is
    /// supported for this adapter.
    pub fn supports_socket_forward(&self) -> (r: bool)
        ensures
            r == (*self == HostKind::Unix),
    {
        match self {
            HostKind::Unix => true,
            HostKind::WindowsWsl => false,
        }
    }

    /// The adapter's name as shown to the user.
    pub fn to_string(&self) -> (s: String)
        ensures
            s@ == host_kind_label(*self),
    {
        match self {
            HostKind::Unix => String::from_str("unix (macOS/Linux)"),
            HostKind::WindowsWsl => String::from_str("windows-wsl2"),
        }
    }
}

/// What the host learns about itself: the adapter and where its socket lives.
pub struct HostInfo {
    /// The adapter.
    pub kind: HostKind,
    /// Absolute path of the Docker socket on this machine.
    pub socket: String,
}

/// Why no host adapter could be detected.
pub enum DetectError {
    /// No Docker socket exists at any of the known places.
    NoSocket,
}

impl DetectError {
    /// The message shown to the user.
    pub fn message(&self) -> (m: String)
        ensures
            m@ == "no docker socket found on this host. Is Docker/OrbStack/Rancher running?\nLooked at /var/run/docker.sock, /run/docker.sock and ~/.docker, ~/.orbstack, ~/.colima."@,
    {
        String::from_str(
            "no docker socket found on this host. Is Docker/OrbStack/Rancher running?\nLooked at /var/run/docker.sock, /run/docker.sock and ~/.docker, ~/.orbstack, ~/.colima.",
        )
    }
}

/// Detect which adapter applies on this machine and where its socket lives:
/// Windows with WSL available uses the WSL2 adapter; otherwise the first
/// existing unix socket candidate wins. `present[i]` says whether
/// `unix::candidates(home)[i]` exists.
pub fn detect_local(
    is_windows: bool,
    wsl_available: bool,
    home: Option<&str>,
    present: &Vec<bool>,
) -> (r: Result<
    HostInfo,
    DetectError,
>)
    requires
        present@.len() == unix::candidate_paths(opt_chars(home)).len(),
    ensures
        is_windows && wsl_available ==> (r matches Ok(info) && info.kind == HostKind::WindowsWsl
            && info.socket@ == "/var/run/docker.sock"@),
        !(is_windows && wsl_available) ==> unix::detect_result(
            r,
            unix::candidate_paths(opt_chars(home)),
            present@,
        ),
{
    if let Some(info) = windows_wsl::detect(is_windows, wsl_available) {
        return Ok(info);
    }
    unix::detect(home, present)
}

} // verus!
