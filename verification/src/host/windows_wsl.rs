//! Windows-over-WSL2 host adapter: detection only. Docker Desktop exposes the
//! engine inside WSL at the standard path.

use vstd::prelude::*;
use crate::host::{HostInfo, HostKind};

verus! {

/// The WSL2 adapter, only when running on Windows with WSL available.
pub fn detect(is_windows: bool, wsl_available: bool) -> (r: Option<HostInfo>)
    ensures
        r is Some <==> is_windows && wsl_available,
        r matches Some(info) ==> info.kind == HostKind::WindowsWsl && info.socket@
            == "/var/run/docker.sock"@,
{
    if !is_windows || !wsl_available {
        return None;
    }
    Some(HostInfo { kind: HostKind::WindowsWsl, socket: String::from_str("/var/run/docker.sock") })
}

} // verus!
