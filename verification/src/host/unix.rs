//! Unix-socket host adapter (macOS / Linux): Docker Desktop, OrbStack, Rancher
//! Desktop, colima, anything exposing a unix domain Docker socket.

use vstd::prelude::*;
use crate::config::{join, join_path};
use crate::text::opt_chars;
use crate::host::{DetectError, HostInfo, HostKind};

verus! {

/// The candidate socket paths, in priority order: the standard locations, then
/// the per-user engine sockets under the home directory when it is known.
pub open spec fn candidate_paths(home: Option<Seq<char>>) -> Seq<Seq<char>> {
    let standard = seq!["/var/run/docker.sock"@, "/run/docker.sock"@];
    match home {
        Some(h) => standard + seq![
            join(h, ".docker/run/docker.sock"@),
            join(h, ".orbstack/run/docker.sock"@),
            join(h, ".colima/default/docker.sock"@),
        ],
        None => standard,
    }
}

/// The detection outcome for the candidates and which of them exist: the first
/// existing candidate as a unix adapter, or the "no socket" error.
pub open spec fn detect_result(r: Result<HostInfo, DetectError>, cands: Seq<Seq<char>>, present: Seq<bool>) -> bool {
    match r {
        Ok(info) => exists|i: int|
            0 <= i < present.len() && present[i] && (forall|j: int| 0 <= j < i ==> !present[j])
                && info.kind == HostKind::Unix && info.socket@ == cands[i],
        Err(_) => forall|i: int| 0 <= i < present.len() ==> !present[i],
    }
}

/// The candidate socket paths for this machine.
pub fn candidates(home: Option<&str>) -> (v: Vec<String>)
    ensures
        v@.map_values(|s: String| s@) == candidate_paths(opt_chars(home)),
{
    let ghost hv = opt_chars(home);
    let mut v: Vec<String> = Vec::new();
    v.push(String::from_str("/var/run/docker.sock"));
    v.push(String::from_str("/run/docker.sock"));
    if let Some(h) = home {
        v.push(join_path(h, ".docker/run/docker.sock"));
        v.push(join_path(h, ".orbstack/run/docker.sock"));
        v.push(join_path(h, ".colima/default/docker.sock"));
    }
    proof {
        assert(v@.map_values(|s: String| s@) =~= candidate_paths(hv));
    }
    v
}

/// Pick the first existing candidate; `present[i]` says whether
/// `candidates(home)[i]` exists.
pub fn detect(home: Option<&str>, present: &Vec<bool>) -> (r: Result<HostInfo, DetectError>)
    requires
        present@.len() == candidate_paths(opt_chars(home)).len(),
    ensures
        detect_result(
            r,
            candidate_paths(opt_chars(home)),
            present@,
        ),
{
    let ghost hv = opt_chars(home);
    let cands = candidates(home);
    let n = present.len();
    let mut i: usize = 0;
    while i < n
        invariant
            n == present@.len(),
            cands@.len() == n,
            cands@.map_values(|s: String| s@) == candidate_paths(hv),
            hv == opt_chars(home),
            i <= n,
            forall|j: int| 0 <= j < i ==> !present@[j],
        decreases n - i,
    {
        if present[i] {
            let socket = cands[i].clone();
            proof {
                assert(cands@.map_values(|s: String| s@)[i as int] == cands@[i as int]@);
            }
            let info = HostInfo { kind: HostKind::Unix, socket };
            proof {
                let k = i as int;
                assert(0 <= k < present@.len() && present@[k] && (forall|j: int|
                    0 <= j < k ==> !present@[j]) && info.kind == HostKind::Unix && info.socket@
                    == candidate_paths(hv)[k]);
            }
            return Ok(info);
        }
        i = i + 1;
    }
    Err(DetectError::NoSocket)
}

} // verus!
