//! The `docker context` command lines orbit runs. Managing a standard context is
//! what keeps orbit compatible with Docker Desktop, Rancher Desktop, OrbStack and
//! colima without wrapping the `docker` binary.

use vstd::prelude::*;

verus! {

/// The strings of `v`, each by its characters.
pub open spec fn args_view(v: Seq<String>) -> Seq<Seq<char>> {
    v.map_values(|s: String| s@)
}

/// The `docker` arguments that create the context, or update its endpoint when
/// it already exists.
pub open spec fn create_or_update_args(
    name: Seq<char>,
    endpoint: Seq<char>,
    description: Seq<char>,
    exists: bool,
) -> Seq<Seq<char>> {
    if exists {
        seq!["context"@, "update"@, name, "--docker"@, "host="@ + endpoint]
    } else {
        seq!["context"@, "create"@, name, "--description"@, description, "--docker"@, "host="@ + endpoint]
    }
}

/// The `docker` arguments for creating or updating context `name`.
pub fn create_or_update(name: &str, endpoint: &str, description: &str, exists: bool) -> (v: Vec<
    String,
>)
    ensures
        args_view(v@) == create_or_update_args(name@, endpoint@, description@, exists),
{
    let host_arg = String::from_str("host=").concat(endpoint);
    let mut v: Vec<String> = Vec::new();
    v.push(String::from_str("context"));
    if exists {
        v.push(String::from_str("update"));
        v.push(String::from_str(name));
    } else {
        v.push(String::from_str("create"));
        v.push(String::from_str(name));
        v.push(String::from_str("--description"));
        v.push(String::from_str(description));
    }
    v.push(String::from_str("--docker"));
    v.push(host_arg);
    proof {
        assert(args_view(v@) =~= create_or_update_args(name@, endpoint@, description@, exists));
    }
    v
}

/// The `docker` arguments that switch to context `name`.
pub fn use_context(name: &str) -> (v: Vec<String>)
    ensures
        args_view(v@) == seq!["context"@, "use"@, name@],
{
    let mut v: Vec<String> = Vec::new();
    v.push(String::from_str("context"));
    v.push(String::from_str("use"));
    v.push(String::from_str(name));
    proof {
        assert(args_view(v@) =~= seq!["context"@, "use"@, name@]);
    }
    v
}

} // verus!
