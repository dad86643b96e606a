//! The persistent configuration (`~/.orbit/config.toml`) and the runtime paths
//! derived from the home directory.
//!
//! Paths are joined with `/`, as `PathBuf::join` does on unix.

use vstd::prelude::*;
use crate::host::HostKind;
use crate::text::chars_of;

verus! {

/// The name of the docker context orbit manages, unless configured otherwise.
pub const DEFAULT_CONTEXT: &'static str = "orbit";

/// orbit's configuration, as saved by `orbit link`.
pub struct Config {
    /// SSH user on the host.
    pub host_user: String,
    /// Host address: IP or resolvable name on the LAN.
    pub host_addr: String,
    /// SSH port on the host.
    pub ssh_port: u16,
    /// Which host adapter exposes the remote docker socket.
    pub adapter: HostKind,
    /// Absolute path to the docker socket on the host.
    pub remote_socket: String,
    /// Name of the docker context orbit manages.
    pub context_name: String,
    /// Docker context that was active before `orbit up`, restored on `orbit down`.
    pub previous_context: Option<String>,
}

/// The SSH port when the configuration names none.
pub fn default_ssh_port() -> (p: u16)
    ensures
        p == 22,
{
    22
}

/// The context name when the configuration names none.
pub fn default_context() -> (s: String)
    ensures
        s@ == DEFAULT_CONTEXT@,
{
    String::from_str(DEFAULT_CONTEXT)
}

impl Config {
    /// `user@host`, the target string used by ssh and docker.
    pub fn ssh_target(&self) -> (s: String)
        ensures
            s@ == self.host_user@ + "@"@ + self.host_addr@,
    {
        self.host_user.clone().concat("@").concat(self.host_addr.as_str())
    }

    /// The docker context endpoint: the locally forwarded unix socket, given its
    /// path, or a marker when that path is unavailable.
    pub fn docker_endpoint(&self, local_socket: Option<&str>) -> (s: String)
        ensures
            s@ == match local_socket {
                Some(p) => "unix://"@ + p@,
                None => "unix://<unavailable>"@,
            },
    {
        match local_socket {
            Some(p) => String::from_str("unix://").concat(p),
            None => String::from_str("unix://<unavailable>"),
        }
    }
}

/// `rel` joined under `base` with a `/` separator, as `PathBuf::join` gives it
/// for a relative `rel`.
pub open spec fn join(base: Seq<char>, rel: Seq<char>) -> Seq<char> {
    if base.len() == 0 {
        rel
    } else if base.last() == '/' {
        base + rel
    } else {
        base + seq!['/'] + rel
    }
}

/// `rel` joined under `base`.
pub fn join_path(base: &str, rel: &str) -> (r: String)
    ensures
        r@ == join(base@, rel@),
{
    let b = chars_of(base);
    let n = b.len();
    if n == 0 {
        String::from_str(rel)
    } else if b[n - 1] == '/' {
        proof {
            assert(b@.last() == b@[n - 1]);
        }
        String::from_str(base).concat(rel)
    } else {
        proof {
            reveal_strlit("/");
        }
        String::from_str(base).concat("/").concat(rel)
    }
}

/// Why a path or the configuration is unavailable.
pub enum ConfigError {
    /// The home directory is unknown.
    NoHome,
    /// No configuration has been saved yet.
    NotLinked,
}

impl ConfigError {
    /// The message shown to the user.
    pub fn message(&self) -> (m: String)
        ensures
            *self is NoHome ==> m@ == "cannot determine home directory"@,
            *self is NotLinked ==> m@ == "not linked to a host yet \u{2014} run `orbit link <user@host>` first"@,
    {
        match self {
            ConfigError::NoHome => String::from_str("cannot determine home directory"),
            ConfigError::NotLinked => String::from_str(
                "not linked to a host yet \u{2014} run `orbit link <user@host>` first",
            ),
        }
    }
}

/// `~/.orbit`, where everything lives (no space in it, unlike the platform
/// configuration directory on macOS, which unix socket paths dislike).
pub open spec fn config_dir_spec(home: Seq<char>) -> Seq<char> {
    join(home, ".orbit"@)
}

/// `~/.orbit/run`: sockets, pid files, logs.
pub open spec fn run_dir_spec(home: Seq<char>) -> Seq<char> {
    join(config_dir_spec(home), "run"@)
}

/// The result of a path function: the path when the home directory is known.
pub open spec fn path_result(r: Result<String, ConfigError>, home: Option<&str>, f: spec_fn(Seq<char>) -> Seq<char>) -> bool {
    match home {
        Some(h) => r matches Ok(p) && p@ == f(h@),
        None => r matches Err(ConfigError::NoHome),
    }
}

/// The configuration directory, `~/.orbit`.
pub fn config_dir(home: Option<&str>) -> (r: Result<String, ConfigError>)
    ensures
        path_result(r, home, |h: Seq<char>| config_dir_spec(h)),
{
    match home {
        Some(h) => Ok(join_path(h, ".orbit")),
        None => Err(ConfigError::NoHome),
    }
}

fn under_config_dir(home: Option<&str>, rel: &str) -> (r: Result<String, ConfigError>)
    ensures
        path_result(r, home, |h: Seq<char>| join(config_dir_spec(h), rel@)),
{
    match config_dir(home) {
        Ok(d) => Ok(join_path(d.as_str(), rel)),
        Err(e) => Err(e),
    }
}

fn under_run_dir(home: Option<&str>, rel: &str) -> (r: Result<String, ConfigError>)
    ensures
        path_result(r, home, |h: Seq<char>| join(run_dir_spec(h), rel@)),
{
    match run_dir(home) {
        Ok(d) => Ok(join_path(d.as_str(), rel)),
        Err(e) => Err(e),
    }
}

/// The configuration file, `~/.orbit/config.toml`.
pub fn config_path(home: Option<&str>) -> (r: Result<String, ConfigError>)
    ensures
        path_result(r, home, |h: Seq<char>| join(config_dir_spec(h), "config.toml"@)),
{
    under_config_dir(home, "config.toml")
}

/// The runtime directory, `~/.orbit/run` (the application creates it).
pub fn run_dir(home: Option<&str>) -> (r: Result<String, ConfigError>)
    ensures
        path_result(r, home, |h: Seq<char>| run_dir_spec(h)),
{
    under_config_dir(home, "run")
}

/// The SSH ControlMaster control socket, `~/.orbit/run/control.sock`.
pub fn control_socket(home: Option<&str>) -> (r: Result<String, ConfigError>)
    ensures
        path_result(r, home, |h: Seq<char>| join(run_dir_spec(h), "control.sock"@)),
{
    under_run_dir(home, "control.sock")
}

/// The local unix socket the remote docker socket is forwarded to,
/// `~/.orbit/run/docker.sock`.
pub fn local_docker_socket(home: Option<&str>) -> (r: Result<String, ConfigError>)
    ensures
        path_result(r, home, |h: Seq<char>| join(run_dir_spec(h), "docker.sock"@)),
{
    under_run_dir(home, "docker.sock")
}

/// The pid file of the running forwarder, `~/.orbit/run/orbit.pid`.
pub fn pid_file(home: Option<&str>) -> (r: Result<String, ConfigError>)
    ensures
        path_result(r, home, |h: Seq<char>| join(run_dir_spec(h), "orbit.pid"@)),
{
    under_run_dir(home, "orbit.pid")
}

/// The directory of orbit's SSH key pair, `~/.orbit/keys` (the application creates it).
pub fn keys_dir(home: Option<&str>) -> (r: Result<String, ConfigError>)
    ensures
        path_result(r, home, |h: Seq<char>| join(config_dir_spec(h), "keys"@)),
{
    under_config_dir(home, "keys")
}

/// orbit's SSH private key, `~/.orbit/keys/id_orbit_ed25519`.
pub fn ssh_key_path(home: Option<&str>) -> (r: Result<String, ConfigError>)
    ensures
        path_result(
            r,
            home,
            |h: Seq<char>| join(join(config_dir_spec(h), "keys"@), "id_orbit_ed25519"@),
        ),
{
    match keys_dir(home) {
        Ok(d) => Ok(join_path(d.as_str(), "id_orbit_ed25519")),
        Err(e) => Err(e),
    }
}

/// The configuration, or the "not linked" error when none could be loaded.
pub fn require_linked(loaded: Option<Config>) -> (r: Result<Config, ConfigError>)
    ensures
        match loaded {
            Some(c) => r == Ok::<Config, ConfigError>(c),
            None => r matches Err(ConfigError::NotLinked),
        },
{
    match loaded {
        Some(c) => Ok(c),
        None => Err(ConfigError::NotLinked),
    }
}

proof fn lemma_join_ends_with(base: Seq<char>, rel: Seq<char>)
    requires
        rel.len() > 0,
    ensures
        join(base, rel).len() > 0,
        join(base, rel).last() == rel.last(),
{
}

/// Everything orbit keeps lives under `~/.orbit`: whatever the home directory,
/// a path joined under the configuration directory, or under its `run`
/// directory, is that directory, a `/`, and the relative path.
pub proof fn lemma_paths_under_config_dir(home: Seq<char>, rel: Seq<char>)
    ensures
        join(config_dir_spec(home), rel) == config_dir_spec(home) + seq!['/'] + rel,
        join(run_dir_spec(home), rel) == config_dir_spec(home) + seq!['/'] + "run"@ + seq!['/'] + rel,
{
    reveal_strlit(".orbit");
    reveal_strlit("run");
    lemma_join_ends_with(home, ".orbit"@);
    lemma_join_ends_with(config_dir_spec(home), "run"@);
    assert(config_dir_spec(home).last() == 't');
    assert(run_dir_spec(home).last() == 'n');
    assert(run_dir_spec(home) == config_dir_spec(home) + seq!['/'] + "run"@);
    assert(config_dir_spec(home) + seq!['/'] + "run"@ + seq!['/'] + rel =~= run_dir_spec(home)
        + seq!['/'] + rel);
}

} // verus!
