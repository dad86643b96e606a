//! The command-line surface: what the user asked for, and how verbose to be.

use vstd::prelude::*;

verus! {

/// The parsed command line.
pub struct Cli {
    /// The command to run.
    pub command: Command,
    /// Log verbosity: the number of `-v` flags.
    pub verbose: u8,
}

/// The commands.
pub enum Command {
    /// Host side: prepare this machine to lend its Docker engine.
    Host {
        /// The host subcommand.
        cmd: HostCmd,
    },
    /// Link this client to a host (`user@host`).
    Link {
        /// Target as `user@host` or just `host`.
        target: String,
        /// SSH port on the host.
        port: u16,
        /// Override of the remote docker socket path.
        socket: Option<String>,
    },
    /// Switch docker to the host and start forwarding ports.
    Up {
        /// Run the forwarder in the foreground instead of detaching.
        foreground: bool,
    },
    /// Stop forwarding and restore the previous docker context.
    Down,
    /// Show link, connection, forwarded ports and remote resource usage.
    Status,
    /// List or manage forwarded ports.
    Ports {
        /// Add or remove a port; list when absent.
        cmd: Option<PortsCmd>,
    },
    /// Diagnose the setup and suggest fixes.
    Doctor,
    /// The detached forwarder worker.
    Forward,
}

/// Host subcommands.
pub enum HostCmd {
    /// Detect the docker engine and print the join string for clients.
    Init,
}

/// Port subcommands.
pub enum PortsCmd {
    /// Forward an extra TCP port.
    Add {
        /// The port.
        port: u16,
    },
    /// Stop forwarding a manually added port.
    Rm {
        /// The port.
        port: u16,
    },
}

/// The log level for a verbosity, more verbose with each `-v`: `warn` by
/// default, `info` with `-v`, `debug` with `-vv`, `trace` with `-vvv` or more.
pub open spec fn log_level_spec(verbose: u8) -> Seq<char> {
    if verbose == 0 {
        "warn"@
    } else if verbose == 1 {
        "info"@
    } else if verbose == 2 {
        "debug"@
    } else {
        "trace"@
    }
}

/// The log filter used when the environment sets none: `orbit=<level>`.
pub fn default_log_filter(verbose: u8) -> (s: String)
    ensures
        s@ == "orbit="@ + log_level_spec(verbose),
{
    let level = if verbose == 0 {
        "warn"
    } else if verbose == 1 {
        "info"
    } else if verbose == 2 {
        "debug"
    } else {
        "trace"
    };
    String::from_str("orbit=").concat(level)
}

} // verus!
