//! orbit: the decision logic behind delegating Docker to a machine on the LAN.
//!
//! The library holds what the command line tool computes: the port reconciler,
//! the configuration paths, host adapter detection, key authorization, parsing of
//! probe output, the dashboard number formatting and the MCP tool routing.
//! Everything that talks to processes, sockets, files or the terminal lives in
//! the application around it.

pub mod cli;
pub mod commands;
pub mod config;
pub mod docker_ctx;
pub mod forwarder;
pub mod host;
pub mod mcp;
pub mod metrics;
pub mod text;
pub mod util;
