//! The decisions behind the individual `orbit` commands.

pub mod host_setup;
pub mod link;
pub mod status;
pub mod doctor;
pub mod host_init;
pub mod setup;
