//! A task runner's core: a manifest of named scripts, the environment each
//! script sees, how a script's command is turned into a process invocation,
//! the ordered plan that running (or previewing) a script follows, and the
//! static validation of a manifest.

pub mod text;
pub mod env;
pub mod manifest;
pub mod distance;
pub mod error;
pub mod invocation;
pub mod requirements;
pub mod plan;
pub mod preview;
pub mod validate;
pub mod listing;
pub mod metrics;
pub mod commands;
