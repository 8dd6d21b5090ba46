//! The host side of a sandbox.

pub mod error;
pub mod execution_stats;
pub mod host_fn;
pub mod js_sandbox;
pub mod json_text;
pub mod monitor;
