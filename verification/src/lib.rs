//! Sandboxed JavaScript in a micro virtual machine: what passes between guest code and host
//! functions, and how a sandbox is set up, called and taken down.
//!
//! - [`common`]: the wire format, with [`json`], [`text`] and [`double`] under it,
//! - [`runtime`]: the guest's side, with its values, modules and clock,
//! - [`sandbox`]: the host's side, with its handlers, modules and host functions,
//! - [`host_api`]: the bindings for Node.js and Python.

pub mod common;
pub mod double;
pub mod host_api;
pub mod json;
pub mod names;
pub mod runtime;
pub mod sandbox;
pub mod text;
