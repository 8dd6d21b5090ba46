//! The bindings for other languages: what Node.js and Python share, and what is their own.

pub mod arrival;
pub mod check_laws;
pub mod error;
pub mod laws;
pub mod lifecycle;
pub mod node;
pub mod one_shot;
pub mod python;
pub mod validate;
pub mod value_laws;
pub mod wording;
