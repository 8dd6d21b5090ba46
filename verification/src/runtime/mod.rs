//! The part that runs inside the guest.

pub mod call_laws;
pub mod clock;
pub mod host_fn;
pub mod modules;
pub mod round_trip;
pub mod table;
pub mod value_laws;
pub mod values;
