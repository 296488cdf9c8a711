//! Application layer: the ports the use cases talk through, the error of
//! the command boundary, the session registry and the use cases.

pub mod error;
pub mod ports;
pub mod registry;
pub mod use_cases;
