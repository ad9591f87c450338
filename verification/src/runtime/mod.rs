//! Platform layer of the runtime.
pub mod platform;
