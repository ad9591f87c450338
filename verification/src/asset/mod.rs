//! Asset types, loaders and load states of the resource layer.
pub mod handle;
pub mod loader;
pub mod types;
