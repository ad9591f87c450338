//! Engine kernel: configuration, lifecycle state machine, errors, plugins and
//! the application builder.
pub mod app;
pub mod engine;
pub mod error;
pub mod plugin;
pub mod time;
