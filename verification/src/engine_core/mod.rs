//! Scene-graph vocabulary, plugins, input, events and signals of the engine
//! core.
pub mod node;
pub mod plugin;
pub mod input;
pub mod event;
pub mod signal;
