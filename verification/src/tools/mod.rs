//! Tool calling for AI assistants and plugins: the call/result protocol and
//! the engine's built-in tools.
pub mod protocol;
pub mod tool;
pub mod search;
