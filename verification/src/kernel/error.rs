//! The engine's error type.
use vstd::prelude::*;

verus! {

/// Declares `std::io::Error` so that the I/O variant can carry it.
#[verifier::external_type_specification]
#[verifier::external_body]
pub struct ExIoError(std::io::Error);

/// Errors of the engine.
#[derive(Debug)]
pub enum EngineError {
    Io(std::io::Error),
    Serialization(String),
    ConfigError(String),
    NodeNotFound { path: String },
    NodeAlreadyExists { name: String },
    InvalidNodePath { path: String },
    SceneLoadFailed { path: String, reason: String },
    SceneNotFound { name: String },
    AssetNotFound { path: String },
    AssetLoadFailed { path: String, reason: String },
    UnsupportedAssetType { ext: String },
    GpuDeviceUnavailable,
    ShaderCompileFailed { name: String, reason: String },
    RenderError(String),
    PluginError { name: String, reason: String },
    ToolCallFailed { tool: String, reason: String },
    ScriptError(String),
    Internal(String),
    NotImplemented(String),
}

} // verus!
