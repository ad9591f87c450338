//! Ummerse: the verified core of a 2D/3D game engine.

pub mod text;
pub mod engine_core;
pub mod kernel;
pub mod runtime;
pub mod physics;
pub mod asset_base;
pub mod asset;
pub mod editor;
pub mod tools;
pub mod mcp;
pub mod audio;
pub mod render;
pub mod scene;
pub mod scene_tree;
pub mod scene_nodes;
pub mod color_code;
