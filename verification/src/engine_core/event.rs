//! Engine events: the marker trait of event types and the built-in events.
//! The type-indexed event bus that carries them lives outside this library.
use vstd::prelude::*;

verus! {

/// Marker of the types that can travel as events: every type that can be
/// shared between threads.
pub trait Event: Send + Sync + 'static {}

impl<T: Send + Sync + 'static> Event for T {}

/// The window changed size.
#[derive(Debug, Clone, Copy, PartialEq, Eq, Structural)]
pub struct WindowResized {
    pub width: u32,
    pub height: u32,
}

/// The user asked to close the window.
#[derive(Debug, Clone, Copy, PartialEq, Eq, Structural)]
pub struct WindowCloseRequested;

/// The window gained focus.
#[derive(Debug, Clone, Copy, PartialEq, Eq, Structural)]
pub struct WindowFocused;

/// The window lost focus.
#[derive(Debug, Clone, Copy, PartialEq, Eq, Structural)]
pub struct WindowUnfocused;

/// A scene finished loading.
#[derive(Debug)]
pub struct SceneLoaded {
    pub scene_name: String,
}

impl Clone for SceneLoaded {
    fn clone(&self) -> (r: Self)
        ensures
            r.scene_name@ == self.scene_name@,
    {
        SceneLoaded { scene_name: self.scene_name.clone() }
    }
}

/// A scene was unloaded.
#[derive(Debug)]
pub struct SceneUnloaded {
    pub scene_name: String,
}

impl Clone for SceneUnloaded {
    fn clone(&self) -> (r: Self)
        ensures
            r.scene_name@ == self.scene_name@,
    {
        SceneUnloaded { scene_name: self.scene_name.clone() }
    }
}

/// An asset finished loading.
#[derive(Debug)]
pub struct AssetLoaded {
    pub path: String,
    pub asset_type: String,
}

impl Clone for AssetLoaded {
    fn clone(&self) -> (r: Self)
        ensures
            r.path@ == self.path@,
            r.asset_type@ == self.asset_type@,
    {
        AssetLoaded { path: self.path.clone(), asset_type: self.asset_type.clone() }
    }
}

/// An asset failed to load.
#[derive(Debug)]
pub struct AssetLoadFailed {
    pub path: String,
    pub reason: String,
}

impl Clone for AssetLoadFailed {
    fn clone(&self) -> (r: Self)
        ensures
            r.path@ == self.path@,
            r.reason@ == self.reason@,
    {
        AssetLoadFailed { path: self.path.clone(), reason: self.reason.clone() }
    }
}

/// The engine was paused.
#[derive(Debug, Clone, Copy, PartialEq, Eq, Structural)]
pub struct EnginePaused;

/// The engine resumed.
#[derive(Debug, Clone, Copy, PartialEq, Eq, Structural)]
pub struct EngineResumed;

} // verus!
