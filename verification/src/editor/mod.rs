//! The editor: command palette, panels and console, projects.
use vstd::prelude::*;

pub mod command_palette;
pub mod panel;
pub mod project;
pub mod ui;
pub mod ai_assistant;
pub mod viewport;

verus! {

/// Editor modes.
#[derive(Debug, Clone, Copy, PartialEq, Eq, Structural)]
pub enum EditorMode {
    Scene,
    Script,
    Assets,
    /// Runs the game.
    GamePreview,
}

} // verus!
