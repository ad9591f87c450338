//! Project configuration, export settings and templates. Creating and
//! opening project folders happens outside this library.
use vstd::prelude::*;
use crate::scene::{empty_json_object, json_object_entries};
use crate::text::owned;

verus! {

/// Export targets of a project.
#[derive(Debug, Clone, Copy)]
pub struct ExportConfig {
    pub windows: bool,
    pub macos: bool,
    pub linux: bool,
    pub web: bool,
    pub android: bool,
    pub ios: bool,
}

impl Default for ExportConfig {
    /// Desktop and web targets on, mobile off.
    fn default() -> (c: Self)
        ensures
            c.windows && c.macos && c.linux && c.web,
            !c.android && !c.ios,
    {
        ExportConfig { windows: true, macos: true, linux: true, web: true, android: false, ios: false }
    }
}

/// Project templates.
#[derive(Debug, Clone, Copy, PartialEq, Eq, Structural)]
pub enum ProjectTemplate {
    Empty,
    Game2d,
    Game3d,
    Platformer2d,
    TopDown2d,
    FirstPerson3d,
}

impl ProjectTemplate {
    pub open spec fn spec_display_name(self) -> Seq<char> {
        match self {
            ProjectTemplate::Empty => "Empty Project"@,
            ProjectTemplate::Game2d => "2D Game"@,
            ProjectTemplate::Game3d => "3D Game"@,
            ProjectTemplate::Platformer2d => "2D Platformer"@,
            ProjectTemplate::TopDown2d => "2D Top-Down"@,
            ProjectTemplate::FirstPerson3d => "3D First Person"@,
        }
    }

    pub fn display_name(&self) -> (s: &str)
        ensures
            s@ == self.spec_display_name(),
    {
        match self {
            ProjectTemplate::Empty => "Empty Project",
            ProjectTemplate::Game2d => "2D Game",
            ProjectTemplate::Game3d => "3D Game",
            ProjectTemplate::Platformer2d => "2D Platformer",
            ProjectTemplate::TopDown2d => "2D Top-Down",
            ProjectTemplate::FirstPerson3d => "3D First Person",
        }
    }
}

/// Configuration of a project (kept in `project.toml`).
#[derive(Debug)]
pub struct ProjectConfig {
    pub name: String,
    pub version: String,
    pub description: String,
    /// Required engine version.
    pub engine_version: String,
    /// Scene opened first, relative to the project root.
    pub main_scene: Option<String>,
    pub export: ExportConfig,
    /// Custom settings (a JSON object).
    pub custom: serde_json::Value,
}

impl Default for ProjectConfig {
    /// An untitled project at version 0.1.0 for engine `^0.1.0`, opening
    /// `scenes/main.uscn`, with the default export targets.
    fn default() -> (c: Self)
        ensures
            c.name@ == "Untitled Project"@,
            c.version@ == "0.1.0"@,
            c.description@ == "A new Ummerse game project"@,
            c.engine_version@ == "^0.1.0"@,
            c.main_scene matches Some(m) && m@ == "scenes/main.uscn"@,
            c.export.windows && c.export.macos && c.export.linux && c.export.web,
            !c.export.android && !c.export.ios,
            json_object_entries(c.custom) == Some(Map::<Seq<char>, serde_json::Value>::empty()),
    {
        ProjectConfig {
            name: owned("Untitled Project"),
            version: owned("0.1.0"),
            description: owned("A new Ummerse game project"),
            engine_version: owned("^0.1.0"),
            main_scene: Some(owned("scenes/main.uscn")),
            export: ExportConfig::default(),
            custom: empty_json_object(),
        }
    }
}

} // verus!
