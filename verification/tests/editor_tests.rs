use ummerse::editor::ui::{StatusBar, StatusBarItem};
use ummerse::editor::viewport::{clear_selection, select_node};
use ummerse::editor::command_palette::{Command, CommandCategory, CommandPalette, CommandResult};
use ummerse::editor::panel::{Console, ConsoleLevel, ConsoleMessage, DockArea, EditorPanel, PanelId, PanelKind, PanelLayout, PanelState, CONSOLE_CAPACITY};
use ummerse::editor::project::{ExportConfig, ProjectConfig, ProjectTemplate};

#[test]
fn panels() {
    let id = PanelId::new("scene_tree");
    assert_eq!(id.as_str(), "scene_tree");
    assert_eq!(PanelKind::SceneTree.default_title(), "Scene Tree");
    assert_eq!(PanelKind::AssetBrowser.default_title(), "Assets");
    assert_eq!(PanelKind::Inspector.default_dock(), DockArea::Right);
    assert_eq!(PanelKind::Console.default_dock(), DockArea::Bottom);
}

#[test]
fn console_filter_and_capacity() {
    let mut c = Console::new();
    c.info("starting");
    c.warning("low memory");
    c.error("crash");
    c.push(ConsoleMessage::info("from script").with_source("main.rs"));
    assert_eq!(c.message_count(), 4);
    assert_eq!(c.visible_messages().len(), 4);
    c.set_filter(Some(ConsoleLevel::Warning));
    let v = c.visible_messages();
    assert_eq!(v.len(), 1);
    assert_eq!(v[0].message, "low memory");
    c.set_filter(None);
    let last = c.visible_messages()[3];
    assert_eq!(last.source.as_deref(), Some("main.rs"));
    for i in 0..CONSOLE_CAPACITY {
        c.info(&format!("m{i}"));
    }
    assert_eq!(c.message_count(), CONSOLE_CAPACITY);
    assert_eq!(c.visible_messages()[0].message, "m0");
    c.clear();
    assert_eq!(c.message_count(), 0);
    assert_eq!(ConsoleMessage::error("x").level, ConsoleLevel::Error);
}

#[test]
fn project_settings() {
    let e = ExportConfig::default();
    assert!(e.windows && e.macos && e.linux && e.web);
    assert!(!e.android && !e.ios);
    assert_eq!(ProjectTemplate::Empty.display_name(), "Empty Project");
    assert_eq!(ProjectTemplate::TopDown2d.display_name(), "2D Top-Down");
}

#[test]
fn palette_builtins_and_execution() {
    let mut p = CommandPalette::new();
    assert_eq!(p.len(), 12);
    assert!(!p.is_empty());
    assert_eq!(p.get("file.save").unwrap().title, "Save");
    assert_eq!(p.get("file.save").unwrap().keybinding.as_deref(), Some("Ctrl+S"));
    match p.execute("file.save") {
        CommandResult::Success(Some(m)) => assert_eq!(m, "Saved"),
        _ => panic!("expected success"),
    }
    match p.execute("nope") {
        CommandResult::Error(m) => assert_eq!(m, "Command 'nope' not found"),
        _ => panic!("expected an error"),
    }
    assert!(matches!(p.execute("scene.new_scene"), CommandResult::NeedsInput(ref s) if s == "new_scene_dialog"));
    // the empty query lists recent commands first, newest first
    let recent = p.search("");
    assert_eq!(recent[0].id, "scene.new_scene");
    assert_eq!(recent[1].id, "file.save");
    assert!(recent.len() >= 5 && recent.len() <= 10);
}

#[test]
fn palette_search_ranks_matches() {
    let mut p = CommandPalette::default();
    p.register(Command::new("custom.save_copy", "Copy", "save a copy", CommandCategory::File, CommandResult::Success(None)));
    let r = p.search("save");
    // "Save" (exact) first, then "Save All" (prefix), then id/description matches
    assert_eq!(r[0].id, "file.save");
    assert_eq!(r[1].id, "file.save_all");
    assert!(r.iter().any(|c| c.id == "custom.save_copy"));
    assert!(p.search("zzz").is_empty());
    assert_eq!(CommandCategory::Asset.display_name(), "Assets");
    // registering an existing id replaces the command
    p.register(Command::new("file.save", "Store", "", CommandCategory::File, CommandResult::Success(None)));
    assert_eq!(p.get("file.save").unwrap().title, "Store");
    assert_eq!(p.len(), 13);
}

#[test]
fn panel_toggle_and_layout() {
    let mut p = EditorPanel::new(PanelKind::ScriptEditor);
    assert_eq!(p.id.as_str(), "scripteditor");
    assert_eq!(p.title, "Script Editor");
    assert_eq!(p.dock, DockArea::Center);
    assert!(p.is_visible());
    p.toggle();
    assert_eq!(p.state, PanelState::Hidden);
    p.state = PanelState::Maximized;
    assert!(p.is_visible());
    p.toggle();
    assert!(!p.is_visible());

    let mut layout = PanelLayout::default();
    assert_eq!(layout.panels.len(), 7);
    assert_eq!(layout.visible_panels().len(), 6);
    assert!(layout.find(PanelKind::AiAssistant).map(|p| !p.is_visible()).unwrap());
    layout.toggle_panel(PanelKind::AiAssistant);
    assert_eq!(layout.visible_panels().len(), 7);
    let right: Vec<&str> = layout.panels_in_dock(DockArea::Right).iter().map(|p| p.id.as_str()).collect();
    assert_eq!(right, vec!["inspector", "aiassistant"]);
    assert_eq!(layout.panels_in_dock(DockArea::Bottom).len(), 2);
    assert!(layout.find(PanelKind::PluginManager).is_none());
    layout.toggle_panel(PanelKind::PluginManager);
    assert_eq!(layout.visible_panels().len(), 7);
}

#[test]
fn project_config_defaults() {
    let c = ProjectConfig::default();
    assert_eq!(c.name, "Untitled Project");
    assert_eq!(c.version, "0.1.0");
    assert_eq!(c.engine_version, "^0.1.0");
    assert_eq!(c.main_scene.as_deref(), Some("scenes/main.uscn"));
    assert!(c.export.web && !c.export.ios);
    assert!(c.custom.is_object());
}

#[test]
fn status_bar_items_and_updates() {
    let mut bar: StatusBar<u32> = StatusBar::new();
    let left: Vec<&str> = bar.left_items().iter().map(|i| i.id.as_str()).collect();
    let right: Vec<&str> = bar.right_items().iter().map(|i| i.id.as_str()).collect();
    assert_eq!(left, vec!["engine", "project"]);
    assert_eq!(right, vec!["fps", "memory"]);
    bar.set_item("fps", "60 FPS");
    assert_eq!(bar.right_items()[0].text, "60 FPS");
    bar.set_item("missing", "x");
    assert_eq!(bar.left_items()[0].text, "Ummerse v0.1.0");
    let item: StatusBarItem<u32> = StatusBarItem::right("net", "online").with_tooltip("network").with_color(7);
    assert_eq!(item.tooltip.as_deref(), Some("network"));
    assert_eq!(item.color, Some(7));
    assert!(item.align_right);
}

#[test]
fn viewport_selection_rules() {
    let mut sel: Vec<String> = Vec::new();
    select_node(&mut sel, "a".to_string(), false);
    select_node(&mut sel, "b".to_string(), true);
    select_node(&mut sel, "a".to_string(), true);
    assert_eq!(sel, vec!["a", "b"]);
    select_node(&mut sel, "c".to_string(), false);
    assert_eq!(sel, vec!["c"]);
    clear_selection(&mut sel);
    assert!(sel.is_empty());
}
