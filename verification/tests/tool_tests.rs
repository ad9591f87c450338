use ummerse::tools::tool::{EngineTool, ReadFileTool, ToolCategory, WriteFileTool, DeleteFileTool, GetSceneTreeTool};

#[test]
fn test_write_requires_approval() {
    let tool = WriteFileTool;
    assert!(tool.requires_approval());

    let read_tool = ReadFileTool;
    assert!(!read_tool.requires_approval());
}

#[test]
fn tool_names_and_categories() {
    assert_eq!(ReadFileTool.name(), "read_file");
    assert_eq!(ReadFileTool.category(), ToolCategory::FileSystem);
    assert_eq!(DeleteFileTool.name(), "delete_file");
    assert!(DeleteFileTool.requires_approval());
    assert_eq!(GetSceneTreeTool.category(), ToolCategory::SceneTree);
    assert_eq!(GetSceneTreeTool.category().display_name(), "Scene Tree");
    assert_eq!(ToolCategory::FileSystem.display_name(), "File System");
    assert_eq!(ToolCategory::General.display_name(), "General");
}

use ummerse::tools::tool::ToolRegistry;
use ummerse::tools::protocol::{ToolResult, ToolResultContent, ToolCall, PluginMessage, LogLevel};

#[test]
fn test_registry_has_all_tools() {
    let registry = ToolRegistry::new();
    assert!(
        registry.len() >= 12,
        "Expected at least 12 tools, got {}",
        registry.len()
    );
    assert!(registry.get("read_file").is_some());
    assert!(registry.get("write_file").is_some());
    assert!(registry.get("get_scene_tree").is_some());
    assert!(registry.get("create_node").is_some());
    assert!(registry.get("execute_command").is_some());
}

#[test]
fn registry_lookup_and_sorted_names() {
    let mut registry = ToolRegistry::default();
    assert_eq!(registry.len(), 12);
    assert!(!registry.is_empty());
    assert!(registry.get("nonexistent_tool").is_none());
    let tool = registry.get("write_file").unwrap();
    assert!(tool.requires_approval());
    assert_eq!(tool.name(), "write_file");
    let names = registry.tool_names();
    assert_eq!(names.len(), 12);
    assert_eq!(names[0], "create_node");
    assert_eq!(names[11], "write_file");
    for w in names.windows(2) {
        assert!(w[0] < w[1]);
    }
    // registering under an existing name replaces the tool
    registry.register(Box::new(ReadFileTool));
    assert_eq!(registry.len(), 12);
}

struct EchoTool;
impl EngineTool for EchoTool {
    fn name(&self) -> &str {
        "echo"
    }
    fn description(&self) -> &str {
        "Echoes its input."
    }
}

#[test]
fn registry_takes_custom_tools() {
    let mut registry = ToolRegistry::new();
    registry.register(Box::new(EchoTool));
    assert_eq!(registry.len(), 13);
    let echo = registry.get("echo").unwrap();
    assert!(!echo.requires_approval());
    assert_eq!(echo.category(), ToolCategory::General);
    assert_eq!(registry.tool_names()[3], "echo");
}

#[test]
fn test_tool_result_ok_text() {
    let result = ToolResult::ok_text("id-1", "read_file", "file contents here");
    assert!(!result.is_error);
    assert_eq!(result.text(), Some("file contents here"));
}

#[test]
fn test_tool_result_error() {
    let result = ToolResult::error("id-2", "write_file", "Permission denied");
    assert!(result.is_error);
    assert_eq!(result.text(), Some("Permission denied"));
}

#[test]
fn tool_result_text_skips_other_pieces() {
    let content = vec![
        ToolResultContent::Json { data: serde_json::Value::Null },
        ToolResultContent::Text { text: "second".to_string() },
        ToolResultContent::Text { text: "third".to_string() },
    ];
    let result = ToolResult::success("id-3", "list_files", content);
    assert!(!result.is_error);
    assert_eq!(result.text(), Some("second"));
    let empty = ToolResult::success("id-4", "list_files", Vec::new());
    assert_eq!(empty.text(), None);
}

#[test]
fn tool_call_ids() {
    let call = ToolCall::new("read_file", serde_json::Value::Null);
    assert_eq!(call.id.chars().count(), 36);
    assert_eq!(call.name, "read_file");
    let other = ToolCall::new("read_file", serde_json::Value::Null);
    assert_ne!(call.id, other.id);
    let fixed = ToolCall::with_id("abc", "get_scene_tree", serde_json::Value::Null);
    assert_eq!(fixed.id, "abc");
    assert_eq!(fixed.get_str("path"), None);
}

#[test]
fn fire_and_forget_messages() {
    let log = PluginMessage::Log { level: LogLevel::Info, message: "hi".to_string(), plugin_id: "p".to_string() };
    assert!(log.is_fire_and_forget());
    assert!(PluginMessage::Shutdown.is_fire_and_forget());
    assert!(PluginMessage::SubscribeEvent { event_type: "save".to_string() }.is_fire_and_forget());
    assert!(!PluginMessage::Ping { seq: 1 }.is_fire_and_forget());
    assert!(!PluginMessage::Error { code: "E".to_string(), message: "m".to_string() }.is_fire_and_forget());
}

#[test]
fn tool_call_reads_string_and_bool_parameters() {
    let mut m = serde_json::Map::new();
    m.insert("path".to_string(), serde_json::Value::from("a.txt"));
    m.insert("recursive".to_string(), serde_json::Value::from(true));
    m.insert("depth".to_string(), serde_json::Value::from(3));
    let call = ummerse::tools::protocol::ToolCall::with_id("1", "list_files", serde_json::Value::Object(m));
    assert_eq!(call.get_str("path"), Some("a.txt"));
    assert_eq!(call.get_bool("recursive"), Some(true));
    assert_eq!(call.get_str("depth"), None);
    assert_eq!(call.get_bool("path"), None);
    assert_eq!(call.get_str("missing"), None);
    let not_object = ummerse::tools::protocol::ToolCall::with_id("2", "x", serde_json::Value::from(5));
    assert_eq!(not_object.get_str("path"), None);
}

#[test]
fn tool_call_ids_are_v4_uuids() {
    let c = ToolCall::new("x", serde_json::Value::Null);
    assert_eq!(c.id.len(), 36);
    assert_eq!(c.id.chars().nth(14), Some('4'));
    assert_eq!(c.id.chars().nth(8), Some('-'));
    assert!(matches!(c.id.chars().nth(19), Some('8' | '9' | 'a' | 'b')));
}
