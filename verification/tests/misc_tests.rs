use ummerse::audio::{AttenuationModel, PlaybackState};
use ummerse::editor::viewport::{ViewportMode, ViewportState};
use ummerse::engine_core::event::{AssetLoaded, SceneLoaded, WindowResized};
use ummerse::mcp::{classify_method, method_not_found_message, route, McpMethod, McpServer, METHOD_NOT_FOUND};
use ummerse::scene::SceneMetadata;

#[test]
fn viewport_defaults() {
    let v = ViewportState::default();
    assert_eq!(v.width, 1280);
    assert_eq!(v.height, 720);
    assert_eq!(v.mode, ViewportMode::Mode2d);
    assert!(v.show_grid && v.show_gizmos);
    assert!(!v.show_colliders && !v.show_bones);
}

#[test]
fn events_copy_their_fields() {
    let e = WindowResized { width: 1280, height: 720 };
    assert_eq!(e, WindowResized { width: 1280, height: 720 });
    let a = AssetLoaded { path: "player.png".to_string(), asset_type: "Image".to_string() };
    let b = a.clone();
    assert_eq!(b.path, "player.png");
    assert_eq!(b.asset_type, "Image");
    let s = SceneLoaded { scene_name: "main".to_string() }.clone();
    assert_eq!(s.scene_name, "main");
}

#[test]
fn mcp_routing() {
    assert_eq!(route(true, "initialize"), Some(McpMethod::Initialize));
    assert_eq!(route(true, "tools/list"), Some(McpMethod::ToolsList));
    assert_eq!(route(true, "tools/call"), Some(McpMethod::ToolsCall));
    assert_eq!(route(true, "ping"), Some(McpMethod::Ping));
    assert_eq!(route(true, "resources/list"), Some(McpMethod::ResourcesList));
    assert_eq!(route(true, "prompts/list"), Some(McpMethod::PromptsList));
    assert_eq!(route(true, "unknown/method"), Some(McpMethod::Unknown));
    assert_eq!(route(false, "notifications/initialized"), None);
    assert_eq!(classify_method("Ping"), McpMethod::Unknown);
    assert_eq!(METHOD_NOT_FOUND, -32601);
    assert_eq!(
        method_not_found_message("unknown/method"),
        "Method 'unknown/method' not found. Supported: initialize, tools/list, tools/call, ping"
    );
}

#[test]
fn mcp_server_identity() {
    let s = McpServer::new(7u32);
    assert_eq!(s.name(), "ummerse-mcp");
    assert_eq!(s.version(), "0.1.0");
    assert_eq!(*s.bridge(), 7);
}

#[test]
fn small_vocabularies() {
    assert_ne!(PlaybackState::Playing, PlaybackState::Paused);
    assert_ne!(AttenuationModel::Off, AttenuationModel::Linear);
    let m = SceneMetadata::default();
    assert!(m.description.is_empty() && m.author.is_empty() && m.tags.is_empty() && m.asset_dependencies.is_empty());
}

#[test]
fn node_properties_read_back() {
    let mut d = ummerse::scene::SceneNodeData::new("n", ummerse::engine_core::node::NodeType::Node);
    assert!(d.get_property("speed").is_none());
    d.set_property("speed", serde_json::Value::from(3));
    d.set_property("name", serde_json::Value::from("hero"));
    assert_eq!(d.get_property("speed"), Some(&serde_json::Value::from(3)));
    d.set_property("speed", serde_json::Value::from(5));
    assert_eq!(d.get_property("speed"), Some(&serde_json::Value::from(5)));
    assert_eq!(d.get_property("name"), Some(&serde_json::Value::from("hero")));
}

#[test]
fn contact_pairs_enter_persist_exit() {
    let mut c = ummerse::physics::ContactPairs::new();
    assert_eq!(c.record_contact(5, 2), ummerse::physics::CollisionEventKind::Entered);
    assert_eq!(c.record_contact(3, 4), ummerse::physics::CollisionEventKind::Entered);
    assert_eq!(c.record_contact(2, 5), ummerse::physics::CollisionEventKind::Persisted);
    assert_eq!(ummerse::physics::contact_pair(9, 1), (1, 9));
    let exited = c.remove_exited(&vec![(2, 5)]);
    assert_eq!(exited, vec![(3, 4)]);
    assert_eq!(c.record_contact(3, 4), ummerse::physics::CollisionEventKind::Entered);
    assert_eq!(c.record_contact(5, 2), ummerse::physics::CollisionEventKind::Persisted);
    assert_eq!(c.remove_exited(&vec![]), vec![(2, 5), (3, 4)]);
}
