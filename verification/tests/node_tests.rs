use ummerse::engine_core::node::{NodePath, NodeType};

#[test]
fn test_node_path_segments() {
    let path = NodePath::new("/Root/Player/Weapon");
    assert_eq!(path.segments(), vec!["Root", "Player", "Weapon"]);
    assert_eq!(path.name(), Some("Weapon"));
}

#[test]
fn test_node_path_parent() {
    let path = NodePath::new("/Root/Player/Weapon");
    let parent = path.parent().unwrap();
    assert_eq!(parent.as_str(), "/Root/Player");
}

#[test]
fn test_node_path_join() {
    let path = NodePath::new("/Root");
    let child = path.join("Player");
    assert_eq!(child.as_str(), "/Root/Player");
}

#[test]
fn test_node_type_classification() {
    assert!(NodeType::Sprite2d.is_2d());
    assert!(NodeType::MeshInstance3d.is_3d());
    assert!(NodeType::UiButton.is_ui());
    assert!(!NodeType::Node.is_2d());
}

#[test]
fn node_path_relative_parent_and_root() {
    let rel = NodePath::new("Player/Weapon");
    assert!(!rel.is_absolute());
    assert_eq!(rel.parent().unwrap().as_str(), "Player");
    assert!(NodePath::new("/Root").parent().is_none());
    assert!(NodePath::root().is_root());
    assert!(NodePath::root().segments().is_empty());
    assert_eq!(NodePath::root().name(), None);
    assert_eq!(NodePath::root().join("Root").as_str(), "/Root");
}

#[test]
fn node_path_empty_segments_are_skipped() {
    let p = NodePath::new("//a///b/");
    assert_eq!(p.segments(), vec!["a", "b"]);
    assert_eq!(p.parent().unwrap().as_str(), "/a");
}

#[test]
fn node_path_join_then_parent_round_trip() {
    let base = NodePath::new("/Root/Level");
    let joined = base.join("Enemy");
    assert_eq!(joined.name(), Some("Enemy"));
    assert_eq!(joined.parent().unwrap().segments(), base.segments());
}

#[test]
fn node_classes_are_disjoint() {
    for t in [NodeType::Node2d, NodeType::Camera3d, NodeType::UiSlider, NodeType::Label] {
        let n = [t.is_2d(), t.is_3d(), t.is_ui()].iter().filter(|b| **b).count();
        assert!(n <= 1);
    }
    assert!(!NodeType::Custom("Thing".to_string()).is_2d());
}

use ummerse::engine_core::node::{NodeId, NodeMeta};
use ummerse::scene::{Scene, SceneAsset, SceneNodeData};

#[test]
fn test_node_id_unique() {
    let id1 = NodeId::new();
    let id2 = NodeId::new();
    assert_ne!(id1, id2);
}

#[test]
fn node_ids_are_version_four_and_not_nil() {
    let id = NodeId::default();
    assert!(!id.is_nil());
    assert_eq!((id.0 >> 76) & 0xf, 4);
    assert!(NodeId(0).is_nil());
}

#[test]
fn node_meta_tags() {
    let m = NodeMeta::new("Player", NodeType::Sprite2d).with_tag("hero").with_tag("hero");
    assert_eq!(m.name, "Player");
    assert!(m.enabled && m.visible);
    assert_eq!(m.tags.len(), 2);
    assert!(m.has_tag("hero"));
    assert!(!m.has_tag("enemy"));
    assert!(m.parent.is_none() && m.children.is_empty());
}

#[test]
fn scene_node_data_tags_and_properties() {
    let mut d = SceneNodeData::new("Enemy", NodeType::Node2d);
    d.add_tag("enemy");
    d.add_tag("enemy");
    assert_eq!(d.tags.len(), 1);
    assert!(d.has_tag("enemy"));
    assert!(d.get_property("hp").is_none());
    d.set_property("hp", serde_json::Value::Bool(true));
    assert_eq!(d.get_property("hp"), Some(&serde_json::Value::Bool(true)));
}

#[test]
fn scene_assets() {
    let a = SceneAsset::new("Level1");
    assert_eq!(a.version, 1);
    assert!(a.nodes.is_empty() && a.root.is_none());
    let s = Scene::from_asset(a);
    assert_eq!(s.name(), "Level1");
    assert!(!s.loaded && !s.active);
}

#[test]
fn fresh_ids_are_version_4() {
    let n = ummerse::engine_core::node::NodeId::new();
    assert_eq!((n.0 >> 76) & 0xf, 4);
    assert_eq!((n.0 >> 62) & 0x3, 2);
    let c = ummerse::engine_core::signal::ConnectionId::new();
    assert_eq!((c.0 >> 76) & 0xf, 4);
    assert_eq!((c.0 >> 62) & 0x3, 2);
}
