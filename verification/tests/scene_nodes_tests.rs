use ummerse::engine_core::node::NodeType;
use ummerse::scene_nodes::{Area2d, Area3d, Node2d, Node3d, TileMap};

#[test]
fn test_tilemap_cells() {
    let mut map = TileMap::new("map", 32, 32);
    map.set_cell(0, 0, 1);
    map.set_cell(1, 0, 2);
    assert_eq!(map.get_cell(0, 0), Some(1));
    assert_eq!(map.get_cell(1, 0), Some(2));
    assert_eq!(map.get_cell(0, 1), None);
    map.clear_cell(0, 0);
    assert_eq!(map.get_cell(0, 0), None);
}

#[test]
fn test_area2d_overlap_tracking() {
    let mut area = Area2d::new("trigger");
    area.add_overlap(42);
    area.add_overlap(99);
    assert!(area.has_body(42));
    assert!(area.has_body(99));
    area.remove_overlap(42);
    assert!(!area.has_body(42));
    assert_eq!(area.overlapping_bodies.len(), 1);
}

#[test]
fn tilemap_bounds_and_fill() {
    let mut map = TileMap::new("map", 16, 16);
    assert_eq!(map.bounds(), None);
    map.fill_rect(-1, 2, 1, 3, 7);
    assert_eq!(map.bounds(), Some(((-1, 2), (1, 3))));
    assert_eq!(map.get_cell(0, 3), Some(7));
    assert_eq!(map.get_cell(2, 3), None);
    map.set_cell(5, -4, 9);
    assert_eq!(map.bounds(), Some(((-1, -4), (5, 3))));
    map.set_cell(5, -4, 10);
    assert_eq!(map.get_cell(5, -4), Some(10));
    // An empty rectangle fills nothing.
    map.fill_rect(3, 3, 2, 2, 1);
    assert_eq!(map.get_cell(3, 3), None);
}

#[test]
fn area_trigger_and_duplicates() {
    let mut area = Area2d::trigger("zone");
    assert!(!area.monitorable);
    assert!(area.monitoring);
    area.add_overlap(5);
    area.add_overlap(5);
    assert_eq!(area.overlapping_bodies, vec![5]);
}

#[test]
fn node2d_z_visibility_and_tags() {
    let mut n: Node2d<(f32, f32)> = Node2d::new("Player", (0.0, 0.0));
    assert_eq!(Node2d::<(f32, f32)>::node_type(), NodeType::Node2d);
    n.z_index = 3;
    assert_eq!(n.effective_z_index(10), 13);
    n.z_as_relative = false;
    assert_eq!(n.effective_z_index(10), 3);
    assert!(n.inherited_visibility(true));
    assert!(!n.inherited_visibility(false));
    n.add_tag("hero");
    n.add_tag("hero");
    n.add_tag("blue");
    assert_eq!(n.tags, vec!["hero", "blue"]);
    n.remove_tag("hero");
    assert!(!n.has_tag("hero"));
    assert!(n.has_tag("blue"));
}

#[test]
fn node3d_tags() {
    let mut n: Node3d<u8> = Node3d::new("Cube", 0);
    assert_eq!(Node3d::<u8>::node_type(), NodeType::Node3d);
    assert!(n.visible && n.enabled);
    n.add_tag("static");
    assert!(n.has_tag("static"));
    n.remove_tag("static");
    assert!(n.tags.is_empty());
}

#[test]
fn area3d_starts_empty_and_reports_bodies() {
    let mut area = Area3d::new("zone");
    assert_eq!(area.name, "zone");
    assert_eq!(area.collision_layer, 1);
    assert_eq!(area.collision_mask, 1);
    assert!(area.monitoring);
    assert!(area.monitorable);
    assert!(!area.has_body(7));
    area.overlapping_bodies.push(7);
    area.overlapping_bodies.push(9);
    assert!(area.has_body(7));
    assert!(area.has_body(9));
    assert!(!area.has_body(8));
}
