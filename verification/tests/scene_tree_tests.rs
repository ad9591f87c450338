use ummerse::engine_core::node::{NodeId, NodeType};
use ummerse::kernel::error::EngineError;
use ummerse::scene::SceneNodeData;
use ummerse::scene_tree::SceneTree;

#[test]
fn test_create_root() {
    let mut tree = SceneTree::new();
    let root_id = tree.create_root("Root");
    assert!(tree.root().is_some());
    assert_eq!(tree.node_count(), 1);
    assert!(tree.get(root_id).is_some());
}

#[test]
fn test_add_child_node() {
    let mut tree = SceneTree::new();
    let root_id = tree.create_root("Root");
    let child = SceneNodeData::new("Player", NodeType::Node2d);
    let child_id = tree.add_node(child, Some(root_id)).unwrap();
    assert_eq!(tree.node_count(), 2);
    let root = tree.get(root_id).unwrap();
    assert!(root.children.contains(&child_id));
}

#[test]
fn test_path_lookup() {
    let mut tree = SceneTree::new();
    let root_id = tree.create_root("Root");
    let child = SceneNodeData::new("Player", NodeType::Node2d);
    tree.add_node(child, Some(root_id)).unwrap();
    assert!(tree.get_by_path("/Root/Player").is_some());
}

#[test]
fn test_remove_node() {
    let mut tree = SceneTree::new();
    let root_id = tree.create_root("Root");
    let child = SceneNodeData::new("Enemy", NodeType::Node2d);
    let child_id = tree.add_node(child, Some(root_id)).unwrap();
    tree.remove_node(child_id).unwrap();
    assert_eq!(tree.node_count(), 1);
}

fn sample() -> (SceneTree, NodeId, NodeId, NodeId, NodeId) {
    // Root -> Player -> Weapon, Root -> Enemy
    let mut tree = SceneTree::new();
    let root = tree.create_root("Root");
    let player = tree.add_node(SceneNodeData::new("Player", NodeType::Node2d), Some(root)).unwrap();
    let weapon = tree.add_node(SceneNodeData::new("Weapon", NodeType::Sprite2d), Some(player)).unwrap();
    let enemy = tree.add_node(SceneNodeData::new("Enemy", NodeType::Node2d), Some(root)).unwrap();
    (tree, root, player, weapon, enemy)
}

#[test]
fn scene_tree_paths_follow_parents() {
    let (tree, root, player, weapon, _) = sample();
    assert_eq!(tree.path_of(root).as_deref(), Some("/Root"));
    assert_eq!(tree.path_of(player).as_deref(), Some("/Root/Player"));
    assert_eq!(tree.path_of(weapon).as_deref(), Some("/Root/Player/Weapon"));
    assert_eq!(tree.get_by_path("/Root/Player/Weapon").unwrap().id, weapon);
    assert!(tree.get_by_path("/Root/Nobody").is_none());
}

#[test]
fn scene_tree_add_under_missing_parent_is_refused() {
    let mut tree = SceneTree::new();
    tree.create_root("Root");
    let ghost = NodeId(42);
    let r = tree.add_node(SceneNodeData::new("Lost", NodeType::Node), Some(ghost));
    match r {
        Err(EngineError::NodeNotFound { path }) => {
            assert_eq!(path, uuid::Uuid::from_u128(42).to_string());
        }
        _ => panic!("expected NodeNotFound"),
    }
    assert_eq!(tree.node_count(), 1);
}

#[test]
fn scene_tree_top_level_node_becomes_root_only_once() {
    let mut tree = SceneTree::new();
    let a = tree.add_node(SceneNodeData::new("A", NodeType::Node), None).unwrap();
    let b = tree.add_node(SceneNodeData::new("B", NodeType::Node), None).unwrap();
    assert_eq!(tree.root(), Some(a));
    assert_ne!(tree.root(), Some(b));
    assert_eq!(tree.path_of(b).as_deref(), Some("/B"));
}

#[test]
fn scene_tree_remove_takes_the_subtree() {
    let (mut tree, root, player, weapon, enemy) = sample();
    tree.remove_node(player).unwrap();
    assert_eq!(tree.node_count(), 2);
    assert!(tree.get(player).is_none());
    assert!(tree.get(weapon).is_none());
    assert!(tree.get_by_path("/Root/Player/Weapon").is_none());
    assert_eq!(tree.get(root).unwrap().children, vec![enemy]);
    assert_eq!(tree.path_of(enemy).as_deref(), Some("/Root/Enemy"));
}

#[test]
fn scene_tree_rename_refiles_path() {
    let (mut tree, _, player, _, _) = sample();
    tree.rename_node(player, "Hero").unwrap();
    assert_eq!(tree.get(player).unwrap().name, "Hero");
    assert_eq!(tree.path_of(player).as_deref(), Some("/Root/Hero"));
    assert!(tree.get_by_path("/Root/Player").is_none());
    // The child keeps its old cached path: only the renamed node is refiled.
    assert!(tree.get_by_path("/Root/Player/Weapon").is_some());
}

#[test]
fn scene_tree_rename_missing_node_is_refused() {
    let (mut tree, _, _, _, _) = sample();
    let r = tree.rename_node(NodeId(7), "X");
    assert!(matches!(r, Err(EngineError::NodeNotFound { .. })));
}

#[test]
fn scene_tree_reparent_moves_and_rebuilds() {
    let (mut tree, root, player, weapon, enemy) = sample();
    tree.reparent(weapon, Some(enemy)).unwrap();
    assert_eq!(tree.get(weapon).unwrap().parent, Some(enemy));
    assert!(tree.get(player).unwrap().children.is_empty());
    assert_eq!(tree.get(enemy).unwrap().children, vec![weapon]);
    assert_eq!(tree.path_of(weapon).as_deref(), Some("/Root/Enemy/Weapon"));
    assert!(tree.get_by_path("/Root/Player/Weapon").is_none());
    assert_eq!(tree.depth_of(weapon), 2);
    assert!(tree.is_ancestor_of(enemy, weapon));
    assert!(tree.is_ancestor_of(root, weapon));
    assert!(!tree.is_ancestor_of(player, weapon));
}

#[test]
fn scene_tree_reparent_to_missing_parent_is_refused() {
    let (mut tree, _, player, weapon, _) = sample();
    let r = tree.reparent(weapon, Some(NodeId(9)));
    assert!(matches!(r, Err(EngineError::NodeNotFound { .. })));
    // The node has already left its old parent's children.
    assert!(tree.get(player).unwrap().children.is_empty());
    assert_eq!(tree.get(weapon).unwrap().parent, Some(player));
}

#[test]
fn scene_tree_depth_and_ancestors() {
    let (tree, root, player, weapon, _) = sample();
    assert_eq!(tree.depth_of(root), 0);
    assert_eq!(tree.depth_of(weapon), 2);
    assert_eq!(tree.depth_of(NodeId(5)), 0);
    let ancestors: Vec<NodeId> = tree.ancestors_of(weapon).iter().map(|n| n.id).collect();
    assert_eq!(ancestors, vec![player, root]);
    assert!(tree.ancestors_of(root).is_empty());
    assert!(!tree.is_ancestor_of(weapon, root));
}

#[test]
fn scene_tree_bfs_order_and_flatten() {
    let (tree, root, player, weapon, enemy) = sample();
    assert_eq!(tree.bfs_order(), vec![root, player, enemy, weapon]);
    let names: Vec<String> = tree.iter_bfs().iter().map(|n| n.name.clone()).collect();
    assert_eq!(names, vec!["Root", "Player", "Enemy", "Weapon"]);
    let flat = tree.flatten();
    assert_eq!(flat.len(), 4);
    assert_eq!(flat[3].id, weapon);
    assert_eq!(SceneTree::new().bfs_order(), Vec::<NodeId>::new());
}

#[test]
fn scene_tree_from_flat_restores_tree() {
    let (tree, root, player, weapon, enemy) = sample();
    let flat = tree.flatten();
    let back = SceneTree::from_flat(flat, Some(root));
    assert_eq!(back.node_count(), 4);
    assert_eq!(back.root(), Some(root));
    assert_eq!(back.path_of(weapon).as_deref(), Some("/Root/Player/Weapon"));
    assert_eq!(back.path_of(enemy).as_deref(), Some("/Root/Enemy"));
    assert_eq!(back.get(player).unwrap().children, vec![weapon]);
}

#[test]
fn scene_tree_siblings_and_children() {
    let (tree, root, player, weapon, enemy) = sample();
    let sib: Vec<NodeId> = tree.siblings_of(player).iter().map(|n| n.id).collect();
    assert_eq!(sib, vec![enemy]);
    assert!(tree.siblings_of(root).is_empty());
    let kids: Vec<NodeId> = tree.children_of(root).iter().map(|n| n.id).collect();
    assert_eq!(kids, vec![player, enemy]);
    assert!(tree.children_of(weapon).is_empty());
    assert!(tree.children_of(NodeId(3)).is_empty());
}

#[test]
fn scene_tree_flags() {
    let (mut tree, _, player, _, _) = sample();
    assert!(tree.set_enabled(player, false));
    assert!(tree.set_visible(player, false));
    let p = tree.get(player).unwrap();
    assert!(!p.enabled);
    assert!(!p.visible);
    assert!(!tree.set_enabled(NodeId(11), true));
    assert!(!tree.set_visible(NodeId(11), true));
}

#[test]
fn scene_tree_find_by_name_tag_type() {
    let (mut tree, _, player, weapon, enemy) = sample();
    tree.get_mut(enemy).unwrap().add_tag("hostile");
    assert_eq!(tree.find_by_name("Weapon").unwrap().id, weapon);
    assert!(tree.find_by_name("Nobody").is_none());
    let tagged: Vec<NodeId> = tree.find_by_tag("hostile").iter().map(|n| n.id).collect();
    assert_eq!(tagged, vec![enemy]);
    let two_d: Vec<NodeId> = tree.find_by_type(&NodeType::Node2d).iter().map(|n| n.id).collect();
    assert_eq!(two_d.len(), 2);
    assert!(two_d.contains(&player));
    assert!(two_d.contains(&enemy));
}

#[test]
fn scene_tree_duplicate_with_ids_copies_subtree() {
    let (mut tree, root, player, weapon, _) = sample();
    let copies = vec![NodeId(1001), NodeId(1002)];
    let new_player = tree.duplicate_with_ids(player, Some(root), &copies).unwrap();
    assert_eq!(new_player, NodeId(1001));
    assert_eq!(tree.node_count(), 6);
    let copy = tree.get(NodeId(1001)).unwrap();
    assert_eq!(copy.name, "Player");
    assert_eq!(copy.parent, Some(root));
    // The copy lists its copied child twice: once copied, once appended.
    assert_eq!(copy.children, vec![NodeId(1002), NodeId(1002)]);
    let weapon_copy = tree.get(NodeId(1002)).unwrap();
    assert_eq!(weapon_copy.parent, Some(NodeId(1001)));
    assert_eq!(weapon_copy.name, "Weapon");
    assert!(tree.get(root).unwrap().children.contains(&NodeId(1001)));
    assert!(tree.get(weapon).is_some());
    assert_eq!(tree.path_of(NodeId(1002)).as_deref(), Some("/Root/Player/Weapon"));
}

#[test]
fn scene_tree_duplicate_missing_node_is_refused() {
    let (mut tree, _, _, _, _) = sample();
    let r = tree.duplicate(NodeId(77), None);
    assert!(matches!(r, Err(EngineError::NodeNotFound { .. })));
    assert_eq!(tree.node_count(), 4);
}

#[test]
fn scene_tree_duplicate_draws_new_ids() {
    let (mut tree, root, _, weapon, _) = sample();
    let copy = tree.duplicate(weapon, Some(root)).unwrap();
    assert_ne!(copy, weapon);
    assert_eq!(tree.node_count(), 5);
    assert_eq!(tree.get(copy).unwrap().name, "Weapon");
    assert_eq!(tree.path_of(copy).as_deref(), Some("/Root/Weapon"));
}
