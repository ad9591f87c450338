use ummerse::audio::{bus_processing_order, bus_removable};

fn route(name: &str, to: Option<&str>) -> (String, Option<String>) {
    (name.to_string(), to.map(|t| t.to_string()))
}

#[test]
fn bus_order_default_graph() {
    let routing = vec![route("Master", None), route("Music", Some("Master")), route("SFX", Some("Master"))];
    assert_eq!(bus_processing_order(&routing), vec!["Music", "SFX", "Master"]);
}

#[test]
fn bus_order_children_first_depth_first() {
    let routing = vec![
        route("Voice", Some("SFX")),
        route("Master", None),
        route("SFX", Some("Master")),
        route("Music", Some("Master")),
        route("Steps", Some("SFX")),
    ];
    assert_eq!(bus_processing_order(&routing), vec!["Voice", "Steps", "SFX", "Music", "Master"]);
}

#[test]
fn bus_order_skips_unrouted_and_cycles() {
    let routing = vec![
        route("Master", Some("Loop")),
        route("Loop", Some("Master")),
        route("Orphan", Some("Nowhere")),
        route("A", Some("B")),
        route("B", Some("A")),
    ];
    // `Loop` sends to `Master`; `Master` is not visited twice.
    assert_eq!(bus_processing_order(&routing), vec!["Loop", "Master"]);
}

#[test]
fn bus_order_without_master_bus() {
    assert_eq!(bus_processing_order(&Vec::new()), vec!["Master"]);
}

#[test]
fn bus_master_is_not_removable() {
    assert!(!bus_removable("Master"));
    assert!(bus_removable("Music"));
    assert!(bus_removable("master"));
}
