use ummerse::engine_core::signal::{ConnectionId, SignalBusConnections, SignalConnections};

#[test]
fn signal_emit_calls_every_connection_in_order() {
    let mut s = SignalConnections::new();
    let a = s.connect(false);
    let b = s.connect(false);
    assert_ne!(a, b);
    assert_eq!(s.connection_count(), 2);
    assert_eq!(s.emit(), vec![a, b]);
    assert_eq!(s.emit(), vec![a, b]);
}

#[test]
fn signal_one_shot_fires_once() {
    let mut s = SignalConnections::new();
    let keep = s.connect(false);
    let once = s.connect(true);
    assert_eq!(s.emit(), vec![keep, once]);
    assert_eq!(s.connection_count(), 1);
    assert_eq!(s.emit(), vec![keep]);
}

#[test]
fn signal_disconnect_and_disconnect_all() {
    let mut s = SignalConnections::new();
    s.connect_with_id(ConnectionId(1), false);
    s.connect_with_id(ConnectionId(2), false);
    s.disconnect(ConnectionId(1));
    assert_eq!(s.emit(), vec![ConnectionId(2)]);
    s.disconnect_all();
    assert!(!s.is_connected());
    assert!(s.emit().is_empty());
}

#[test]
fn signal_connection_id_text() {
    assert_eq!(ConnectionId(0x1234).to_text(), "00000000-0000-0000-0000-000000001234");
    assert_ne!(ConnectionId::new().0, 0);
}

#[test]
fn signal_bus_named_connections() {
    let mut bus = SignalBusConnections::new();
    bus.connect_with_id("pressed", ConnectionId(1));
    bus.connect_with_id("pressed", ConnectionId(2));
    bus.connect_with_id("released", ConnectionId(3));
    assert_eq!(bus.emit("pressed"), vec![ConnectionId(1), ConnectionId(2)]);
    assert!(bus.emit("missing").is_empty());
    assert!(bus.has_connections("released"));
    bus.disconnect("released", ConnectionId(3));
    assert!(!bus.has_connections("released"));
    // The name stays after its last connection leaves.
    let mut names = bus.signal_names();
    names.sort();
    assert_eq!(names, vec!["pressed".to_string(), "released".to_string()]);
    bus.disconnect_all("pressed");
    assert!(!bus.has_connections("pressed"));
    assert_eq!(bus.signal_names(), vec!["released".to_string()]);
}

#[test]
fn signal_bus_random_ids() {
    let mut bus = SignalBusConnections::new();
    let a = bus.connect("tick");
    let b = bus.connect("tick");
    assert_ne!(a, b);
    assert_eq!(bus.emit("tick"), vec![a, b]);
}
