use ummerse::engine_core::input::{InputAction, InputManager, InputState, KeyCode, MouseButton};

#[test]
fn test_key_just_pressed() {
    let mut manager = InputManager::new();
    manager.begin_frame();
    manager.on_key_down(KeyCode::W);
    assert!(manager.state.is_key_just_pressed(KeyCode::W));
    assert!(manager.state.is_key_pressed(KeyCode::W));
    assert!(!manager.state.is_key_just_released(KeyCode::W));
}

#[test]
fn test_key_held_not_just_pressed() {
    let mut manager = InputManager::new();
    manager.begin_frame();
    manager.on_key_down(KeyCode::W);
    manager.begin_frame();
    manager.on_key_down(KeyCode::W);
    assert!(!manager.state.is_key_just_pressed(KeyCode::W));
    assert!(manager.state.is_key_pressed(KeyCode::W));
}

#[test]
fn test_get_axis() {
    let mut manager = InputManager::new();
    manager.begin_frame();
    manager.on_key_down(KeyCode::D);
    let axis = manager.get_axis("move_left", "move_right");
    assert!((axis as f32 - 1.0).abs() < 0.001);
}

#[test]
fn axis_cancels_and_goes_negative() {
    let mut manager = InputManager::default();
    manager.on_key_down(KeyCode::A);
    assert_eq!(manager.get_axis("move_left", "move_right"), -1);
    manager.on_key_down(KeyCode::Right);
    assert_eq!(manager.get_axis("move_left", "move_right"), 0);
    assert_eq!(manager.get_axis("no_such_action", "also_missing"), 0);
}

#[test]
fn key_release_cycle() {
    let mut manager = InputManager::new();
    manager.on_key_down(KeyCode::Space);
    assert!(manager.is_action_just_pressed("jump"));
    assert!(manager.is_action_pressed("ui_accept"));
    manager.begin_frame();
    assert!(!manager.is_action_just_pressed("jump"));
    assert!(manager.is_action_pressed("jump"));
    manager.on_key_up(KeyCode::Space);
    assert!(!manager.state.is_key_pressed(KeyCode::Space));
    assert!(manager.state.is_key_just_released(KeyCode::Space));
    assert!(manager.is_action_just_released("jump"));
    manager.begin_frame();
    assert!(!manager.state.is_key_just_released(KeyCode::Space));
    // after going up, going down again is a fresh press
    manager.on_key_down(KeyCode::Space);
    assert!(manager.state.is_key_just_pressed(KeyCode::Space));
}

#[test]
fn mouse_buttons_and_custom_actions() {
    let mut manager = InputManager::new();
    manager.register_action(InputAction::new("shoot").with_mouse(MouseButton::Left).with_key(KeyCode::F));
    assert!(!manager.is_action_pressed("shoot"));
    manager.on_mouse_down(MouseButton::Left);
    assert!(manager.state.is_mouse_just_pressed(MouseButton::Left));
    assert!(manager.is_action_just_pressed("shoot"));
    manager.on_mouse_up(MouseButton::Left);
    assert!(manager.state.is_mouse_just_released(MouseButton::Left));
    assert!(!manager.state.is_mouse_pressed(MouseButton::Left));
    // re-registering replaces the bindings
    manager.register_action(InputAction::new("jump").with_key(KeyCode::J));
    manager.begin_frame();
    manager.on_key_down(KeyCode::Space);
    assert!(!manager.is_action_pressed("jump"));
    manager.on_key_down(KeyCode::J);
    assert!(manager.is_action_pressed("jump"));
    assert!(manager.state.is_key_pressed(KeyCode::Unknown(7)) == false);
}

#[test]
fn empty_state() {
    let s = InputState::default();
    assert!(!s.is_key_pressed(KeyCode::A));
    assert!(!s.is_mouse_pressed(MouseButton::Other(4)));
}
