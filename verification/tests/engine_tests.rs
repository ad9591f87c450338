use ummerse::kernel::engine::{Engine, EngineState};
use ummerse::kernel::app::AppBuilder;
use ummerse::physics::{CollisionEventKind, CollisionLayers};
use ummerse::runtime::platform::{BuildProfile, Platform, PlatformCapabilities};

#[test]
fn test_physics_delta() {
    let engine = Engine::new();
    let delta = 1.0 / engine.physics_rate() as f32;
    assert!((delta - 1.0 / 60.0).abs() < f32::EPSILON);
}

#[test]
fn physics_rate_is_at_least_one() {
    let app = AppBuilder::new().physics_fps(0).build();
    let mut config = ummerse::kernel::engine::EngineConfig::default();
    config.engine.physics_fps = app.config().engine.physics_fps;
    let engine = Engine::with_config(config);
    assert_eq!(engine.physics_rate(), 1);
}

#[test]
fn engine_state_names() {
    assert_eq!(EngineState::Uninitialized.as_str(), "Uninitialized");
    assert_eq!(EngineState::Running.as_str(), "Running");
    assert_eq!(EngineState::Paused.as_str(), "Paused");
    assert_eq!(EngineState::Stopping.as_str(), "Stopping");
    assert_eq!(EngineState::Stopped.as_str(), "Stopped");
}

#[test]
fn pause_resume_round_trip() {
    let mut e = Engine::default();
    e.initialize();
    e.pause();
    e.resume();
    assert_eq!(e.state(), EngineState::Running);
    // resume on a running engine changes nothing
    e.resume();
    assert_eq!(e.state(), EngineState::Running);
    e.initialize();
    assert_eq!(e.state(), EngineState::Running);
}

#[test]
fn platform_from_target() {
    assert_eq!(Platform::current("linux", "x86_64"), Platform::Linux);
    assert_eq!(Platform::current("windows", "x86_64"), Platform::Windows);
    assert_eq!(Platform::current("macos", "aarch64"), Platform::MacOs);
    assert_eq!(Platform::current("android", "aarch64"), Platform::Android);
    assert_eq!(Platform::current("ios", "aarch64"), Platform::Ios);
    assert_eq!(Platform::current("linux", "wasm32"), Platform::Web);
    assert_eq!(Platform::current("freebsd", "x86_64"), Platform::Unknown);
    assert!(Platform::Linux.is_desktop() && !Platform::Linux.is_mobile() && !Platform::Linux.is_web());
    assert!(Platform::Ios.is_mobile() && !Platform::Ios.is_desktop());
    assert!(Platform::Web.is_web() && !Platform::Web.is_desktop() && !Platform::Web.is_mobile());
    assert_eq!(Platform::Web.name(), "Web");
    assert!(!Platform::Web.supports_filesystem());
    assert!(Platform::Linux.supports_threads());
}

#[test]
fn capabilities_and_profile() {
    let c = PlatformCapabilities::detect("android", "aarch64", 8);
    assert_eq!(c.platform, Platform::Android);
    assert_eq!(c.cpu_cores, 8);
    assert_eq!(c.available_memory, 0);
    assert!(c.touch_support && !c.gamepad_support);
    let d = PlatformCapabilities::detect("linux", "x86_64", 4);
    assert!(!d.touch_support && d.gamepad_support);
    assert!(BuildProfile::current(true).is_debug());
    assert!(BuildProfile::current(false).is_release());
}

#[test]
fn collision_layers() {
    let a = CollisionLayers::only(0);
    let b = CollisionLayers::only(1);
    assert_eq!(a.membership, 1);
    assert_eq!(b.membership, 2);
    assert!(!a.interacts_with(&b));
    assert!(a.interacts_with(&CollisionLayers::only(0)));
    let all = CollisionLayers::all();
    assert!(all.interacts_with(&a) && a.interacts_with(&all));
    // one-sided filters still collide, symmetrically
    let c = CollisionLayers::new(1, 0);
    let d = CollisionLayers::new(0, 1);
    assert!(c.interacts_with(&d) && d.interacts_with(&c));
    assert!(!CollisionLayers::new(0, 0).interacts_with(&all));
    assert_eq!(CollisionLayers::default(), all);
    assert_ne!(CollisionEventKind::Entered, CollisionEventKind::Exited);
}
