use ummerse::kernel::engine::{EngineConfig, EngineState, Engine};
use ummerse::kernel::plugin::{Plugin, PluginRegistry};
use ummerse::kernel::error::EngineError;
use ummerse::kernel::app::AppBuilder;
use ummerse::engine_core::plugin::{Plugin as CorePlugin, PluginRegistry as CoreRegistry};

struct P;
impl CorePlugin for P {
    fn name(&self) -> &str {
        "P"
    }
    fn build(&self, _app: &mut EngineConfig) {}
}

struct DummyPlugin;
impl Plugin for DummyPlugin {
    fn name(&self) -> &str {
        "DummyPlugin"
    }
    fn build(&self, _app: &mut EngineConfig) {}
}

struct DupPlugin;
impl Plugin for DupPlugin {
    fn name(&self) -> &str {
        "DupPlugin"
    }
    fn build(&self, app: &mut EngineConfig) {
        app.window.width = 640;
    }
    fn allow_duplicates(&self) -> bool {
        true
    }
}

#[test]
fn test_register_plugin() {
    let mut registry = PluginRegistry::new();
    assert!(registry.register(DummyPlugin).is_ok());
    assert_eq!(registry.len(), 1);
}

#[test]
fn test_duplicate_plugin_rejected() {
    let mut registry = PluginRegistry::new();
    registry.register(DummyPlugin).unwrap();
    let result = registry.register(DummyPlugin);
    assert!(result.is_err());
}

#[test]
fn duplicate_error_names_the_plugin() {
    let mut registry = PluginRegistry::new();
    registry.register(DummyPlugin).unwrap();
    match registry.register(DummyPlugin) {
        Err(EngineError::PluginError { name, reason }) => {
            assert_eq!(name, "DummyPlugin");
            assert_eq!(reason, "Plugin already registered");
        }
        _ => panic!("expected a plugin error"),
    }
    assert_eq!(registry.plugin_names(), vec!["DummyPlugin"]);
}

#[test]
fn duplicates_allowed_when_plugin_says_so() {
    let mut registry = PluginRegistry::new();
    registry.register(DupPlugin).unwrap();
    registry.register(DupPlugin).unwrap();
    registry.register(DummyPlugin).unwrap();
    assert_eq!(registry.plugin_names(), vec!["DupPlugin", "DupPlugin", "DummyPlugin"]);
    let mut config = EngineConfig::default();
    registry.build_all(&mut config);
    assert_eq!(config.window.width, 640);
    registry.cleanup_all();
}

#[test]
fn app_builder_chain_and_build() {
    let app = AppBuilder::new()
        .title("My Game")
        .window_size(800, 600)
        .fullscreen(true)
        .vsync(false)
        .target_fps(144)
        .physics_fps(120)
        .add_plugin(DummyPlugin)
        .add_plugin(DupPlugin)
        .build();
    assert_eq!(app.plugin_count(), 2);
    assert_eq!(app.config().window.title, "My Game");
    // DupPlugin's build sets the width
    assert_eq!(app.config().window.width, 640);
    assert_eq!(app.config().window.height, 600);
    assert!(app.config().window.fullscreen);
    assert!(!app.config().window.vsync);
    assert_eq!(app.config().engine.target_fps, 144);
    assert_eq!(app.config().engine.physics_fps, 120);
    app.cleanup();
}

#[test]
fn test_state_transitions() {
    let mut engine = Engine::new();
    assert_eq!(engine.state(), EngineState::Uninitialized);

    engine.initialize();
    assert_eq!(engine.state(), EngineState::Running);
    assert!(engine.is_running());

    engine.pause();
    assert_eq!(engine.state(), EngineState::Paused);
    assert!(!engine.is_running());
    assert!(engine.is_active());

    engine.resume();
    assert_eq!(engine.state(), EngineState::Running);

    engine.quit();
    assert_eq!(engine.state(), EngineState::Stopping);
}

#[test]
fn engine_stop_is_final() {
    let mut engine = Engine::new();
    engine.quit();
    assert_eq!(engine.state(), EngineState::Stopping);
    engine.initialize();
    engine.resume();
    engine.quit();
    assert_eq!(engine.state(), EngineState::Stopping);
    engine.mark_stopped();
    assert_eq!(engine.state(), EngineState::Stopped);
    assert!(!engine.is_active());
}

#[test]
fn engine_default_config() {
    let c = EngineConfig::default();
    assert_eq!(c.window.title, "Ummerse Game");
    assert_eq!((c.window.width, c.window.height), (1280, 720));
    assert_eq!(c.engine.physics_fps, 60);
    assert_eq!(c.render.msaa_samples, 4);
    assert_eq!(c.audio.sample_rate, 44100);
}

#[test]
fn core_registry_rejects_duplicates() {
    let mut r = CoreRegistry::new();
    assert!(r.register(P).is_ok());
    assert!(r.register(P).is_err());
    assert_eq!(r.plugin_names(), vec!["P"]);
}

#[test]
fn plugin_defaults_when_not_overridden() {
    let p = DummyPlugin;
    assert_eq!(p.version(), "0.1.0");
    assert_eq!(p.description(), "");
    assert!(p.dependencies().is_empty());
    assert!(!p.allow_duplicates());
    let c = P;
    assert_eq!(CorePlugin::version(&c), "0.1.0");
    assert_eq!(CorePlugin::description(&c), "");
    assert!(CorePlugin::dependencies(&c).is_empty());
}

#[test]
fn core_build_all_runs_each_plugin() {
    let mut registry = CoreRegistry::new();
    assert!(registry.register(P).is_ok());
    let mut config = EngineConfig::default();
    let before = config.window.width;
    registry.build_all(&mut config);
    assert_eq!(config.window.width, before);
}
