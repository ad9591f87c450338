//! Engine configuration and the lifecycle state machine.
//!
//! The configuration here holds the integer, boolean and text settings; the
//! floating-point settings (frame-time cap, exposure, gamma, volumes) live with
//! the application shell.
use vstd::prelude::*;
use crate::text::owned;

verus! {

/// Window settings.
#[derive(Debug)]
pub struct WindowConfig {
    pub title: String,
    pub width: u32,
    pub height: u32,
    pub fullscreen: bool,
    pub resizable: bool,
    pub vsync: bool,
    pub min_width: u32,
    pub min_height: u32,
}

impl Default for WindowConfig {
    /// A resizable 1280x720 window titled "Ummerse Game" with vsync.
    fn default() -> (c: Self)
        ensures
            c.title@ == "Ummerse Game"@,
            c.width == 1280,
            c.height == 720,
            !c.fullscreen,
            c.resizable,
            c.vsync,
            c.min_width == 320,
            c.min_height == 240,
    {
        WindowConfig {
            title: owned("Ummerse Game"),
            width: 1280,
            height: 720,
            fullscreen: false,
            resizable: true,
            vsync: true,
            min_width: 320,
            min_height: 240,
        }
    }
}

/// Runtime settings (frame rates and threading).
#[derive(Debug, Clone, Copy)]
pub struct EngineSettings {
    /// Target frame rate (0 = unlimited).
    pub target_fps: u32,
    /// Physics rate in Hz.
    pub physics_fps: u32,
    pub multi_threaded: bool,
    /// Worker threads (0 = one per CPU core).
    pub worker_threads: usize,
}

impl Default for EngineSettings {
    fn default() -> (s: Self)
        ensures
            s.target_fps == 60,
            s.physics_fps == 60,
            s.multi_threaded,
            s.worker_threads == 0,
    {
        EngineSettings { target_fps: 60, physics_fps: 60, multi_threaded: true, worker_threads: 0 }
    }
}

/// Render backend choice.
#[derive(Debug, Clone, Copy, PartialEq, Eq, Structural)]
pub enum RenderBackend {
    Auto,
    Vulkan,
    Metal,
    Dx12,
    WebGl2,
    WebGpu,
}

/// Render settings.
#[derive(Debug, Clone, Copy)]
pub struct RenderConfig {
    pub backend: RenderBackend,
    /// MSAA samples (1/2/4/8).
    pub msaa_samples: u32,
    pub hdr_enabled: bool,
    pub shadow_map_size: u32,
}

impl Default for RenderConfig {
    fn default() -> (r: Self)
        ensures
            r.backend == RenderBackend::Auto,
            r.msaa_samples == 4,
            r.hdr_enabled,
            r.shadow_map_size == 2048,
    {
        RenderConfig { backend: RenderBackend::Auto, msaa_samples: 4, hdr_enabled: true, shadow_map_size: 2048 }
    }
}

/// Audio settings.
#[derive(Debug, Clone, Copy)]
pub struct AudioConfig {
    pub sample_rate: u32,
    pub buffer_size: u32,
}

impl Default for AudioConfig {
    fn default() -> (a: Self)
        ensures
            a.sample_rate == 44100,
            a.buffer_size == 1024,
    {
        AudioConfig { sample_rate: 44100, buffer_size: 1024 }
    }
}

/// Log verbosity.
#[derive(Debug, Clone, Copy, PartialEq, Eq, Structural)]
pub enum LogLevel {
    Error,
    Warn,
    Info,
    Debug,
    Trace,
}

/// Debug overlays and logging.
#[derive(Debug, Clone, Copy)]
pub struct DebugConfig {
    pub show_fps: bool,
    pub show_collision: bool,
    pub show_wireframe: bool,
    pub log_level: LogLevel,
}

impl Default for DebugConfig {
    fn default() -> (d: Self)
        ensures
            !d.show_fps,
            !d.show_collision,
            !d.show_wireframe,
            d.log_level == LogLevel::Info,
    {
        DebugConfig { show_fps: false, show_collision: false, show_wireframe: false, log_level: LogLevel::Info }
    }
}

/// The whole engine configuration.
#[derive(Debug)]
pub struct EngineConfig {
    pub window: WindowConfig,
    pub engine: EngineSettings,
    pub render: RenderConfig,
    pub audio: AudioConfig,
    pub debug: DebugConfig,
}

/// Whether `c` holds every default setting.
pub open spec fn is_default_config(c: EngineConfig) -> bool {
    &&& c.window.title@ == "Ummerse Game"@
    &&& c.window.width == 1280 && c.window.height == 720
    &&& !c.window.fullscreen && c.window.resizable && c.window.vsync
    &&& c.window.min_width == 320 && c.window.min_height == 240
    &&& c.engine.target_fps == 60 && c.engine.physics_fps == 60
    &&& c.engine.multi_threaded && c.engine.worker_threads == 0
    &&& c.render.backend == RenderBackend::Auto && c.render.msaa_samples == 4
    &&& c.render.hdr_enabled && c.render.shadow_map_size == 2048
    &&& c.audio.sample_rate == 44100 && c.audio.buffer_size == 1024
    &&& !c.debug.show_fps && !c.debug.show_collision && !c.debug.show_wireframe
    &&& c.debug.log_level == LogLevel::Info
}

impl Default for EngineConfig {
    fn default() -> (c: Self)
        ensures
            is_default_config(c),
    {
        EngineConfig {
            window: WindowConfig::default(),
            engine: EngineSettings::default(),
            render: RenderConfig::default(),
            audio: AudioConfig::default(),
            debug: DebugConfig::default(),
        }
    }
}

/// Lifecycle states of the engine.
#[derive(Debug, Clone, Copy, PartialEq, Eq, Structural)]
pub enum EngineState {
    Uninitialized,
    Running,
    /// Logic paused; rendering continues.
    Paused,
    /// Exits on the next frame.
    Stopping,
    Stopped,
}

impl EngineState {
    /// The state's name, as displayed.
    pub fn as_str(&self) -> (s: &'static str)
        ensures
            s@ == (match *self {
                EngineState::Uninitialized => "Uninitialized"@,
                EngineState::Running => "Running"@,
                EngineState::Paused => "Paused"@,
                EngineState::Stopping => "Stopping"@,
                EngineState::Stopped => "Stopped"@,
            }),
    {
        match self {
            EngineState::Uninitialized => "Uninitialized",
            EngineState::Running => "Running",
            EngineState::Paused => "Paused",
            EngineState::Stopping => "Stopping",
            EngineState::Stopped => "Stopped",
        }
    }
}

/// `initialize`: Uninitialized becomes Running; every other state stays.
pub open spec fn after_initialize(s: EngineState) -> EngineState {
    if s == EngineState::Uninitialized { EngineState::Running } else { s }
}

/// `pause`: Running becomes Paused; every other state stays.
pub open spec fn after_pause(s: EngineState) -> EngineState {
    if s == EngineState::Running { EngineState::Paused } else { s }
}

/// `resume`: Paused becomes Running; every other state stays.
pub open spec fn after_resume(s: EngineState) -> EngineState {
    if s == EngineState::Paused { EngineState::Running } else { s }
}

/// `quit`: every state but Stopping and Stopped becomes Stopping.
pub open spec fn after_quit(s: EngineState) -> EngineState {
    if s == EngineState::Stopping || s == EngineState::Stopped { s } else { EngineState::Stopping }
}

/// Engine core: configuration and lifecycle.
#[derive(Debug)]
pub struct Engine {
    pub config: EngineConfig,
    state: EngineState,
}

impl Engine {
    pub closed spec fn spec_state(&self) -> EngineState {
        self.state
    }

    pub closed spec fn spec_config(&self) -> EngineConfig {
        self.config
    }

    /// An uninitialized engine with the default configuration.
    pub fn new() -> (e: Engine)
        ensures
            e.spec_state() == EngineState::Uninitialized,
            is_default_config(e.spec_config()),
    {
        Engine { config: EngineConfig::default(), state: EngineState::Uninitialized }
    }

    /// An uninitialized engine with the given configuration.
    pub fn with_config(config: EngineConfig) -> (e: Engine)
        ensures
            e.spec_state() == EngineState::Uninitialized,
            e.spec_config() == config,
    {
        Engine { config, state: EngineState::Uninitialized }
    }

    pub fn state(&self) -> (s: EngineState)
        ensures
            s == self.spec_state(),
    {
        self.state
    }

    /// Uninitialized -> Running.
    pub fn initialize(&mut self)
        ensures
            final(self).spec_state() == after_initialize(old(self).spec_state()),
            final(self).spec_config() == old(self).spec_config(),
    {
        if self.state == EngineState::Uninitialized {
            self.state = EngineState::Running;
        }
    }

    /// Running -> Paused.
    pub fn pause(&mut self)
        ensures
            final(self).spec_state() == after_pause(old(self).spec_state()),
            final(self).spec_config() == old(self).spec_config(),
    {
        if self.state == EngineState::Running {
            self.state = EngineState::Paused;
        }
    }

    /// Paused -> Running.
    pub fn resume(&mut self)
        ensures
            final(self).spec_state() == after_resume(old(self).spec_state()),
            final(self).spec_config() == old(self).spec_config(),
    {
        if self.state == EngineState::Paused {
            self.state = EngineState::Running;
        }
    }

    /// Requests a stop on the next frame.
    pub fn quit(&mut self)
        ensures
            final(self).spec_state() == after_quit(old(self).spec_state()),
            final(self).spec_config() == old(self).spec_config(),
    {
        if !(self.state == EngineState::Stopping || self.state == EngineState::Stopped) {
            self.state = EngineState::Stopping;
        }
    }

    /// Marks the engine stopped, whatever its state.
    pub fn mark_stopped(&mut self)
        ensures
            final(self).spec_state() == EngineState::Stopped,
            final(self).spec_config() == old(self).spec_config(),
    {
        self.state = EngineState::Stopped;
    }

    pub fn is_running(&self) -> (b: bool)
        ensures
            b == (self.spec_state() == EngineState::Running),
    {
        self.state == EngineState::Running
    }

    /// Running or Paused.
    pub fn is_active(&self) -> (b: bool)
        ensures
            b == (self.spec_state() == EngineState::Running || self.spec_state() == EngineState::Paused),
    {
        self.state == EngineState::Running || self.state == EngineState::Paused
    }

    /// Physics steps per second: the configured physics rate, at least 1.
    /// The physics time step is its reciprocal.
    pub fn physics_rate(&self) -> (r: u32)
        ensures
            r == (if self.spec_config().engine.physics_fps == 0 { 1 } else { self.spec_config().engine.physics_fps }),
    {
        if self.config.engine.physics_fps == 0 {
            1
        } else {
            self.config.engine.physics_fps
        }
    }
}

impl Default for Engine {
    fn default() -> (e: Self)
        ensures
            e.spec_state() == EngineState::Uninitialized,
            is_default_config(e.spec_config()),
    {
        Engine::new()
    }
}

/// Pausing a running engine and resuming it brings it back to Running;
/// resuming a paused engine and pausing it brings it back to Paused.
pub proof fn law_pause_resume_round_trip(s: EngineState)
    ensures
        s == EngineState::Running ==> after_resume(after_pause(s)) == s,
        s == EngineState::Paused ==> after_pause(after_resume(s)) == s,
{
}

/// Once stopping or stopped, no call but `mark_stopped` changes the state,
/// and `quit` is idempotent.
pub proof fn law_stop_is_final(s: EngineState)
    ensures
        s == EngineState::Stopping || s == EngineState::Stopped ==> {
            &&& after_initialize(s) == s
            &&& after_pause(s) == s
            &&& after_resume(s) == s
            &&& after_quit(s) == s
        },
        after_quit(after_quit(s)) == after_quit(s),
{
}

/// Every transition keeps the engine out of Uninitialized once it has left it.
pub proof fn law_never_back_to_uninitialized(s: EngineState)
    requires
        s != EngineState::Uninitialized,
    ensures
        after_initialize(s) != EngineState::Uninitialized,
        after_pause(s) != EngineState::Uninitialized,
        after_resume(s) != EngineState::Uninitialized,
        after_quit(s) != EngineState::Uninitialized,
{
}

} // verus!
