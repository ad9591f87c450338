//! Application builder: chained configuration of the engine and its plugins.
use vstd::prelude::*;
use crate::kernel::engine::{EngineConfig, is_default_config};
use crate::kernel::plugin::{Plugin, builds_in_order, build_steps, one_more_plugin, append_to_list, empty_plugin_list};
use crate::text::owned;

verus! {

/// Builder of an [`App`].
pub struct AppBuilder {
    pub config: EngineConfig,
    plugins: Vec<Box<dyn Plugin>>,
    names: Vec<String>,
}

impl AppBuilder {
    /// The plugins, in the order they were added.
    pub closed spec fn spec_plugins(&self) -> Seq<Box<dyn Plugin>> {
        self.plugins@
    }

    /// Names of the plugins, in the order they were added.
    pub closed spec fn spec_plugin_names(&self) -> Seq<Seq<char>> {
        self.names@.map_values(|s: String| s@)
    }

    pub open spec fn spec_plugin_count(&self) -> nat {
        self.spec_plugin_names().len()
    }

    /// The configuration being built.
    pub closed spec fn spec_config(&self) -> EngineConfig {
        self.config
    }

    pub fn new() -> (b: AppBuilder)
        ensures
            is_default_config(b.spec_config()),
            b.spec_plugin_count() == 0,
            b.spec_plugins().len() == 0,
    {
        AppBuilder { config: EngineConfig::default(), plugins: empty_plugin_list(), names: Vec::new() }
    }

    /// Sets the window title.
    pub fn title(self, title: &str) -> (b: AppBuilder)
        ensures
            b.spec_config().window.title@ == title@,
            b.spec_config().window.width == self.spec_config().window.width,
            b.spec_config().window.height == self.spec_config().window.height,
            b.spec_config().engine == self.spec_config().engine,
            b.spec_plugin_names() == self.spec_plugin_names(),
            b.spec_plugins() == self.spec_plugins(),
    {
        let mut s = self;
        s.config.window.title = owned(title);
        s
    }

    /// Sets the window size.
    pub fn window_size(self, width: u32, height: u32) -> (b: AppBuilder)
        ensures
            b.spec_config().window.width == width,
            b.spec_config().window.height == height,
            b.spec_config().window.title == self.spec_config().window.title,
            b.spec_config().engine == self.spec_config().engine,
            b.spec_plugin_names() == self.spec_plugin_names(),
            b.spec_plugins() == self.spec_plugins(),
    {
        let mut s = self;
        s.config.window.width = width;
        s.config.window.height = height;
        s
    }

    pub fn fullscreen(self, fullscreen: bool) -> (b: AppBuilder)
        ensures
            b.spec_config().window.fullscreen == fullscreen,
            b.spec_config().window.vsync == self.spec_config().window.vsync,
            b.spec_plugin_names() == self.spec_plugin_names(),
            b.spec_plugins() == self.spec_plugins(),
    {
        let mut s = self;
        s.config.window.fullscreen = fullscreen;
        s
    }

    pub fn vsync(self, vsync: bool) -> (b: AppBuilder)
        ensures
            b.spec_config().window.vsync == vsync,
            b.spec_config().window.fullscreen == self.spec_config().window.fullscreen,
            b.spec_plugin_names() == self.spec_plugin_names(),
            b.spec_plugins() == self.spec_plugins(),
    {
        let mut s = self;
        s.config.window.vsync = vsync;
        s
    }

    /// Target frame rate (0 = unlimited).
    pub fn target_fps(self, fps: u32) -> (b: AppBuilder)
        ensures
            b.spec_config().engine.target_fps == fps,
            b.spec_config().engine.physics_fps == self.spec_config().engine.physics_fps,
            b.spec_plugin_names() == self.spec_plugin_names(),
            b.spec_plugins() == self.spec_plugins(),
    {
        let mut s = self;
        s.config.engine.target_fps = fps;
        s
    }

    pub fn physics_fps(self, fps: u32) -> (b: AppBuilder)
        ensures
            b.spec_config().engine.physics_fps == fps,
            b.spec_config().engine.target_fps == self.spec_config().engine.target_fps,
            b.spec_plugin_names() == self.spec_plugin_names(),
            b.spec_plugins() == self.spec_plugins(),
    {
        let mut s = self;
        s.config.engine.physics_fps = fps;
        s
    }

    /// Adds a plugin under the name it reports; it is built when the
    /// application is built.
    pub fn add_plugin<P: Plugin + 'static>(self, plugin: P) -> (b: AppBuilder)
        ensures
            exists|name: &str|
                call_ensures(P::name, (&plugin,), name) && #[trigger] self.spec_plugin_names().push(name@)
                    == b.spec_plugin_names(),
            one_more_plugin(self.spec_plugins(), b.spec_plugins()),
            b.spec_config() == self.spec_config(),
    {
        let mut s = self;
        let reported = plugin.name();
        let name = owned(reported);
        let ghost n = name@;
        s.names.push(name);
        let p: Box<dyn Plugin> = Box::new(plugin);
        append_to_list(&mut s.plugins, p);
        assert(s.spec_plugin_names() =~= self.spec_plugin_names().push(n));
        s
    }

    /// Builds every added plugin, in order, and returns the application,
    /// which keeps exactly the added plugins.
    pub fn build(self) -> (app: App)
        ensures
            builds_in_order(self.spec_plugins(), self.spec_config(), app.spec_config()),
            app.spec_plugins() == self.spec_plugins(),
            app.spec_plugin_names() == self.spec_plugin_names(),
    {
        let plugins = self.plugins;
        let names = self.names;
        let mut config = self.config;
        let ghost start = config;
        let ghost mut steps: Seq<EngineConfig> = seq![config];
        let mut i: usize = 0;
        while i < plugins.len()
            invariant
                i <= plugins@.len(),
                steps.len() == i + 1,
                steps[0] == start,
                steps[i as int] == config,
                forall|j: int| 0 <= j < i ==> #[trigger] plugins@[j].builds(steps[j], steps[j + 1]),
            decreases plugins@.len() - i,
        {
            plugins[i].build(&mut config);
            proof {
                steps = steps.push(config);
            }
            i = i + 1;
        }
        assert(build_steps(plugins@, steps, start, config));
        App { config, plugins, names }
    }
}

impl Default for AppBuilder {
    fn default() -> (b: Self)
        ensures
            is_default_config(b.spec_config()),
            b.spec_plugin_count() == 0,
            b.spec_plugins().len() == 0,
    {
        AppBuilder::new()
    }
}

/// A built application.
pub struct App {
    pub config: EngineConfig,
    plugins: Vec<Box<dyn Plugin>>,
    names: Vec<String>,
}

impl App {
    /// The plugins, in the order they were added.
    pub closed spec fn spec_plugins(&self) -> Seq<Box<dyn Plugin>> {
        self.plugins@
    }

    /// Names of the plugins, in the order they were added.
    pub closed spec fn spec_plugin_names(&self) -> Seq<Seq<char>> {
        self.names@.map_values(|s: String| s@)
    }

    pub open spec fn spec_plugin_count(&self) -> nat {
        self.spec_plugin_names().len()
    }

    pub closed spec fn spec_config(&self) -> EngineConfig {
        self.config
    }

    pub fn builder() -> (b: AppBuilder)
        ensures
            is_default_config(b.spec_config()),
            b.spec_plugin_count() == 0,
            b.spec_plugins().len() == 0,
    {
        AppBuilder::new()
    }

    pub fn plugin_count(&self) -> (n: usize)
        ensures
            n == self.spec_plugin_count(),
    {
        self.names.len()
    }

    pub fn config(&self) -> (c: &EngineConfig)
        ensures
            *c == self.spec_config(),
    {
        &self.config
    }

    /// Cleans the plugins up in reverse registration order (what dropping the
    /// application does).
    pub fn cleanup(&self) {
        let mut i: usize = self.plugins.len();
        while i > 0
            invariant
                i <= self.plugins@.len(),
            decreases i,
        {
            i = i - 1;
            self.plugins[i].cleanup();
        }
    }
}

} // verus!
