//! Plugin interface and the plugin registry: every engine feature is a plugin.
use vstd::prelude::*;
use crate::kernel::engine::EngineConfig;
use crate::kernel::error::EngineError;
use crate::text::owned;

verus! {

/// An engine plugin. Implemented by users of the engine.
pub trait Plugin {
    /// The plugin's unique name (used for dependency resolution and logs).
    fn name(&self) -> &str;

    /// Semantic version string.
    fn version(&self) -> (v: &str)
        default_ensures
            v@ == "0.1.0"@,
    {
        "0.1.0"
    }

    /// What the plugin does.
    fn description(&self) -> (d: &str)
        default_ensures
            d@ == ""@,
    {
        ""
    }

    /// What building this plugin does to a configuration: `before` becomes
    /// `after`. A plugin that does not say promises nothing.
    open spec fn builds(&self, before: EngineConfig, after: EngineConfig) -> bool {
        true
    }

    /// Applies the plugin to the configuration of the application being built.
    fn build(&self, app: &mut EngineConfig)
        ensures
            self.builds(*old(app), *final(app)),
    ;

    /// Clean-up when the application shuts down.
    fn cleanup(&self) {
    }

    /// Names of the plugins this one depends on; none for a plugin that does
    /// not say.
    fn dependencies(&self) -> (v: Vec<&str>)
        default_ensures
            v@.len() == 0,
    {
        Vec::new()
    }

    /// Whether registering a second plugin of the same name is allowed; not
    /// for a plugin that does not say.
    fn allow_duplicates(&self) -> (b: bool)
        default_ensures
            !b,
    {
        false
    }
}

/// `steps` walks `plugins` from `before` to `after`: one configuration more
/// than plugins, from `before` to `after`, each plugin's build taking one to
/// the next.
pub open spec fn build_steps(plugins: Seq<Box<dyn Plugin>>, steps: Seq<EngineConfig>, before: EngineConfig, after: EngineConfig) -> bool {
    &&& steps.len() == plugins.len() + 1
    &&& steps[0] == before
    &&& steps[plugins.len() as int] == after
    &&& forall|j: int| 0 <= j < plugins.len() ==> #[trigger] plugins[j].builds(steps[j], steps[j + 1])
}

/// Building `plugins` in order takes `before` to `after`.
pub open spec fn builds_in_order(plugins: Seq<Box<dyn Plugin>>, before: EngineConfig, after: EngineConfig) -> bool {
    exists|steps: Seq<EngineConfig>| #[trigger] build_steps(plugins, steps, before, after)
}

/// `after` is `before` with one more plugin at the end.
pub open spec fn one_more_plugin(before: Seq<Box<dyn Plugin>>, after: Seq<Box<dyn Plugin>>) -> bool {
    &&& after.len() == before.len() + 1
    &&& forall|i: int| 0 <= i < before.len() ==> after[i] == before[i]
}

/// What registering a plugin that reports the name `n` and allows duplicates
/// exactly when `dup` does: it is admitted when it allows duplicates or its
/// name is new, and then its name and the plugin are appended; otherwise
/// nothing changes and a `PluginError` names it.
pub open spec fn register_outcome(
    names0: Seq<Seq<char>>,
    plugins0: Seq<Box<dyn Plugin>>,
    names1: Seq<Seq<char>>,
    plugins1: Seq<Box<dyn Plugin>>,
    r: Result<(), EngineError>,
    n: Seq<char>,
    dup: bool,
) -> bool {
    &&& (r is Ok <==> (dup || !names0.contains(n)))
    &&& r is Ok ==> names1 == names0.push(n) && one_more_plugin(plugins0, plugins1)
    &&& r is Err ==> {
        &&& names1 == names0
        &&& plugins1 == plugins0
        &&& r->Err_0 matches EngineError::PluginError { name, reason }
        &&& name@ == n
        &&& reason@ == "Plugin already registered"@
    }
}

/// A new list of plugins (one that Verus can count: sequences of trait
/// objects are counted through these generic helpers).
pub(crate) fn empty_plugin_list<T>() -> (v: Vec<T>)
    ensures
        v@.len() == 0,
{
    Vec::new()
}

/// Appends `t` to a list, keeping what was there.
pub(crate) fn append_to_list<T>(v: &mut Vec<T>, t: T)
    ensures
        final(v)@.len() == old(v)@.len() + 1,
        forall|i: int| 0 <= i < old(v)@.len() ==> final(v)@[i] == old(v)@[i],
        final(v)@[old(v)@.len() as int] == t,
{
    v.push(t);
}

/// Registry of plugins, kept in registration order.
pub struct PluginRegistry {
    plugins: Vec<Box<dyn Plugin>>,
    names: Vec<String>,
}

impl PluginRegistry {
    /// The registered plugins in registration order.
    pub closed spec fn spec_plugins(&self) -> Seq<Box<dyn Plugin>> {
        self.plugins@
    }

    /// The registry's plugin names in registration order.
    pub closed spec fn spec_names(&self) -> Seq<Seq<char>> {
        self.names@.map_values(|s: String| s@)
    }

    pub fn new() -> (r: PluginRegistry)
        ensures
            r.spec_names() == Seq::<Seq<char>>::empty(),
            r.spec_plugins().len() == 0,
    {
        let r = PluginRegistry { plugins: empty_plugin_list(), names: Vec::new() };
        assert(r.spec_names() =~= Seq::<Seq<char>>::empty());
        r
    }

    /// Whether some registered plugin is named `name`.
    fn has_name(&self, name: &str) -> (b: bool)
        ensures
            b == self.spec_names().contains(name@),
    {
        let mut i: usize = 0;
        while i < self.names.len()
            invariant
                i <= self.names@.len(),
                forall|j: int| 0 <= j < i ==> self.names@[j]@ != name@,
            decreases self.names@.len() - i,
        {
            if crate::text::str_eq(self.names[i].as_str(), name) {
                assert(self.spec_names()[i as int] == name@);
                return true;
            }
            i = i + 1;
        }
        assert forall|j: int| 0 <= j < self.spec_names().len() implies self.spec_names()[j] != name@ by {
            assert(self.spec_names()[j] == self.names@[j]@);
        }
        false
    }

    /// Decides whether a plugin named `name` may join the registry: it may
    /// when it allows duplicates or no plugin of that name is registered.
    pub fn admission(&self, name: &str, allow_duplicates: bool) -> (r: Result<(), EngineError>)
        ensures
            r is Ok <==> (allow_duplicates || !self.spec_names().contains(name@)),
            r is Err ==> {
                &&& r->Err_0 matches EngineError::PluginError { name: n, reason }
                &&& n@ == name@
                &&& reason@ == "Plugin already registered"@
            },
    {
        if !allow_duplicates && self.has_name(name) {
            Err(EngineError::PluginError { name: owned(name), reason: owned("Plugin already registered") })
        } else {
            Ok(())
        }
    }

    /// Registers a plugin under the name it reports. A plugin whose name is
    /// already registered is refused with `PluginError` unless it allows
    /// duplicates (see `admission`).
    pub fn register<P: Plugin + 'static>(&mut self, plugin: P) -> (r: Result<(), EngineError>)
        ensures
            exists|name: &str, dup: bool|
                call_ensures(P::name, (&plugin,), name) && call_ensures(P::allow_duplicates, (&plugin,), dup)
                    && #[trigger] register_outcome(
                    old(self).spec_names(),
                    old(self).spec_plugins(),
                    final(self).spec_names(),
                    final(self).spec_plugins(),
                    r,
                    name@,
                    dup,
                ),
    {
        let reported = plugin.name();
        let name = owned(reported);
        let ghost n = name@;
        let dup = plugin.allow_duplicates();
        match self.admission(name.as_str(), dup) {
            Err(e) => {
                assert(register_outcome(old(self).spec_names(), old(self).spec_plugins(), self.spec_names(), self.spec_plugins(), Err(e), n, dup));
                Err(e)
            },
            Ok(()) => {
                let ghost before = self.spec_names();
                self.names.push(name);
                let b: Box<dyn Plugin> = Box::new(plugin);
                append_to_list(&mut self.plugins, b);
                assert(self.spec_names() =~= before.push(n));
                assert(register_outcome(old(self).spec_names(), old(self).spec_plugins(), self.spec_names(), self.spec_plugins(), Ok(()), n, dup));
                Ok(())
            },
        }
    }

    /// Names of all registered plugins, in registration order.
    pub fn plugin_names(&self) -> (v: Vec<&str>)
        ensures
            v@.map_values(|s: &str| s@) == self.spec_names(),
    {
        let mut v: Vec<&str> = Vec::new();
        let mut i: usize = 0;
        while i < self.names.len()
            invariant
                i <= self.names@.len(),
                v@.len() == i,
                forall|j: int| 0 <= j < i ==> v@[j]@ == self.names@[j]@,
            decreases self.names@.len() - i,
        {
            v.push(self.names[i].as_str());
            i = i + 1;
        }
        assert(v@.map_values(|s: &str| s@) =~= self.spec_names());
        v
    }

    /// Builds every plugin, in registration order: the configuration passes
    /// through each plugin's `build` in turn.
    pub fn build_all(&self, app: &mut EngineConfig)
        ensures
            builds_in_order(self.spec_plugins(), *old(app), *final(app)),
    {
        let ghost mut steps: Seq<EngineConfig> = seq![*app];
        let mut i: usize = 0;
        while i < self.plugins.len()
            invariant
                i <= self.plugins@.len(),
                steps.len() == i + 1,
                steps[0] == *old(app),
                steps[i as int] == *app,
                forall|j: int| 0 <= j < i ==> #[trigger] self.plugins@[j].builds(steps[j], steps[j + 1]),
            decreases self.plugins@.len() - i,
        {
            self.plugins[i].build(app);
            proof {
                steps = steps.push(*app);
            }
            i = i + 1;
        }
        assert(steps.len() == self.spec_plugins().len() + 1);
        assert(steps[self.spec_plugins().len() as int] == *app);
        assert(forall|j: int| 0 <= j < self.spec_plugins().len() ==> #[trigger] self.spec_plugins()[j].builds(steps[j], steps[j + 1]));
        assert(build_steps(self.spec_plugins(), steps, *old(app), *app));
    }

    /// Cleans every plugin up, in reverse registration order.
    pub fn cleanup_all(&self) {
        let mut i: usize = self.plugins.len();
        while i > 0
            invariant
                i <= self.plugins@.len(),
            decreases i,
        {
            i = i - 1;
            self.plugins[i].cleanup();
        }
    }

    pub fn len(&self) -> (n: usize)
        ensures
            n == self.spec_names().len(),
    {
        self.names.len()
    }

    pub fn is_empty(&self) -> (b: bool)
        ensures
            b == (self.spec_names().len() == 0),
    {
        self.names.len() == 0
    }
}

impl Default for PluginRegistry {
    fn default() -> (r: Self)
        ensures
            r.spec_names() == Seq::<Seq<char>>::empty(),
            r.spec_plugins().len() == 0,
    {
        PluginRegistry::new()
    }
}

} // verus!
