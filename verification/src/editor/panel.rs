//! Dockable editor panels and the console log.
use vstd::prelude::*;
use crate::text::owned;

verus! {

/// Unique panel identifier.
#[derive(Debug)]
pub struct PanelId(pub String);

impl View for PanelId {
    type V = Seq<char>;

    open spec fn view(&self) -> Seq<char> {
        self.0@
    }
}

impl PanelId {
    pub fn new(id: &str) -> (p: PanelId)
        ensures
            p@ == id@,
    {
        PanelId(owned(id))
    }

    pub fn as_str(&self) -> (s: &str)
        ensures
            s@ == self@,
    {
        self.0.as_str()
    }
}

/// Kinds of editor panels.
#[derive(Debug, Clone, Copy, PartialEq, Eq, Structural)]
pub enum PanelKind {
    SceneTree,
    Inspector,
    FileSystem,
    AssetBrowser,
    Console,
    Viewport,
    ScriptEditor,
    AiAssistant,
    PluginManager,
    ProjectSettings,
    Custom,
}

/// Dock areas.
#[derive(Debug, Clone, Copy, PartialEq, Eq, Structural)]
pub enum DockArea {
    Left,
    LeftBottom,
    Right,
    Bottom,
    Center,
    Float,
}

impl PanelKind {
    pub open spec fn spec_default_title(self) -> Seq<char> {
        match self {
            PanelKind::SceneTree => "Scene Tree"@,
            PanelKind::Inspector => "Inspector"@,
            PanelKind::FileSystem => "File System"@,
            PanelKind::AssetBrowser => "Assets"@,
            PanelKind::Console => "Console"@,
            PanelKind::Viewport => "Viewport"@,
            PanelKind::ScriptEditor => "Script Editor"@,
            PanelKind::AiAssistant => "AI Assistant"@,
            PanelKind::PluginManager => "Plugins"@,
            PanelKind::ProjectSettings => "Project Settings"@,
            PanelKind::Custom => "Panel"@,
        }
    }

    pub fn default_title(&self) -> (s: &str)
        ensures
            s@ == self.spec_default_title(),
    {
        match self {
            PanelKind::SceneTree => "Scene Tree",
            PanelKind::Inspector => "Inspector",
            PanelKind::FileSystem => "File System",
            PanelKind::AssetBrowser => "Assets",
            PanelKind::Console => "Console",
            PanelKind::Viewport => "Viewport",
            PanelKind::ScriptEditor => "Script Editor",
            PanelKind::AiAssistant => "AI Assistant",
            PanelKind::PluginManager => "Plugins",
            PanelKind::ProjectSettings => "Project Settings",
            PanelKind::Custom => "Panel",
        }
    }

    pub open spec fn spec_default_dock(self) -> DockArea {
        match self {
            PanelKind::SceneTree => DockArea::Left,
            PanelKind::Inspector => DockArea::Right,
            PanelKind::FileSystem => DockArea::LeftBottom,
            PanelKind::AssetBrowser => DockArea::Bottom,
            PanelKind::Console => DockArea::Bottom,
            PanelKind::Viewport => DockArea::Center,
            PanelKind::ScriptEditor => DockArea::Center,
            PanelKind::AiAssistant => DockArea::Right,
            PanelKind::PluginManager => DockArea::Right,
            PanelKind::ProjectSettings => DockArea::Center,
            PanelKind::Custom => DockArea::Right,
        }
    }

    /// Where a panel of this kind docks by default.
    pub fn default_dock(&self) -> (d: DockArea)
        ensures
            d == self.spec_default_dock(),
    {
        match self {
            PanelKind::SceneTree => DockArea::Left,
            PanelKind::Inspector => DockArea::Right,
            PanelKind::FileSystem => DockArea::LeftBottom,
            PanelKind::AssetBrowser => DockArea::Bottom,
            PanelKind::Console => DockArea::Bottom,
            PanelKind::Viewport => DockArea::Center,
            PanelKind::ScriptEditor => DockArea::Center,
            PanelKind::AiAssistant => DockArea::Right,
            PanelKind::PluginManager => DockArea::Right,
            PanelKind::ProjectSettings => DockArea::Center,
            PanelKind::Custom => DockArea::Right,
        }
    }
}

/// Panel display states.
#[derive(Debug, Clone, Copy, PartialEq, Eq, Structural)]
pub enum PanelState {
    Visible,
    Hidden,
    Minimized,
    Maximized,
}

/// The id of a kind's panel: the kind's name in lowercase.
pub open spec fn panel_id_of(k: PanelKind) -> Seq<char> {
    match k {
        PanelKind::SceneTree => "scenetree"@,
        PanelKind::Inspector => "inspector"@,
        PanelKind::FileSystem => "filesystem"@,
        PanelKind::AssetBrowser => "assetbrowser"@,
        PanelKind::Console => "console"@,
        PanelKind::Viewport => "viewport"@,
        PanelKind::ScriptEditor => "scripteditor"@,
        PanelKind::AiAssistant => "aiassistant"@,
        PanelKind::PluginManager => "pluginmanager"@,
        PanelKind::ProjectSettings => "projectsettings"@,
        PanelKind::Custom => "custom"@,
    }
}

impl PanelKind {
    /// The kind's name in lowercase, which identifies its panel.
    pub fn id_name(&self) -> (s: &'static str)
        ensures
            s@ == panel_id_of(*self),
    {
        match self {
            PanelKind::SceneTree => "scenetree",
            PanelKind::Inspector => "inspector",
            PanelKind::FileSystem => "filesystem",
            PanelKind::AssetBrowser => "assetbrowser",
            PanelKind::Console => "console",
            PanelKind::Viewport => "viewport",
            PanelKind::ScriptEditor => "scripteditor",
            PanelKind::AiAssistant => "aiassistant",
            PanelKind::PluginManager => "pluginmanager",
            PanelKind::ProjectSettings => "projectsettings",
            PanelKind::Custom => "custom",
        }
    }
}

/// Whether a panel in state `s` is shown.
pub open spec fn state_visible(s: PanelState) -> bool {
    s == PanelState::Visible || s == PanelState::Maximized
}

/// The state a panel in state `s` takes when toggled.
pub open spec fn toggled(s: PanelState) -> PanelState {
    if state_visible(s) { PanelState::Hidden } else { PanelState::Visible }
}

/// An editor panel. Its size in pixels, a floating-point setting, is kept
/// outside this library.
#[derive(Debug)]
pub struct EditorPanel {
    pub id: PanelId,
    pub kind: PanelKind,
    pub title: String,
    pub state: PanelState,
    pub dock: DockArea,
}

impl EditorPanel {
    /// A visible panel of kind `kind`, with that kind's id, title and dock.
    pub fn new(kind: PanelKind) -> (p: EditorPanel)
        ensures
            p.id@ == panel_id_of(kind),
            p.kind == kind,
            p.title@ == kind.spec_default_title(),
            p.state == PanelState::Visible,
            p.dock == kind.spec_default_dock(),
    {
        EditorPanel {
            id: PanelId::new(kind.id_name()),
            kind,
            title: owned(kind.default_title()),
            state: PanelState::Visible,
            dock: kind.default_dock(),
        }
    }

    /// Whether the panel is shown (visible or maximized).
    pub fn is_visible(&self) -> (b: bool)
        ensures
            b == state_visible(self.state),
    {
        self.state == PanelState::Visible || self.state == PanelState::Maximized
    }

    /// Hides a shown panel and shows a hidden or minimized one.
    pub fn toggle(&mut self)
        ensures
            final(self).state == toggled(old(self).state),
            final(self).kind == old(self).kind,
            final(self).dock == old(self).dock,
            final(self).id@ == old(self).id@,
            final(self).title@ == old(self).title@,
    {
        self.state = match self.state {
            PanelState::Visible | PanelState::Maximized => PanelState::Hidden,
            PanelState::Hidden | PanelState::Minimized => PanelState::Visible,
        };
    }
}

/// Toggling a panel always flips whether it is shown, and toggling twice
/// shows a panel that was shown.
pub proof fn law_toggle_flips_visibility(s: PanelState)
    ensures
        state_visible(toggled(s)) == !state_visible(s),
        state_visible(s) ==> state_visible(toggled(toggled(s))),
{
}

/// The panels of `ps` that are shown, in order.
pub open spec fn shown(ps: Seq<EditorPanel>) -> Seq<EditorPanel>
    decreases ps.len(),
{
    if ps.len() == 0 {
        seq![]
    } else if state_visible(ps.last().state) {
        shown(ps.drop_last()).push(ps.last())
    } else {
        shown(ps.drop_last())
    }
}

/// The panels of `ps` that are shown in dock `d`, in order.
pub open spec fn shown_in(ps: Seq<EditorPanel>, d: DockArea) -> Seq<EditorPanel>
    decreases ps.len(),
{
    if ps.len() == 0 {
        seq![]
    } else if ps.last().dock == d && state_visible(ps.last().state) {
        shown_in(ps.drop_last(), d).push(ps.last())
    } else {
        shown_in(ps.drop_last(), d)
    }
}

/// Position of the first panel of kind `k` in `ps`, or -1.
pub open spec fn first_of_kind(ps: Seq<EditorPanel>, k: PanelKind) -> int
    decreases ps.len(),
{
    if ps.len() == 0 {
        -1
    } else if ps[0].kind == k {
        0
    } else {
        let r = first_of_kind(ps.drop_first(), k);
        if r < 0 { -1 } else { r + 1 }
    }
}

proof fn lemma_first_of_kind(ps: Seq<EditorPanel>, k: PanelKind)
    ensures
        -1 <= first_of_kind(ps, k) < ps.len(),
        first_of_kind(ps, k) >= 0 ==> ps[first_of_kind(ps, k)].kind == k,
        first_of_kind(ps, k) >= 0 ==> forall|j: int| 0 <= j < first_of_kind(ps, k) ==> ps[j].kind != k,
        first_of_kind(ps, k) < 0 ==> forall|j: int| 0 <= j < ps.len() ==> ps[j].kind != k,
    decreases ps.len(),
{
    if ps.len() > 0 && ps[0].kind != k {
        lemma_first_of_kind(ps.drop_first(), k);
        let r = first_of_kind(ps.drop_first(), k);
        assert forall|j: int| 0 < j < ps.len() implies ps[j] == ps.drop_first()[j - 1] by {}
    }
}

/// The editor's panels and their layout.
#[derive(Debug)]
pub struct PanelLayout {
    pub panels: Vec<EditorPanel>,
}

/// Kinds of the default layout's panels, in order.
pub open spec fn default_kinds() -> Seq<PanelKind> {
    seq![PanelKind::SceneTree, PanelKind::FileSystem, PanelKind::Inspector, PanelKind::AiAssistant,
        PanelKind::Viewport, PanelKind::Console, PanelKind::AssetBrowser]
}

impl PanelLayout {
    /// The default layout: scene tree, file system, inspector, AI assistant
    /// (hidden), viewport, console and asset browser, each in its kind's dock.
    pub fn default_layout() -> (l: PanelLayout)
        ensures
            l.panels@.len() == 7,
            forall|i: int| 0 <= i < 7 ==> {
                &&& (#[trigger] l.panels@[i]).kind == default_kinds()[i]
                &&& l.panels@[i].dock == default_kinds()[i].spec_default_dock()
                &&& l.panels@[i].id@ == panel_id_of(default_kinds()[i])
                &&& l.panels@[i].title@ == default_kinds()[i].spec_default_title()
                &&& l.panels@[i].state == (if i == 3 { PanelState::Hidden } else { PanelState::Visible })
            },
    {
        let mut panels: Vec<EditorPanel> = Vec::new();
        panels.push(EditorPanel::new(PanelKind::SceneTree));
        panels.push(EditorPanel::new(PanelKind::FileSystem));
        panels.push(EditorPanel::new(PanelKind::Inspector));
        let mut ai = EditorPanel::new(PanelKind::AiAssistant);
        ai.state = PanelState::Hidden;
        panels.push(ai);
        panels.push(EditorPanel::new(PanelKind::Viewport));
        panels.push(EditorPanel::new(PanelKind::Console));
        panels.push(EditorPanel::new(PanelKind::AssetBrowser));
        PanelLayout { panels }
    }

    /// Position of the first panel of kind `kind`.
    fn position(&self, kind: PanelKind) -> (r: Option<usize>)
        ensures
            match r {
                Some(i) => i < self.panels@.len() && i as int == first_of_kind(self.panels@, kind),
                None => first_of_kind(self.panels@, kind) < 0,
            },
    {
        proof {
            lemma_first_of_kind(self.panels@, kind);
        }
        let mut i: usize = 0;
        while i < self.panels.len()
            invariant
                i <= self.panels@.len(),
                forall|j: int| 0 <= j < i ==> self.panels@[j].kind != kind,
                -1 <= first_of_kind(self.panels@, kind) < self.panels@.len(),
                first_of_kind(self.panels@, kind) >= 0 ==> self.panels@[first_of_kind(self.panels@, kind)].kind == kind,
                first_of_kind(self.panels@, kind) >= 0 ==> forall|j: int| 0 <= j < first_of_kind(self.panels@, kind) ==> self.panels@[j].kind != kind,
                first_of_kind(self.panels@, kind) < 0 ==> forall|j: int| 0 <= j < self.panels@.len() ==> self.panels@[j].kind != kind,
            decreases self.panels@.len() - i,
        {
            if self.panels[i].kind == kind {
                return Some(i);
            }
            i = i + 1;
        }
        None
    }

    /// Toggles the first panel of kind `kind`, if there is one.
    pub fn toggle_panel(&mut self, kind: PanelKind)
        ensures
            final(self).panels@.len() == old(self).panels@.len(),
            forall|j: int| 0 <= j < old(self).panels@.len() && j != first_of_kind(old(self).panels@, kind)
                ==> #[trigger] final(self).panels@[j] == old(self).panels@[j],
            first_of_kind(old(self).panels@, kind) >= 0 ==> {
                let i = first_of_kind(old(self).panels@, kind);
                &&& final(self).panels@[i].state == toggled(old(self).panels@[i].state)
                &&& final(self).panels@[i].kind == kind
                &&& final(self).panels@[i].dock == old(self).panels@[i].dock
                &&& final(self).panels@[i].id@ == old(self).panels@[i].id@
                &&& final(self).panels@[i].title@ == old(self).panels@[i].title@
            },
    {
        proof {
            lemma_first_of_kind(self.panels@, kind);
        }
        match self.position(kind) {
            Some(i) => {
                let new_state = match self.panels[i].state {
                    PanelState::Visible | PanelState::Maximized => PanelState::Hidden,
                    PanelState::Hidden | PanelState::Minimized => PanelState::Visible,
                };
                self.panels[i].state = new_state;
            },
            None => {},
        }
    }

    /// The shown panels, in order.
    pub fn visible_panels(&self) -> (v: Vec<&EditorPanel>)
        ensures
            v@.map_values(|p: &EditorPanel| *p) == shown(self.panels@),
    {
        let mut v: Vec<&EditorPanel> = Vec::new();
        let mut i: usize = 0;
        while i < self.panels.len()
            invariant
                i <= self.panels@.len(),
                v@.map_values(|p: &EditorPanel| *p) == shown(self.panels@.take(i as int)),
            decreases self.panels@.len() - i,
        {
            let p = &self.panels[i];
            let ghost prev = v@.map_values(|p: &EditorPanel| *p);
            assert(self.panels@.take(i + 1).drop_last() =~= self.panels@.take(i as int));
            assert(self.panels@.take(i + 1).last() == *p);
            if p.is_visible() {
                v.push(p);
                assert(v@.map_values(|p: &EditorPanel| *p) =~= prev.push(*p));
            }
            i = i + 1;
        }
        assert(self.panels@.take(self.panels@.len() as int) =~= self.panels@);
        v
    }

    /// The shown panels of dock `dock`, in order.
    pub fn panels_in_dock(&self, dock: DockArea) -> (v: Vec<&EditorPanel>)
        ensures
            v@.map_values(|p: &EditorPanel| *p) == shown_in(self.panels@, dock),
    {
        let mut v: Vec<&EditorPanel> = Vec::new();
        let mut i: usize = 0;
        while i < self.panels.len()
            invariant
                i <= self.panels@.len(),
                v@.map_values(|p: &EditorPanel| *p) == shown_in(self.panels@.take(i as int), dock),
            decreases self.panels@.len() - i,
        {
            let p = &self.panels[i];
            let ghost prev = v@.map_values(|p: &EditorPanel| *p);
            assert(self.panels@.take(i + 1).drop_last() =~= self.panels@.take(i as int));
            assert(self.panels@.take(i + 1).last() == *p);
            if p.dock == dock && p.is_visible() {
                v.push(p);
                assert(v@.map_values(|p: &EditorPanel| *p) =~= prev.push(*p));
            }
            i = i + 1;
        }
        assert(self.panels@.take(self.panels@.len() as int) =~= self.panels@);
        v
    }

    /// The first panel of kind `kind`.
    pub fn find(&self, kind: PanelKind) -> (r: Option<&EditorPanel>)
        ensures
            match r {
                Some(p) => first_of_kind(self.panels@, kind) >= 0 && *p == self.panels@[first_of_kind(self.panels@, kind)],
                None => first_of_kind(self.panels@, kind) < 0,
            },
    {
        match self.position(kind) {
            Some(i) => Some(&self.panels[i]),
            None => None,
        }
    }
}

impl Default for PanelLayout {
    fn default() -> (l: Self)
        ensures
            l.panels@.len() == 7,
            forall|i: int| 0 <= i < 7 ==> (#[trigger] l.panels@[i]).kind == default_kinds()[i],
    {
        PanelLayout::default_layout()
    }
}

/// Console log levels.
#[derive(Debug, Clone, Copy, PartialEq, Eq, Structural)]
pub enum ConsoleLevel {
    Debug,
    Info,
    Warning,
    Error,
}

/// Milliseconds since the Unix epoch, from the system clock (0 when the
/// clock reads before the epoch). Nothing is claimed about the value.
#[verifier::external_body]
pub(crate) fn current_ms() -> u64 {
    std::time::SystemTime::now().duration_since(std::time::UNIX_EPOCH).unwrap_or_default().as_millis() as u64
}

/// A console message.
#[derive(Debug)]
pub struct ConsoleMessage {
    pub level: ConsoleLevel,
    pub message: String,
    pub source: Option<String>,
    /// Milliseconds since the Unix epoch.
    pub timestamp: u64,
}

impl ConsoleMessage {
    /// An info message stamped with the current time.
    pub fn info(message: &str) -> (m: ConsoleMessage)
        ensures
            m.level == ConsoleLevel::Info,
            m.message@ == message@,
            m.source is None,
    {
        ConsoleMessage { level: ConsoleLevel::Info, message: owned(message), source: None, timestamp: current_ms() }
    }

    /// A warning stamped with the current time.
    pub fn warning(message: &str) -> (m: ConsoleMessage)
        ensures
            m.level == ConsoleLevel::Warning,
            m.message@ == message@,
            m.source is None,
    {
        ConsoleMessage { level: ConsoleLevel::Warning, message: owned(message), source: None, timestamp: current_ms() }
    }

    /// An error stamped with the current time.
    pub fn error(message: &str) -> (m: ConsoleMessage)
        ensures
            m.level == ConsoleLevel::Error,
            m.message@ == message@,
            m.source is None,
    {
        ConsoleMessage { level: ConsoleLevel::Error, message: owned(message), source: None, timestamp: current_ms() }
    }

    /// The message with its source set.
    pub fn with_source(self, source: &str) -> (m: ConsoleMessage)
        ensures
            m.level == self.level,
            m.message == self.message,
            m.timestamp == self.timestamp,
            m.source matches Some(s) && s@ == source@,
    {
        let mut m = self;
        m.source = Some(owned(source));
        m
    }
}

/// Capacity of the console: the oldest messages are dropped beyond it.
pub const CONSOLE_CAPACITY: usize = 1000;

/// The messages of `msgs` that a filter lets through, in order.
pub open spec fn visible(msgs: Seq<ConsoleMessage>, filter: Option<ConsoleLevel>) -> Seq<ConsoleMessage>
    decreases msgs.len(),
{
    if msgs.len() == 0 {
        seq![]
    } else {
        let rest = visible(msgs.drop_last(), filter);
        match filter {
            Some(f) => if msgs.last().level == f { rest.push(msgs.last()) } else { rest },
            None => rest.push(msgs.last()),
        }
    }
}

/// The log after pushing `m` onto `msgs` with room for `cap` messages.
pub open spec fn after_push(msgs: Seq<ConsoleMessage>, m: ConsoleMessage, cap: nat) -> Seq<ConsoleMessage> {
    if msgs.len() + 1 > cap { msgs.push(m).drop_first() } else { msgs.push(m) }
}

/// Console panel: a bounded message history with a level filter.
#[derive(Debug)]
pub struct Console {
    messages: Vec<ConsoleMessage>,
    max_messages: usize,
    filter: Option<ConsoleLevel>,
}

impl Console {
    pub closed spec fn spec_messages(&self) -> Seq<ConsoleMessage> {
        self.messages@
    }

    pub closed spec fn spec_filter(&self) -> Option<ConsoleLevel> {
        self.filter
    }

    /// The console never holds more than its capacity.
    pub closed spec fn wf(&self) -> bool {
        &&& self.max_messages == CONSOLE_CAPACITY
        &&& self.messages@.len() <= CONSOLE_CAPACITY
    }

    /// A well-formed console holds at most its capacity of messages.
    pub proof fn lemma_within_capacity(&self)
        requires
            self.wf(),
        ensures
            self.spec_messages().len() <= CONSOLE_CAPACITY,
    {
    }

    pub fn new() -> (c: Console)
        ensures
            c.wf(),
            c.spec_messages() == Seq::<ConsoleMessage>::empty(),
            c.spec_filter() is None,
    {
        Console { messages: Vec::new(), max_messages: CONSOLE_CAPACITY, filter: None }
    }

    /// Appends a message, dropping the oldest one when the capacity is exceeded.
    pub fn push(&mut self, msg: ConsoleMessage)
        requires
            old(self).wf(),
        ensures
            final(self).wf(),
            final(self).spec_messages() == after_push(old(self).spec_messages(), msg, CONSOLE_CAPACITY as nat),
            final(self).spec_messages().len() <= CONSOLE_CAPACITY,
            final(self).spec_filter() == old(self).spec_filter(),
    {
        let ghost before = self.messages@;
        self.messages.push(msg);
        if self.messages.len() > self.max_messages {
            self.messages.remove(0);
            assert(self.messages@ =~= before.push(msg).drop_first());
        }
    }

    /// Logs an info message.
    pub fn info(&mut self, text: &str)
        requires
            old(self).wf(),
        ensures
            final(self).wf(),
            final(self).spec_filter() == old(self).spec_filter(),
            exists|m: ConsoleMessage| {
                &&& m.level == ConsoleLevel::Info
                &&& m.message@ == text@
                &&& m.source is None
                &&& final(self).spec_messages() == after_push(old(self).spec_messages(), m, CONSOLE_CAPACITY as nat)
            },
    {
        let m = ConsoleMessage::info(text);
        self.push(m);
    }

    /// Logs a warning.
    pub fn warning(&mut self, text: &str)
        requires
            old(self).wf(),
        ensures
            final(self).wf(),
            final(self).spec_filter() == old(self).spec_filter(),
            exists|m: ConsoleMessage| {
                &&& m.level == ConsoleLevel::Warning
                &&& m.message@ == text@
                &&& m.source is None
                &&& final(self).spec_messages() == after_push(old(self).spec_messages(), m, CONSOLE_CAPACITY as nat)
            },
    {
        let m = ConsoleMessage::warning(text);
        self.push(m);
    }

    /// Logs an error.
    pub fn error(&mut self, text: &str)
        requires
            old(self).wf(),
        ensures
            final(self).wf(),
            final(self).spec_filter() == old(self).spec_filter(),
            exists|m: ConsoleMessage| {
                &&& m.level == ConsoleLevel::Error
                &&& m.message@ == text@
                &&& m.source is None
                &&& final(self).spec_messages() == after_push(old(self).spec_messages(), m, CONSOLE_CAPACITY as nat)
            },
    {
        let m = ConsoleMessage::error(text);
        self.push(m);
    }

    pub fn clear(&mut self)
        requires
            old(self).wf(),
        ensures
            final(self).wf(),
            final(self).spec_messages() == Seq::<ConsoleMessage>::empty(),
            final(self).spec_filter() == old(self).spec_filter(),
    {
        self.messages.clear();
    }

    /// Shows only messages of `level` (or all when `None`).
    pub fn set_filter(&mut self, level: Option<ConsoleLevel>)
        requires
            old(self).wf(),
        ensures
            final(self).wf(),
            final(self).spec_filter() == level,
            final(self).spec_messages() == old(self).spec_messages(),
    {
        self.filter = level;
    }

    /// The messages the filter lets through, oldest first.
    pub fn visible_messages(&self) -> (v: Vec<&ConsoleMessage>)
        ensures
            v@.map_values(|m: &ConsoleMessage| *m) == visible(self.spec_messages(), self.spec_filter()),
    {
        let mut v: Vec<&ConsoleMessage> = Vec::new();
        let mut i: usize = 0;
        while i < self.messages.len()
            invariant
                i <= self.messages@.len(),
                v@.map_values(|m: &ConsoleMessage| *m) == visible(self.messages@.take(i as int), self.filter),
            decreases self.messages@.len() - i,
        {
            let m = &self.messages[i];
            let ghost prev = v@.map_values(|m: &ConsoleMessage| *m);
            assert(self.messages@.take(i + 1).drop_last() =~= self.messages@.take(i as int));
            assert(self.messages@.take(i + 1).last() == *m);
            match self.filter {
                Some(f) => {
                    if m.level == f {
                        v.push(m);
                        assert(v@.map_values(|m: &ConsoleMessage| *m) =~= prev.push(*m));
                    }
                },
                None => {
                    v.push(m);
                    assert(v@.map_values(|m: &ConsoleMessage| *m) =~= prev.push(*m));
                },
            }
            i = i + 1;
        }
        assert(self.messages@.take(self.messages@.len() as int) =~= self.messages@);
        v
    }

    pub fn message_count(&self) -> (n: usize)
        ensures
            n == self.spec_messages().len(),
    {
        self.messages.len()
    }
}

impl Default for Console {
    fn default() -> (c: Self)
        ensures
            c.wf(),
            c.spec_messages() == Seq::<ConsoleMessage>::empty(),
            c.spec_filter() is None,
    {
        Console::new()
    }
}

/// The console keeps the most recent messages: after a push the newest
/// message is last, and at most the capacity is kept.
pub proof fn law_console_bounded(msgs: Seq<ConsoleMessage>, m: ConsoleMessage)
    requires
        msgs.len() <= CONSOLE_CAPACITY,
    ensures
        after_push(msgs, m, CONSOLE_CAPACITY as nat).len() <= CONSOLE_CAPACITY,
        after_push(msgs, m, CONSOLE_CAPACITY as nat).last() == m,
{
}

/// With no filter every message is visible.
pub proof fn law_unfiltered_shows_all(msgs: Seq<ConsoleMessage>)
    ensures
        visible(msgs, None) == msgs,
    decreases msgs.len(),
{
    if msgs.len() > 0 {
        law_unfiltered_shows_all(msgs.drop_last());
        assert(msgs.drop_last().push(msgs.last()) =~= msgs);
    }
}

/// A level filter shows only messages of that level.
pub proof fn law_filter_shows_only_level(msgs: Seq<ConsoleMessage>, level: ConsoleLevel)
    ensures
        forall|i: int| 0 <= i < visible(msgs, Some(level)).len() ==> #[trigger] visible(msgs, Some(level))[i].level == level,
    decreases msgs.len(),
{
    if msgs.len() > 0 {
        law_filter_shows_only_level(msgs.drop_last(), level);
    }
}

/// A level filter shows exactly the messages of that level, all of them and
/// in the order they were logged, whatever else they carry (source, text,
/// time).
pub proof fn law_filter_shows_every_message_of_level(msgs: Seq<ConsoleMessage>, level: ConsoleLevel)
    ensures
        visible(msgs, Some(level)) == msgs.filter(|m: ConsoleMessage| m.level == level),
    decreases msgs.len(),
{
    reveal(Seq::filter);
    if msgs.len() > 0 {
        law_filter_shows_every_message_of_level(msgs.drop_last(), level);
    } else {
        assert(msgs.filter(|m: ConsoleMessage| m.level == level) =~= Seq::<ConsoleMessage>::empty());
    }
}

} // verus!
