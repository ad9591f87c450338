//! Command palette: searching and running editor commands (VSCode style).
use vstd::prelude::*;
use crate::text::{
    owned, str_eq, to_lowercase, lowercase_of, seq_starts_with, seq_contains, last_index_of,
    lemma_last_index_bounds, lemma_last_index_prefix,
};

verus! {

/// Result of running a command.
#[derive(Debug)]
pub enum CommandResult {
    /// Success, with an optional message.
    Success(Option<String>),
    Error(String),
    /// The command needs more input (a dialog, say).
    NeedsInput(String),
}

impl Clone for CommandResult {
    fn clone(&self) -> (r: Self)
        ensures
            r == *self,
    {
        match self {
            CommandResult::Success(m) => CommandResult::Success(
                match m {
                    Some(s) => Some(s.clone()),
                    None => None,
                },
            ),
            CommandResult::Error(s) => CommandResult::Error(s.clone()),
            CommandResult::NeedsInput(s) => CommandResult::NeedsInput(s.clone()),
        }
    }
}

/// What a command reports, with its texts as character sequences.
pub enum ResultView {
    Success(Option<Seq<char>>),
    Error(Seq<char>),
    NeedsInput(Seq<char>),
}

impl View for CommandResult {
    type V = ResultView;

    open spec fn view(&self) -> ResultView {
        match self {
            CommandResult::Success(m) => ResultView::Success(
                match m {
                    Some(s) => Some(s@),
                    None => None,
                },
            ),
            CommandResult::Error(s) => ResultView::Error(s@),
            CommandResult::NeedsInput(s) => ResultView::NeedsInput(s@),
        }
    }
}

/// A command with its texts as character sequences.
pub struct CommandView {
    pub id: Seq<char>,
    pub title: Seq<char>,
    pub description: Seq<char>,
    pub category: CommandCategory,
    pub keybinding: Option<Seq<char>>,
    pub handler: ResultView,
}

/// Command categories.
#[derive(Debug, Clone, Copy, PartialEq, Eq, Structural)]
pub enum CommandCategory {
    File,
    Edit,
    Scene,
    Asset,
    Script,
    Build,
    Plugin,
    View,
    Help,
}

impl CommandCategory {
    pub open spec fn spec_display_name(self) -> Seq<char> {
        match self {
            CommandCategory::File => "File"@,
            CommandCategory::Edit => "Edit"@,
            CommandCategory::Scene => "Scene"@,
            CommandCategory::Asset => "Assets"@,
            CommandCategory::Script => "Script"@,
            CommandCategory::Build => "Build"@,
            CommandCategory::Plugin => "Plugin"@,
            CommandCategory::View => "View"@,
            CommandCategory::Help => "Help"@,
        }
    }

    pub fn display_name(&self) -> (s: &str)
        ensures
            s@ == self.spec_display_name(),
    {
        match self {
            CommandCategory::File => "File",
            CommandCategory::Edit => "Edit",
            CommandCategory::Scene => "Scene",
            CommandCategory::Asset => "Assets",
            CommandCategory::Script => "Script",
            CommandCategory::Build => "Build",
            CommandCategory::Plugin => "Plugin",
            CommandCategory::View => "View",
            CommandCategory::Help => "Help",
        }
    }
}

/// An editor command. Its handler is the result it reports when run.
#[derive(Debug)]
pub struct Command {
    pub id: String,
    pub title: String,
    pub description: String,
    pub category: CommandCategory,
    pub keybinding: Option<String>,
    /// What running the command reports.
    pub handler: CommandResult,
}

impl View for Command {
    type V = CommandView;

    open spec fn view(&self) -> CommandView {
        CommandView {
            id: self.id@,
            title: self.title@,
            description: self.description@,
            category: self.category,
            keybinding: match self.keybinding {
                Some(k) => Some(k@),
                None => None,
            },
            handler: self.handler@,
        }
    }
}

impl Command {
    /// What running the command reports.
    pub open spec fn spec_handler(&self) -> CommandResult {
        self.handler
    }

    pub fn new(
        id: &str,
        title: &str,
        description: &str,
        category: CommandCategory,
        handler: CommandResult,
    ) -> (c: Command)
        ensures
            c.id@ == id@,
            c.title@ == title@,
            c.description@ == description@,
            c.category == category,
            c.keybinding is None,
            c.spec_handler() == handler,
    {
        Command {
            id: owned(id),
            title: owned(title),
            description: owned(description),
            category,
            keybinding: None,
            handler,
        }
    }

    /// The command with a key binding.
    pub fn with_keybinding(self, keybinding: &str) -> (c: Command)
        ensures
            c.id == self.id,
            c.title == self.title,
            c.description == self.description,
            c.category == self.category,
            c.keybinding matches Some(k) && k@ == keybinding@,
            c.spec_handler() == self.spec_handler(),
    {
        let mut c = self;
        c.keybinding = Some(owned(keybinding));
        c
    }

    /// Runs the command.
    pub fn execute(&self) -> (r: CommandResult)
        ensures
            r == self.spec_handler(),
    {
        self.handler.clone()
    }
}

/// The ids of a command list.
pub open spec fn ids_of(cmds: Seq<Command>) -> Seq<Seq<char>> {
    cmds.map_values(|c: Command| c.id@)
}

/// The command with id `id`, if any.
pub open spec fn lookup(cmds: Seq<Command>, id: Seq<char>) -> Option<Command> {
    let i = last_index_of(ids_of(cmds), id);
    if i < 0 { None } else { Some(cmds[i]) }
}

/// The list after registering `c`: a command with the same id is replaced in
/// place, otherwise `c` is appended.
pub open spec fn after_register(cmds: Seq<Command>, c: Command) -> Seq<Command> {
    let i = last_index_of(ids_of(cmds), c.id@);
    if i < 0 { cmds.push(c) } else { cmds.update(i, c) }
}

/// `recent` without any occurrence of `id`.
pub open spec fn without(recent: Seq<Seq<char>>, id: Seq<char>) -> Seq<Seq<char>>
    decreases recent.len(),
{
    if recent.len() == 0 {
        seq![]
    } else if recent.last() == id {
        without(recent.drop_last(), id)
    } else {
        without(recent.drop_last(), id).push(recent.last())
    }
}

/// The most-recently-used list after running `id`: `id` moves to the front
/// and the list keeps at most ten entries.
pub open spec fn after_use(recent: Seq<Seq<char>>, id: Seq<char>) -> Seq<Seq<char>> {
    let r = seq![id] + without(recent, id);
    if r.len() > 10 { r.take(10) } else { r }
}

/// Number of most-recently-used entries kept.
pub const RECENT_CAPACITY: usize = 10;

/// Command palette: the commands and the most recently used command ids.
#[derive(Debug)]
pub struct CommandPalette {
    commands: Vec<Command>,
    recent: Vec<String>,
}

impl CommandPalette {
    pub closed spec fn spec_commands(&self) -> Seq<Command> {
        self.commands@
    }

    /// Most recently used command ids, most recent first.
    pub closed spec fn spec_recent(&self) -> Seq<Seq<char>> {
        self.recent@.map_values(|s: String| s@)
    }

    /// Command ids are distinct.
    pub closed spec fn wf(&self) -> bool {
        ids_of(self.commands@).no_duplicates()
    }

    /// The commands of a well-formed palette have distinct ids.
    pub proof fn lemma_ids_distinct(&self)
        requires
            self.wf(),
        ensures
            ids_of(self.spec_commands()).no_duplicates(),
    {
    }

    fn empty() -> (p: CommandPalette)
        ensures
            p.wf(),
            p.spec_commands() == Seq::<Command>::empty(),
            p.spec_recent() == Seq::<Seq<char>>::empty(),
    {
        let p = CommandPalette { commands: Vec::new(), recent: Vec::new() };
        assert(p.spec_recent() =~= Seq::<Seq<char>>::empty());
        assert(ids_of(p.commands@) =~= Seq::<Seq<char>>::empty());
        p
    }

    /// Position of the command with id `id`, if any.
    fn position(&self, id: &str) -> (r: Option<usize>)
        ensures
            match r {
                Some(i) => i == last_index_of(ids_of(self.commands@), id@) && i < self.commands@.len(),
                None => last_index_of(ids_of(self.commands@), id@) == -1,
            },
    {
        let ghost keys = ids_of(self.commands@);
        let mut i: usize = self.commands.len();
        while i > 0
            invariant
                i <= self.commands@.len(),
                keys == ids_of(self.commands@),
                forall|j: int| i <= j < keys.len() ==> keys[j] != id@,
            decreases i,
        {
            let j = i - 1;
            if str_eq(self.commands[j].id.as_str(), id) {
                assert(keys[j as int] == id@);
                proof {
                    lemma_last_index_prefix(keys, id@, i as int);
                    assert(keys.take(i as int).last() == id@);
                }
                return Some(j);
            }
            i = j;
        }
        proof {
            lemma_last_index_prefix(keys, id@, 0);
        }
        None
    }

    /// Registers a command, replacing any command with the same id.
    pub fn register(&mut self, command: Command)
        requires
            old(self).wf(),
        ensures
            final(self).wf(),
            final(self).spec_commands() == after_register(old(self).spec_commands(), command),
            final(self).spec_recent() == old(self).spec_recent(),
    {
        let ghost old_cmds = self.commands@;
        let ghost keys = ids_of(old_cmds);
        proof {
            lemma_last_index_bounds(keys, command.id@);
        }
        match self.position(command.id.as_str()) {
            Some(i) => {
                self.commands.set(i, command);
                assert(ids_of(self.commands@) =~= keys);
            },
            None => {
                self.commands.push(command);
                assert(ids_of(self.commands@) =~= keys.push(command.id@));
                assert forall|a: int, b: int| 0 <= a < b < keys.push(command.id@).len()
                    implies keys.push(command.id@)[a] != keys.push(command.id@)[b] by {
                    if b == keys.len() {
                        assert(keys[a] == keys.push(command.id@)[a]);
                    }
                }
            },
        }
    }

    /// The command with id `id`.
    pub fn get(&self, id: &str) -> (r: Option<&Command>)
        ensures
            match r {
                Some(c) => lookup(self.spec_commands(), id@) == Some(*c),
                None => lookup(self.spec_commands(), id@) is None,
            },
    {
        match self.position(id) {
            Some(i) => Some(&self.commands[i]),
            None => None,
        }
    }

    /// Number of commands.
    pub fn len(&self) -> (n: usize)
        ensures
            n == self.spec_commands().len(),
    {
        self.commands.len()
    }

    pub fn is_empty(&self) -> (b: bool)
        ensures
            b == (self.spec_commands().len() == 0),
    {
        self.commands.len() == 0
    }

    /// Moves `id` to the front of the most-recently-used list.
    fn note_use(&mut self, id: &str)
        ensures
            final(self).spec_recent() == after_use(old(self).spec_recent(), id@),
            final(self).spec_commands() == old(self).spec_commands(),
    {
        let ghost old_recent = self.spec_recent();
        let mut kept: Vec<String> = Vec::new();
        let mut i: usize = 0;
        while i < self.recent.len()
            invariant
                i <= self.recent@.len(),
                old_recent == self.recent@.map_values(|s: String| s@),
                kept@.map_values(|s: String| s@) == without(old_recent.take(i as int), id@),
            decreases self.recent@.len() - i,
        {
            let ghost prev = kept@.map_values(|s: String| s@);
            assert(old_recent.take(i + 1).drop_last() =~= old_recent.take(i as int));
            assert(old_recent.take(i + 1).last() == self.recent@[i as int]@);
            if !str_eq(self.recent[i].as_str(), id) {
                kept.push(self.recent[i].clone());
                assert(kept@.map_values(|s: String| s@) =~= prev.push(self.recent@[i as int]@));
            }
            i = i + 1;
        }
        assert(old_recent.take(self.recent@.len() as int) =~= old_recent);
        let mut fresh: Vec<String> = Vec::new();
        fresh.push(owned(id));
        let mut k: usize = 0;
        while k < kept.len() && fresh.len() < RECENT_CAPACITY
            invariant
                k <= kept@.len(),
                fresh@.len() == k + 1,
                fresh@.len() <= RECENT_CAPACITY,
                fresh@.map_values(|s: String| s@) == (seq![id@] + kept@.map_values(|s: String| s@)).take(k + 1),
            decreases kept@.len() - k,
        {
            let ghost prev = fresh@.map_values(|s: String| s@);
            fresh.push(kept[k].clone());
            assert(fresh@.map_values(|s: String| s@) =~= (seq![id@] + kept@.map_values(|s: String| s@)).take(k + 2));
            k = k + 1;
        }
        let ghost all = seq![id@] + kept@.map_values(|s: String| s@);
        assert(fresh@.map_values(|s: String| s@) =~= (if all.len() > 10 { all.take(10) } else { all }));
        self.recent = fresh;
    }

    /// Runs the command with id `id` and moves it to the front of the
    /// most-recently-used list; an error naming the id when there is none.
    pub fn execute(&mut self, id: &str) -> (r: CommandResult)
        requires
            old(self).wf(),
        ensures
            final(self).wf(),
            final(self).spec_commands() == old(self).spec_commands(),
            match lookup(old(self).spec_commands(), id@) {
                Some(c) => r == c.spec_handler() && final(self).spec_recent() == after_use(old(self).spec_recent(), id@),
                None => final(self).spec_recent() == old(self).spec_recent()
                    && (r matches CommandResult::Error(m) && m@ == "Command '"@ + id@ + "' not found"@),
            },
    {
        match self.position(id) {
            Some(i) => {
                self.note_use(id);
                self.commands[i].execute()
            },
            None => {
                let mut m = owned("Command '");
                m.append(id);
                m.append("' not found");
                CommandResult::Error(m)
            },
        }
    }
}


/// Match score of a command for a lowercase query: 100 for an exact title,
/// 80 for a title prefix, 60 for a title substring, 40 for an id substring,
/// 20 for a description substring, 0 otherwise (all compared in lowercase).
pub open spec fn spec_score(c: Command, q: Seq<char>) -> int {
    let t = lowercase_of(c.title@);
    if t == q {
        100
    } else if seq_starts_with(t, q) {
        80
    } else if seq_contains(t, q) {
        60
    } else if seq_contains(lowercase_of(c.id@), q) {
        40
    } else if seq_contains(lowercase_of(c.description@), q) {
        20
    } else {
        0
    }
}

/// The commands scoring exactly `s`, in list order.
pub open spec fn scoring(cmds: Seq<Command>, q: Seq<char>, s: int) -> Seq<Command>
    decreases cmds.len(),
{
    if cmds.len() == 0 {
        seq![]
    } else if spec_score(cmds.last(), q) == s {
        scoring(cmds.drop_last(), q, s).push(cmds.last())
    } else {
        scoring(cmds.drop_last(), q, s)
    }
}

/// Search results for a non-empty lowercase query: matching commands, best
/// score first, list order among equal scores, at most twenty.
pub open spec fn ranked(cmds: Seq<Command>, q: Seq<char>) -> Seq<Command> {
    let all = scoring(cmds, q, 100) + scoring(cmds, q, 80) + scoring(cmds, q, 60) + scoring(cmds, q, 40)
        + scoring(cmds, q, 20);
    if all.len() > 20 { all.take(20) } else { all }
}

/// The commands of the recently used ids that exist, most recent first.
pub open spec fn recent_commands(recent: Seq<Seq<char>>, cmds: Seq<Command>) -> Seq<Command>
    decreases recent.len(),
{
    if recent.len() == 0 {
        seq![]
    } else {
        let rest = recent_commands(recent.drop_last(), cmds);
        match lookup(cmds, recent.last()) {
            Some(c) => rest.push(c),
            None => rest,
        }
    }
}

/// `results` topped up from `cmds` (in list order, skipping ids already
/// present) until it holds ten commands.
pub open spec fn top_up(results: Seq<Command>, cmds: Seq<Command>) -> Seq<Command>
    decreases cmds.len(),
{
    if cmds.len() == 0 || results.len() >= 10 {
        results
    } else if ids_of(results).contains(cmds[0].id@) {
        top_up(results, cmds.drop_first())
    } else {
        top_up(results.push(cmds[0]), cmds.drop_first())
    }
}

/// Results for the empty query: the recently used commands, topped up to ten
/// from the command list when there are fewer than five.
pub open spec fn empty_query_results(recent: Seq<Seq<char>>, cmds: Seq<Command>) -> Seq<Command> {
    let r = recent_commands(recent, cmds);
    if r.len() < 5 { top_up(r, cmds) } else { r }
}

/// The score of `c` for the lowercase query `q`.
fn score(c: &Command, q: &str) -> (r: u8)
    ensures
        r as int == spec_score(*c, q@),
{
    let t = to_lowercase(c.title.as_str());
    if str_eq(t.as_str(), q) {
        100
    } else if crate::text::starts_with(t.as_str(), q) {
        80
    } else if crate::text::contains(t.as_str(), q) {
        60
    } else if crate::text::contains(to_lowercase(c.id.as_str()).as_str(), q) {
        40
    } else if crate::text::contains(to_lowercase(c.description.as_str()).as_str(), q) {
        20
    } else {
        0
    }
}

/// Whether some command in `v` has id `id`.
fn has_id(v: &Vec<&Command>, id: &str) -> (b: bool)
    ensures
        b == ids_of(v@.map_values(|c: &Command| *c)).contains(id@),
{
    let ghost ids = ids_of(v@.map_values(|c: &Command| *c));
    let mut i: usize = 0;
    while i < v.len()
        invariant
            i <= v@.len(),
            ids == ids_of(v@.map_values(|c: &Command| *c)),
            forall|j: int| 0 <= j < i ==> ids[j] != id@,
        decreases v@.len() - i,
    {
        if str_eq(v[i].id.as_str(), id) {
            assert(ids[i as int] == id@);
            return true;
        }
        i = i + 1;
    }
    false
}

impl CommandPalette {
    /// Appends the commands scoring exactly `s` for the lowercase query `q`.
    fn collect_scoring<'a>(&'a self, q: &str, s: u8, out: &mut Vec<&'a Command>)
        ensures
            final(out)@.map_values(|c: &Command| *c) == old(out)@.map_values(|c: &Command| *c) + scoring(self.commands@, q@, s as int),
    {
        let ghost start = out@.map_values(|c: &Command| *c);
        let mut i: usize = 0;
        while i < self.commands.len()
            invariant
                i <= self.commands@.len(),
                out@.map_values(|c: &Command| *c) == start + scoring(self.commands@.take(i as int), q@, s as int),
            decreases self.commands@.len() - i,
        {
            let ghost prev = out@.map_values(|c: &Command| *c);
            let ghost pre = self.commands@.take(i as int);
            assert(self.commands@.take(i + 1).drop_last() =~= pre);
            assert(self.commands@.take(i + 1).last() == self.commands@[i as int]);
            let c = &self.commands[i];
            if score(c, q) == s {
                out.push(c);
                assert(out@.map_values(|c: &Command| *c) =~= prev.push(*c));
                assert(start + scoring(pre, q@, s as int).push(*c) =~= (start + scoring(pre, q@, s as int)).push(*c));
            }
            i = i + 1;
        }
        assert(self.commands@.take(self.commands@.len() as int) =~= self.commands@);
    }

    /// Fuzzy search. A non-empty query ranks the matching commands (see
    /// `ranked`); the empty query lists recently used commands, topped up
    /// from the command list.
    pub fn search(&self, query: &str) -> (v: Vec<&Command>)
        ensures
            query@.len() == 0 ==> v@.map_values(|c: &Command| *c) == empty_query_results(self.spec_recent(), self.spec_commands()),
            query@.len() > 0 ==> v@.map_values(|c: &Command| *c) == ranked(self.spec_commands(), lowercase_of(query@)),
    {
        if query.unicode_len() == 0 {
            return self.search_empty();
        }
        let q = to_lowercase(query);
        let mut out: Vec<&Command> = Vec::new();
        assert(out@.map_values(|c: &Command| *c) =~= Seq::<Command>::empty());
        self.collect_scoring(q.as_str(), 100, &mut out);
        self.collect_scoring(q.as_str(), 80, &mut out);
        self.collect_scoring(q.as_str(), 60, &mut out);
        self.collect_scoring(q.as_str(), 40, &mut out);
        self.collect_scoring(q.as_str(), 20, &mut out);
        let ghost all = out@.map_values(|c: &Command| *c);
        assert(all =~= scoring(self.commands@, q@, 100) + scoring(self.commands@, q@, 80) + scoring(self.commands@, q@, 60)
            + scoring(self.commands@, q@, 40) + scoring(self.commands@, q@, 20));
        if out.len() > 20 {
            out.truncate(20);
            assert(out@.map_values(|c: &Command| *c) =~= all.take(20));
        }
        out
    }

    fn search_empty(&self) -> (v: Vec<&Command>)
        ensures
            v@.map_values(|c: &Command| *c) == empty_query_results(self.spec_recent(), self.spec_commands()),
    {
        let ghost recent = self.spec_recent();
        let ghost cmds = self.spec_commands();
        let mut out: Vec<&Command> = Vec::new();
        let mut i: usize = 0;
        while i < self.recent.len()
            invariant
                i <= self.recent@.len(),
                recent == self.recent@.map_values(|s: String| s@),
                cmds == self.commands@,
                out@.map_values(|c: &Command| *c) == recent_commands(recent.take(i as int), cmds),
            decreases self.recent@.len() - i,
        {
            let ghost prev = out@.map_values(|c: &Command| *c);
            assert(recent.take(i + 1).drop_last() =~= recent.take(i as int));
            assert(recent.take(i + 1).last() == self.recent@[i as int]@);
            match self.get(self.recent[i].as_str()) {
                Some(c) => {
                    out.push(c);
                    assert(out@.map_values(|c: &Command| *c) =~= prev.push(*c));
                },
                None => {},
            }
            i = i + 1;
        }
        assert(recent.take(self.recent@.len() as int) =~= recent);
        if out.len() < 5 {
            let ghost r0 = out@.map_values(|c: &Command| *c);
            let mut k: usize = 0;
            assert(cmds.skip(0) =~= cmds);
            while k < self.commands.len() && out.len() < 10
                invariant
                    k <= self.commands@.len(),
                    cmds == self.commands@,
                    top_up(r0, cmds) == top_up(out@.map_values(|c: &Command| *c), cmds.skip(k as int)),
                decreases self.commands@.len() - k,
            {
                let ghost prev = out@.map_values(|c: &Command| *c);
                assert(cmds.skip(k as int).drop_first() =~= cmds.skip(k + 1));
                assert(cmds.skip(k as int)[0] == cmds[k as int]);
                let c = &self.commands[k];
                if !has_id(&out, c.id.as_str()) {
                    out.push(c);
                    assert(out@.map_values(|c: &Command| *c) =~= prev.push(*c));
                }
                k = k + 1;
            }
            assert(cmds.skip(k as int).len() == 0 || out@.len() >= 10);
        }
        out
    }
}


/// Ids of the built-in commands, in registration order.
pub open spec fn builtin_ids() -> Seq<Seq<char>> {
    seq!["file.new_project"@, "file.open_project"@, "file.save"@, "file.save_all"@, "scene.new_scene"@, "scene.run"@, "scene.stop"@, "build.export_web"@, "build.export_desktop"@, "view.toggle_ai"@, "view.toggle_scene_tree"@, "help.about"@]
}

/// Titles of the built-in commands, in registration order.
pub open spec fn builtin_titles() -> Seq<Seq<char>> {
    seq!["New Project"@, "Open Project"@, "Save"@, "Save All"@, "New Scene"@, "Run Scene"@, "Stop"@, "Export for Web"@, "Export for Desktop"@, "Toggle AI Assistant"@, "Toggle Scene Tree"@, "About Ummerse"@]
}

/// One built-in command.
pub open spec fn builtin(
    id: Seq<char>,
    title: Seq<char>,
    description: Seq<char>,
    category: CommandCategory,
    keybinding: Option<Seq<char>>,
    handler: ResultView,
) -> CommandView {
    CommandView { id, title, description, category, keybinding, handler }
}

/// The built-in commands, in registration order.
pub open spec fn builtin_commands() -> Seq<CommandView> {
    seq![
        builtin("file.new_project"@, "New Project"@, "Create a new game project"@, CommandCategory::File, Some("Ctrl+Shift+N"@), ResultView::NeedsInput("new_project_dialog"@)),
        builtin("file.open_project"@, "Open Project"@, "Open an existing game project"@, CommandCategory::File, Some("Ctrl+Shift+O"@), ResultView::NeedsInput("open_project_dialog"@)),
        builtin("file.save"@, "Save"@, "Save the current file"@, CommandCategory::File, Some("Ctrl+S"@), ResultView::Success(Some("Saved"@))),
        builtin("file.save_all"@, "Save All"@, "Save all modified files"@, CommandCategory::File, Some("Ctrl+Shift+S"@), ResultView::Success(Some("All files saved"@))),
        builtin("scene.new_scene"@, "New Scene"@, "Create a new empty scene"@, CommandCategory::Scene, None, ResultView::NeedsInput("new_scene_dialog"@)),
        builtin("scene.run"@, "Run Scene"@, "Run the current scene in game preview"@, CommandCategory::Scene, Some("F5"@), ResultView::Success(None)),
        builtin("scene.stop"@, "Stop"@, "Stop game preview"@, CommandCategory::Scene, Some("Escape"@), ResultView::Success(None)),
        builtin("build.export_web"@, "Export for Web"@, "Build and export the game for WebAssembly"@, CommandCategory::Build, None, ResultView::NeedsInput("export_web_dialog"@)),
        builtin("build.export_desktop"@, "Export for Desktop"@, "Build and export the game for desktop platforms"@, CommandCategory::Build, None, ResultView::NeedsInput("export_desktop_dialog"@)),
        builtin("view.toggle_ai"@, "Toggle AI Assistant"@, "Show or hide the AI assistant panel"@, CommandCategory::View, Some("Ctrl+Shift+A"@), ResultView::Success(None)),
        builtin("view.toggle_scene_tree"@, "Toggle Scene Tree"@, "Show or hide the scene tree panel"@, CommandCategory::View, None, ResultView::Success(None)),
        builtin("help.about"@, "About Ummerse"@, "Show information about the Ummerse game engine"@, CommandCategory::Help, None, ResultView::Success(Some("Ummerse Engine v0.1.0\nA modern 2D/3D game engine"@))),
    ]
}

impl CommandPalette {
    /// A palette holding the built-in commands and no recent ones.
    pub fn new() -> (p: CommandPalette)
        ensures
            p.wf(),
            p.spec_commands().map_values(|c: Command| c@) == builtin_commands(),
            ids_of(p.spec_commands()) == builtin_ids(),
            p.spec_commands().map_values(|c: Command| c.title@) == builtin_titles(),
            p.spec_recent() == Seq::<Seq<char>>::empty(),
    {
        let mut commands: Vec<Command> = Vec::new();
        commands.push(Command::new("file.new_project", "New Project", "Create a new game project", CommandCategory::File, CommandResult::NeedsInput(owned("new_project_dialog"))).with_keybinding("Ctrl+Shift+N"));
        commands.push(Command::new("file.open_project", "Open Project", "Open an existing game project", CommandCategory::File, CommandResult::NeedsInput(owned("open_project_dialog"))).with_keybinding("Ctrl+Shift+O"));
        commands.push(Command::new("file.save", "Save", "Save the current file", CommandCategory::File, CommandResult::Success(Some(owned("Saved")))).with_keybinding("Ctrl+S"));
        commands.push(Command::new("file.save_all", "Save All", "Save all modified files", CommandCategory::File, CommandResult::Success(Some(owned("All files saved")))).with_keybinding("Ctrl+Shift+S"));
        commands.push(Command::new("scene.new_scene", "New Scene", "Create a new empty scene", CommandCategory::Scene, CommandResult::NeedsInput(owned("new_scene_dialog"))));
        commands.push(Command::new("scene.run", "Run Scene", "Run the current scene in game preview", CommandCategory::Scene, CommandResult::Success(None)).with_keybinding("F5"));
        commands.push(Command::new("scene.stop", "Stop", "Stop game preview", CommandCategory::Scene, CommandResult::Success(None)).with_keybinding("Escape"));
        commands.push(Command::new("build.export_web", "Export for Web", "Build and export the game for WebAssembly", CommandCategory::Build, CommandResult::NeedsInput(owned("export_web_dialog"))));
        commands.push(Command::new("build.export_desktop", "Export for Desktop", "Build and export the game for desktop platforms", CommandCategory::Build, CommandResult::NeedsInput(owned("export_desktop_dialog"))));
        commands.push(Command::new("view.toggle_ai", "Toggle AI Assistant", "Show or hide the AI assistant panel", CommandCategory::View, CommandResult::Success(None)).with_keybinding("Ctrl+Shift+A"));
        commands.push(Command::new("view.toggle_scene_tree", "Toggle Scene Tree", "Show or hide the scene tree panel", CommandCategory::View, CommandResult::Success(None)));
        commands.push(Command::new("help.about", "About Ummerse", "Show information about the Ummerse game engine", CommandCategory::Help, CommandResult::Success(Some(owned("Ummerse Engine v0.1.0\nA modern 2D/3D game engine")))));
        let p = CommandPalette { commands, recent: Vec::new() };
        assert(p.spec_recent() =~= Seq::<Seq<char>>::empty());
        assert(ids_of(p.commands@) =~= builtin_ids());
        assert(p.commands@.map_values(|c: Command| c.title@) =~= builtin_titles());
        assert(p.commands@.map_values(|c: Command| c@) =~= builtin_commands());
        proof {
            reveal_strlit("file.new_project");
            reveal_strlit("file.open_project");
            reveal_strlit("file.save");
            reveal_strlit("file.save_all");
            reveal_strlit("scene.new_scene");
            reveal_strlit("scene.run");
            reveal_strlit("scene.stop");
            reveal_strlit("build.export_web");
            reveal_strlit("build.export_desktop");
            reveal_strlit("view.toggle_ai");
            reveal_strlit("view.toggle_scene_tree");
            reveal_strlit("help.about");
            let ids = builtin_ids();
            assert forall|a: int, b: int| 0 <= a < b < ids.len() implies ids[a] != ids[b] by {
                assert(ids[a].len() != ids[b].len() || ids[a][0] != ids[b][0] || ids[a][5] != ids[b][5]);
            }
        }
        p
    }
}

impl Default for CommandPalette {
    fn default() -> (p: Self)
        ensures
            p.wf(),
            p.spec_commands().map_values(|c: Command| c@) == builtin_commands(),
            ids_of(p.spec_commands()) == builtin_ids(),
            p.spec_recent() == Seq::<Seq<char>>::empty(),
    {
        CommandPalette::new()
    }
}


proof fn lemma_without_props(recent: Seq<Seq<char>>, id: Seq<char>)
    ensures
        !without(recent, id).contains(id),
        without(recent, id).len() <= recent.len(),
        recent.no_duplicates() ==> without(recent, id).no_duplicates(),
        forall|x: Seq<char>| without(recent, id).contains(x) ==> recent.contains(x),
    decreases recent.len(),
{
    if recent.len() > 0 {
        let init = recent.drop_last();
        lemma_without_props(init, id);
        assert forall|x: Seq<char>| init.contains(x) implies recent.contains(x) by {
            let k = choose|k: int| 0 <= k < init.len() && init[k] == x;
            assert(recent[k] == x);
        }
        if recent.last() != id {
            let w = without(init, id);
            assert(recent[recent.len() - 1] == recent.last());
            if w.push(recent.last()).contains(id) {
                let k = choose|k: int| 0 <= k < w.push(recent.last()).len() && w.push(recent.last())[k] == id;
                if k < w.len() {
                    assert(w[k] == id);
                }
            }
            assert forall|x: Seq<char>| w.push(recent.last()).contains(x) implies recent.contains(x) by {
                let k = choose|k: int| 0 <= k < w.push(recent.last()).len() && w.push(recent.last())[k] == x;
                if k < w.len() {
                    assert(w.contains(x));
                }
            }
            if recent.no_duplicates() {
                assert(init.no_duplicates()) by {
                    assert forall|a: int, b: int| 0 <= a < b < init.len() implies init[a] != init[b] by {
                        assert(recent[a] == init[a] && recent[b] == init[b]);
                    }
                }
                assert(!init.contains(recent.last())) by {
                    if init.contains(recent.last()) {
                        let k = choose|k: int| 0 <= k < init.len() && init[k] == recent.last();
                        assert(recent[k] == recent[recent.len() - 1]);
                    }
                }
                assert(!w.contains(recent.last()));
                assert forall|a: int, b: int| 0 <= a < b < w.push(recent.last()).len() implies w.push(recent.last())[a] != w.push(recent.last())[b] by {
                    if b == w.len() {
                        assert(w.contains(w[a]));
                    }
                }
            }
        } else if recent.no_duplicates() {
            assert forall|a: int, b: int| 0 <= a < b < init.len() implies init[a] != init[b] by {
                assert(recent[a] == init[a] && recent[b] == init[b]);
            }
        }
    }
}

/// Running a command puts its id first in the most-recently-used list, keeps
/// that list free of repeats and at most ten long.
pub proof fn law_recent_front_and_distinct(recent: Seq<Seq<char>>, id: Seq<char>)
    requires
        recent.no_duplicates(),
    ensures
        after_use(recent, id).len() > 0,
        after_use(recent, id)[0] == id,
        after_use(recent, id).len() <= 10,
        after_use(recent, id).no_duplicates(),
{
    lemma_without_props(recent, id);
    let w = without(recent, id);
    let r = seq![id] + w;
    assert(r[0] == id);
    assert forall|a: int, b: int| 0 <= a < b < r.len() implies r[a] != r[b] by {
        if a == 0 {
            assert(r[b] == w[b - 1]);
            assert(w.contains(w[b - 1]));
        } else {
            assert(r[a] == w[a - 1] && r[b] == w[b - 1]);
        }
    }
    if r.len() > 10 {
        let t = r.take(10);
        assert forall|a: int, b: int| 0 <= a < b < t.len() implies t[a] != t[b] by {
            assert(t[a] == r[a] && t[b] == r[b]);
        }
    }
}

/// Registering a command makes it the one found under its id, and leaves the
/// command found under every other id as it was.
pub proof fn law_register_then_lookup(cmds: Seq<Command>, c: Command, other: Seq<char>)
    requires
        ids_of(cmds).no_duplicates(),
    ensures
        lookup(after_register(cmds, c), c.id@) == Some(c),
        other != c.id@ ==> lookup(after_register(cmds, c), other) == lookup(cmds, other),
{
    let keys = ids_of(cmds);
    lemma_last_index_bounds(keys, c.id@);
    lemma_last_index_bounds(keys, other);
    let i = last_index_of(keys, c.id@);
    let after = after_register(cmds, c);
    if i < 0 {
        assert(ids_of(after) =~= keys.push(c.id@));
        assert(ids_of(after).drop_last() =~= keys);
    } else {
        assert(ids_of(after) =~= keys.update(i, c.id@));
        assert(keys.update(i, c.id@) =~= keys);
        lemma_last_index_unique(keys, c.id@, i);
        if other != c.id@ {
            let j = last_index_of(keys, other);
            if j >= 0 {
                assert(after[j] == cmds[j]);
            }
        }
    }
}

/// With distinct keys, the key found at index `i` has its last index there.
proof fn lemma_last_index_unique(keys: Seq<Seq<char>>, k: Seq<char>, i: int)
    requires
        keys.no_duplicates(),
        0 <= i < keys.len(),
        keys[i] == k,
    ensures
        last_index_of(keys, k) == i,
{
    lemma_last_index_bounds(keys, k);
    let j = last_index_of(keys, k);
    assert(j >= 0) by {
        if j == -1 {
            assert(keys.contains(k));
        }
    }
}

proof fn lemma_scoring_props(cmds: Seq<Command>, q: Seq<char>, s: int)
    ensures
        scoring(cmds, q, s).len() <= cmds.len(),
        forall|i: int| 0 <= i < scoring(cmds, q, s).len() ==> spec_score(#[trigger] scoring(cmds, q, s)[i], q) == s,
    decreases cmds.len(),
{
    if cmds.len() > 0 {
        lemma_scoring_props(cmds.drop_last(), q, s);
    }
}

/// Score of position `i` in the concatenation of the five score groups whose
/// boundaries are `la <= lb <= lc <= ld`.
spec fn band(i: int, la: int, lb: int, lc: int, ld: int) -> int {
    if i < la {
        100
    } else if i < lb {
        80
    } else if i < lc {
        60
    } else if i < ld {
        40
    } else {
        20
    }
}

/// Search results for a query are ordered by score, best first, every one of
/// them matches (scores at least 20), and there are at most twenty.
pub proof fn law_ranked_sorted(cmds: Seq<Command>, q: Seq<char>)
    ensures
        ranked(cmds, q).len() <= 20,
        forall|i: int| 0 <= i < ranked(cmds, q).len() ==> spec_score(#[trigger] ranked(cmds, q)[i], q) >= 20,
        forall|i: int, j: int| 0 <= i < j < ranked(cmds, q).len() ==> spec_score(#[trigger] ranked(cmds, q)[i], q) >= spec_score(#[trigger] ranked(cmds, q)[j], q),
{
    let a = scoring(cmds, q, 100);
    let b = scoring(cmds, q, 80);
    let c = scoring(cmds, q, 60);
    let d = scoring(cmds, q, 40);
    let e = scoring(cmds, q, 20);
    lemma_scoring_props(cmds, q, 100);
    lemma_scoring_props(cmds, q, 80);
    lemma_scoring_props(cmds, q, 60);
    lemma_scoring_props(cmds, q, 40);
    lemma_scoring_props(cmds, q, 20);
    let all = a + b + c + d + e;
    let la = a.len() as int;
    let lb = la + b.len();
    let lc = lb + c.len();
    let ld = lc + d.len();
    assert forall|i: int| 0 <= i < all.len() implies #[trigger] spec_score(all[i], q) == band(i, la, lb, lc, ld) by {
        if i < la {
            assert(all[i] == a[i]);
        } else if i < lb {
            assert(all[i] == b[i - la]);
        } else if i < lc {
            assert(all[i] == c[i - lb]);
        } else if i < ld {
            assert(all[i] == d[i - lc]);
        } else {
            assert(all[i] == e[i - ld]);
        }
    }
    let r = ranked(cmds, q);
    assert forall|i: int| 0 <= i < r.len() implies r[i] == all[i] by {}
    assert forall|i: int| 0 <= i < r.len() implies spec_score(#[trigger] r[i], q) >= 20 by {
        assert(r[i] == all[i]);
        assert(spec_score(all[i], q) >= 20);
    }
    assert forall|i: int, j: int| 0 <= i < j < r.len() implies spec_score(#[trigger] r[i], q) >= spec_score(#[trigger] r[j], q) by {
        assert(r[i] == all[i] && r[j] == all[j]);
        assert(spec_score(all[i], q) == band(i, la, lb, lc, ld));
        assert(spec_score(all[j], q) == band(j, la, lb, lc, ld));
    }
}

/// Whether a command matches a lowercase query: its title, id or
/// description, lowercased, contains the query.
pub open spec fn matches_query(c: Command, q: Seq<char>) -> bool {
    ||| seq_contains(lowercase_of(c.title@), q)
    ||| seq_contains(lowercase_of(c.id@), q)
    ||| seq_contains(lowercase_of(c.description@), q)
}

/// A command scores at least 20 exactly when it matches the query.
proof fn lemma_score_iff_match(c: Command, q: Seq<char>)
    ensures
        spec_score(c, q) >= 20 <==> matches_query(c, q),
        spec_score(c, q) == 100 || spec_score(c, q) == 80 || spec_score(c, q) == 60 || spec_score(c, q) == 40
            || spec_score(c, q) == 20 || spec_score(c, q) == 0,
{
    let t = lowercase_of(c.title@);
    if t == q {
        assert(t.subrange(0, q.len() as int) =~= q);
        assert(crate::text::occurs_at(t, q, 0));
    } else if seq_starts_with(t, q) {
        assert(crate::text::occurs_at(t, q, 0));
    }
}

/// A command of the list that scores `s` is among those scoring `s`.
proof fn lemma_in_scoring(cmds: Seq<Command>, q: Seq<char>, k: int)
    requires
        0 <= k < cmds.len(),
    ensures
        scoring(cmds, q, spec_score(cmds[k], q)).contains(cmds[k]),
    decreases cmds.len(),
{
    let s = spec_score(cmds[k], q);
    if k == cmds.len() - 1 {
        let r = scoring(cmds, q, s);
        assert(r == scoring(cmds.drop_last(), q, s).push(cmds.last()));
        assert(r[r.len() - 1] == cmds[k]);
    } else {
        let init = cmds.drop_last();
        assert(init[k] == cmds[k]);
        lemma_in_scoring(init, q, k);
        let r0 = scoring(init, q, s);
        let j = choose|j: int| 0 <= j < r0.len() && r0[j] == cmds[k];
        if spec_score(cmds.last(), q) == s {
            assert(scoring(cmds, q, s)[j] == cmds[k]);
        } else {
            assert(scoring(cmds, q, s) == r0);
        }
    }
}

/// The five score groups together hold no more commands than the list.
proof fn lemma_scoring_total(cmds: Seq<Command>, q: Seq<char>)
    ensures
        scoring(cmds, q, 100).len() + scoring(cmds, q, 80).len() + scoring(cmds, q, 60).len()
            + scoring(cmds, q, 40).len() + scoring(cmds, q, 20).len() <= cmds.len(),
    decreases cmds.len(),
{
    if cmds.len() > 0 {
        lemma_scoring_total(cmds.drop_last(), q);
    }
}

/// A non-empty search finds every matching command: when the palette holds
/// at most twenty commands, each command whose title, id or description
/// contains the (lowercase) query is among the results.
pub proof fn law_search_finds_every_match(cmds: Seq<Command>, q: Seq<char>, k: int)
    requires
        cmds.len() <= 20,
        0 <= k < cmds.len(),
        matches_query(cmds[k], q),
    ensures
        ranked(cmds, q).contains(cmds[k]),
{
    lemma_score_iff_match(cmds[k], q);
    lemma_scoring_total(cmds, q);
    lemma_in_scoring(cmds, q, k);
    let a = scoring(cmds, q, 100);
    let b = scoring(cmds, q, 80);
    let c = scoring(cmds, q, 60);
    let d = scoring(cmds, q, 40);
    let e = scoring(cmds, q, 20);
    let all = a + b + c + d + e;
    assert(ranked(cmds, q) == all);
    let s = spec_score(cmds[k], q);
    let g = scoring(cmds, q, s);
    let j = choose|j: int| 0 <= j < g.len() && g[j] == cmds[k];
    let la: int = a.len() as int;
    let lb: int = la + b.len();
    let lc: int = lb + c.len();
    let ld: int = lc + d.len();
    let off: int = if s == 100 { 0 } else if s == 80 { la } else if s == 60 { lb } else if s == 40 { lc } else { ld };
    assert(all[off + j] == cmds[k]);
}

/// Every result of a non-empty search matches the query: its title, id or
/// description contains it.
pub proof fn law_search_results_match(cmds: Seq<Command>, q: Seq<char>)
    ensures
        forall|i: int| 0 <= i < ranked(cmds, q).len() ==> matches_query(#[trigger] ranked(cmds, q)[i], q),
{
    law_ranked_sorted(cmds, q);
    assert forall|i: int| 0 <= i < ranked(cmds, q).len() implies matches_query(#[trigger] ranked(cmds, q)[i], q) by {
        lemma_score_iff_match(ranked(cmds, q)[i], q);
    }
}

} // verus!
