//! The engine's built-in tools and what describes them: name, purpose,
//! category and whether a call needs the user's approval. Running a tool is
//! I/O and happens outside this library.
use vstd::prelude::*;
use crate::text::{owned, str_eq, str_lt, seq_lex_lt, lemma_lex_asymmetric, lemma_lex_transitive, lemma_lex_total};

verus! {

/// Tool categories, used to group tools in the user interface.
#[derive(Debug, Clone, Copy, PartialEq, Eq, Structural)]
pub enum ToolCategory {
    General,
    FileSystem,
    SceneTree,
    Physics,
    Rendering,
    Script,
    Editor,
    Build,
}

/// Display name of each category.
pub open spec fn category_display_name(c: ToolCategory) -> Seq<char> {
    match c {
        ToolCategory::General => "General"@,
        ToolCategory::FileSystem => "File System"@,
        ToolCategory::SceneTree => "Scene Tree"@,
        ToolCategory::Physics => "Physics"@,
        ToolCategory::Rendering => "Rendering"@,
        ToolCategory::Script => "Script"@,
        ToolCategory::Editor => "Editor"@,
        ToolCategory::Build => "Build"@,
    }
}

impl ToolCategory {
    pub fn display_name(&self) -> (s: &'static str)
        ensures
            s@ == category_display_name(*self),
    {
        match self {
            ToolCategory::General => "General",
            ToolCategory::FileSystem => "File System",
            ToolCategory::SceneTree => "Scene Tree",
            ToolCategory::Physics => "Physics",
            ToolCategory::Rendering => "Rendering",
            ToolCategory::Script => "Script",
            ToolCategory::Editor => "Editor",
            ToolCategory::Build => "Build",
        }
    }
}

/// What describes an engine tool. Implemented by the built-in tools and by
/// users' own tools.
pub trait EngineTool {
    /// The tool's name (snake_case, unique in a registry).
    fn name(&self) -> &str;

    /// What the tool does, for an AI assistant to read.
    fn description(&self) -> &str;

    /// Whether a call needs the user's approval (tools that write do). A tool
    /// that does not say needs none.
    fn requires_approval(&self) -> (b: bool)
        default_ensures
            !b,
    {
        false
    }

    /// The tool's category; `General` for a tool that does not say.
    fn category(&self) -> (c: ToolCategory)
        default_ensures
            c == ToolCategory::General,
    {
        ToolCategory::General
    }
}

/// Reads a text file.
#[derive(Debug, Clone, Copy)]
pub struct ReadFileTool;

impl EngineTool for ReadFileTool {
    fn name(&self) -> (s: &str)
        ensures
            s@ == "read_file"@,
    {
        "read_file"
    }

    fn description(&self) -> (s: &str)
        ensures
            s@ == "Read the contents of a file at the specified path. Returns the file content as text."@,
    {
        "Read the contents of a file at the specified path. Returns the file content as text."
    }

    fn requires_approval(&self) -> (b: bool)
        ensures
            b == false,
    {
        false
    }

    fn category(&self) -> (c: ToolCategory)
        ensures
            c == ToolCategory::FileSystem,
    {
        ToolCategory::FileSystem
    }
}

/// Writes a file (needs approval).
#[derive(Debug, Clone, Copy)]
pub struct WriteFileTool;

impl EngineTool for WriteFileTool {
    fn name(&self) -> (s: &str)
        ensures
            s@ == "write_file"@,
    {
        "write_file"
    }

    fn description(&self) -> (s: &str)
        ensures
            s@ == "Write content to a file. Creates parent directories if they don't exist."@,
    {
        "Write content to a file. Creates parent directories if they don't exist."
    }

    fn requires_approval(&self) -> (b: bool)
        ensures
            b == true,
    {
        true
    }

    fn category(&self) -> (c: ToolCategory)
        ensures
            c == ToolCategory::FileSystem,
    {
        ToolCategory::FileSystem
    }
}

/// Lists a directory.
#[derive(Debug, Clone, Copy)]
pub struct ListFilesTool;

impl EngineTool for ListFilesTool {
    fn name(&self) -> (s: &str)
        ensures
            s@ == "list_files"@,
    {
        "list_files"
    }

    fn description(&self) -> (s: &str)
        ensures
            s@ == "List files and directories at the given path. Set recursive=true for deep listing."@,
    {
        "List files and directories at the given path. Set recursive=true for deep listing."
    }

    fn requires_approval(&self) -> (b: bool)
        ensures
            b == false,
    {
        false
    }

    fn category(&self) -> (c: ToolCategory)
        ensures
            c == ToolCategory::FileSystem,
    {
        ToolCategory::FileSystem
    }
}

/// Searches file contents for a pattern.
#[derive(Debug, Clone, Copy)]
pub struct SearchFilesTool;

impl EngineTool for SearchFilesTool {
    fn name(&self) -> (s: &str)
        ensures
            s@ == "search_files"@,
    {
        "search_files"
    }

    fn description(&self) -> (s: &str)
        ensures
            s@ == "Search for text patterns in files. Returns matching lines with context."@,
    {
        "Search for text patterns in files. Returns matching lines with context."
    }

    fn requires_approval(&self) -> (b: bool)
        ensures
            b == false,
    {
        false
    }

    fn category(&self) -> (c: ToolCategory)
        ensures
            c == ToolCategory::FileSystem,
    {
        ToolCategory::FileSystem
    }
}

/// Deletes a file or empty directory (needs approval).
#[derive(Debug, Clone, Copy)]
pub struct DeleteFileTool;

impl EngineTool for DeleteFileTool {
    fn name(&self) -> (s: &str)
        ensures
            s@ == "delete_file"@,
    {
        "delete_file"
    }

    fn description(&self) -> (s: &str)
        ensures
            s@ == "Delete a file or empty directory. Use with caution."@,
    {
        "Delete a file or empty directory. Use with caution."
    }

    fn requires_approval(&self) -> (b: bool)
        ensures
            b == true,
    {
        true
    }

    fn category(&self) -> (c: ToolCategory)
        ensures
            c == ToolCategory::FileSystem,
    {
        ToolCategory::FileSystem
    }
}

/// Reports the scene tree.
#[derive(Debug, Clone, Copy)]
pub struct GetSceneTreeTool;

impl EngineTool for GetSceneTreeTool {
    fn name(&self) -> (s: &str)
        ensures
            s@ == "get_scene_tree"@,
    {
        "get_scene_tree"
    }

    fn description(&self) -> (s: &str)
        ensures
            s@ == "Get the current scene tree structure as a JSON hierarchy."@,
    {
        "Get the current scene tree structure as a JSON hierarchy."
    }

    fn requires_approval(&self) -> (b: bool)
        ensures
            b == false,
    {
        false
    }

    fn category(&self) -> (c: ToolCategory)
        ensures
            c == ToolCategory::SceneTree,
    {
        ToolCategory::SceneTree
    }
}

/// Creates a scene node (needs approval).
#[derive(Debug, Clone, Copy)]
pub struct CreateNodeTool;

impl EngineTool for CreateNodeTool {
    fn name(&self) -> (s: &str)
        ensures
            s@ == "create_node"@,
    {
        "create_node"
    }

    fn description(&self) -> (s: &str)
        ensures
            s@ == "Create a new node in the scene tree at the specified parent path."@,
    {
        "Create a new node in the scene tree at the specified parent path."
    }

    fn requires_approval(&self) -> (b: bool)
        ensures
            b == true,
    {
        true
    }

    fn category(&self) -> (c: ToolCategory)
        ensures
            c == ToolCategory::SceneTree,
    {
        ToolCategory::SceneTree
    }
}

/// Deletes a scene node and its children (needs approval).
#[derive(Debug, Clone, Copy)]
pub struct DeleteNodeTool;

impl EngineTool for DeleteNodeTool {
    fn name(&self) -> (s: &str)
        ensures
            s@ == "delete_node"@,
    {
        "delete_node"
    }

    fn description(&self) -> (s: &str)
        ensures
            s@ == "Delete a node and all its children from the scene tree."@,
    {
        "Delete a node and all its children from the scene tree."
    }

    fn requires_approval(&self) -> (b: bool)
        ensures
            b == true,
    {
        true
    }

    fn category(&self) -> (c: ToolCategory)
        ensures
            c == ToolCategory::SceneTree,
    {
        ToolCategory::SceneTree
    }
}

/// Sets a property of a scene node (needs approval).
#[derive(Debug, Clone, Copy)]
pub struct SetNodePropertyTool;

impl EngineTool for SetNodePropertyTool {
    fn name(&self) -> (s: &str)
        ensures
            s@ == "set_node_property"@,
    {
        "set_node_property"
    }

    fn description(&self) -> (s: &str)
        ensures
            s@ == "Set a property value on a scene node. Supports position, rotation, scale, and custom properties."@,
    {
        "Set a property value on a scene node. Supports position, rotation, scale, and custom properties."
    }

    fn requires_approval(&self) -> (b: bool)
        ensures
            b == true,
    {
        true
    }

    fn category(&self) -> (c: ToolCategory)
        ensures
            c == ToolCategory::SceneTree,
    {
        ToolCategory::SceneTree
    }
}

/// Reads a property of a scene node.
#[derive(Debug, Clone, Copy)]
pub struct GetNodePropertyTool;

impl EngineTool for GetNodePropertyTool {
    fn name(&self) -> (s: &str)
        ensures
            s@ == "get_node_property"@,
    {
        "get_node_property"
    }

    fn description(&self) -> (s: &str)
        ensures
            s@ == "Get the current value of a property on a scene node."@,
    {
        "Get the current value of a property on a scene node."
    }

    fn requires_approval(&self) -> (b: bool)
        ensures
            b == false,
    {
        false
    }

    fn category(&self) -> (c: ToolCategory)
        ensures
            c == ToolCategory::SceneTree,
    {
        ToolCategory::SceneTree
    }
}

/// Runs an editor command (needs approval).
#[derive(Debug, Clone, Copy)]
pub struct ExecuteCommandTool;

impl EngineTool for ExecuteCommandTool {
    fn name(&self) -> (s: &str)
        ensures
            s@ == "execute_command"@,
    {
        "execute_command"
    }

    fn description(&self) -> (s: &str)
        ensures
            s@ == "Execute an editor command by its ID. Use get_project_info to see available commands."@,
    {
        "Execute an editor command by its ID. Use get_project_info to see available commands."
    }

    fn requires_approval(&self) -> (b: bool)
        ensures
            b == true,
    {
        true
    }

    fn category(&self) -> (c: ToolCategory)
        ensures
            c == ToolCategory::Editor,
    {
        ToolCategory::Editor
    }
}

/// Reports project metadata and the available commands.
#[derive(Debug, Clone, Copy)]
pub struct GetProjectInfoTool;

impl EngineTool for GetProjectInfoTool {
    fn name(&self) -> (s: &str)
        ensures
            s@ == "get_project_info"@,
    {
        "get_project_info"
    }

    fn description(&self) -> (s: &str)
        ensures
            s@ == "Get current project metadata, available commands, and engine version."@,
    {
        "Get current project metadata, available commands, and engine version."
    }

    fn requires_approval(&self) -> (b: bool)
        ensures
            b == false,
    {
        false
    }

    fn category(&self) -> (c: ToolCategory)
        ensures
            c == ToolCategory::Editor,
    {
        ToolCategory::Editor
    }
}

} // verus!

verus! {

/// `names` with `n` added when it is not there yet.
pub open spec fn insert_name(names: Seq<Seq<char>>, n: Seq<char>) -> Seq<Seq<char>> {
    if names.contains(n) { names } else { names.push(n) }
}

/// Whether `s` is in strictly increasing lexicographic order.
pub open spec fn strictly_sorted(s: Seq<Seq<char>>) -> bool {
    forall|i: int, j: int| 0 <= i < j < s.len() ==> seq_lex_lt(#[trigger] s[i], #[trigger] s[j])
}

/// Names of the built-in tools, in registration order.
pub open spec fn builtin_tool_names() -> Seq<Seq<char>> {
    seq!["read_file"@, "write_file"@, "list_files"@, "search_files"@, "delete_file"@, "get_scene_tree"@,
        "create_node"@, "delete_node"@, "set_node_property"@, "get_node_property"@, "execute_command"@,
        "get_project_info"@]
}

/// A boxed tool describes itself as the tool inside.
impl EngineTool for Box<dyn EngineTool> {
    fn name(&self) -> &str {
        (**self).name()
    }

    fn description(&self) -> &str {
        (**self).description()
    }

    fn requires_approval(&self) -> bool {
        (**self).requires_approval()
    }

    fn category(&self) -> ToolCategory {
        (**self).category()
    }
}

/// The tools after filing `tool` under `name`: the slot whose name is
/// `name` holds `tool`, every other keeps what it held.
pub open spec fn tools_after<T>(names: Seq<Seq<char>>, tools0: Seq<T>, tools1: Seq<T>, name: Seq<char>, tool: T) -> bool {
    &&& tools1.len() == names.len()
    &&& forall|j: int|
        0 <= j < names.len() ==> #[trigger] tools1[j] == (if names[j] == name { tool } else { tools0[j] })
}

/// Registry of tools, one per name. The engine keeps boxed tools
/// (`ToolRegistry<Box<dyn EngineTool>>`, see `new`).
pub struct ToolRegistry<T> {
    tools: Vec<T>,
    names: Vec<String>,
}

/// A registry with no tools.
fn empty_registry<T: EngineTool>() -> (r: ToolRegistry<T>)
    ensures
        r.wf(),
        r.spec_names() == Seq::<Seq<char>>::empty(),
        r.spec_tools() == Seq::<T>::empty(),
{
    let r = ToolRegistry { tools: Vec::new(), names: Vec::new() };
    assert(r.spec_names() =~= Seq::<Seq<char>>::empty());
    r
}

impl<T: EngineTool> ToolRegistry<T> {
    /// The registered tools, aligned with `spec_names`.
    pub closed spec fn spec_tools(&self) -> Seq<T> {
        self.tools@
    }

    /// Names of the registered tools, in registration order.
    pub closed spec fn spec_names(&self) -> Seq<Seq<char>> {
        self.names@.map_values(|s: String| s@)
    }

    /// Registered names are pairwise distinct, and each has its tool.
    pub closed spec fn wf(&self) -> bool {
        &&& self.spec_names().no_duplicates()
        &&& self.tools@.len() == self.names@.len()
    }

    /// Position of `name` among the registered names.
    fn index_of(&self, name: &str) -> (r: Option<usize>)
        ensures
            match r {
                Some(i) => i < self.spec_names().len() && self.spec_names()[i as int] == name@,
                None => !self.spec_names().contains(name@),
            },
    {
        let mut i: usize = 0;
        while i < self.names.len()
            invariant
                i <= self.names@.len(),
                forall|j: int| 0 <= j < i ==> self.spec_names()[j] != name@,
            decreases self.names@.len() - i,
        {
            if str_eq(self.names[i].as_str(), name) {
                return Some(i);
            }
            i = i + 1;
        }
        None
    }

    /// Registers `tool` under `name`, replacing a tool of the same name.
    fn insert_named(&mut self, name: String, tool: T)
        requires
            old(self).wf(),
        ensures
            final(self).wf(),
            final(self).spec_names() == insert_name(old(self).spec_names(), name@),
            tools_after(final(self).spec_names(), old(self).spec_tools(), final(self).spec_tools(), name@, tool),
    {
        let ghost nm = name@;
        let ghost t = tool;
        match self.index_of(name.as_str()) {
            Some(i) => {
                self.tools.set(i, tool);
                assert(self.spec_names() == old(self).spec_names());
                assert forall|j: int| 0 <= j < self.spec_names().len() implies #[trigger] self.spec_tools()[j] == (if self.spec_names()[j] == nm { t } else { old(self).spec_tools()[j] }) by {
                    if j != i && self.spec_names()[j] == nm {
                        assert(self.spec_names()[j] == self.spec_names()[i as int]);
                    }
                }
            },
            None => {
                let ghost before = self.spec_names();
                self.names.push(name);
                self.tools.push(tool);
                assert(self.spec_names() =~= before.push(nm));
                assert forall|a: int, b: int| 0 <= a < b < self.spec_names().len() implies self.spec_names()[a] != self.spec_names()[b] by {
                    if b == before.len() {
                        assert(before.contains(before[a]));
                    }
                }
                assert forall|j: int| 0 <= j < self.spec_names().len() implies #[trigger] self.spec_tools()[j] == (if self.spec_names()[j] == nm { t } else { old(self).spec_tools()[j] }) by {
                    if j < before.len() {
                        assert(before[j] == self.spec_names()[j]);
                        if before[j] == nm {
                            assert(before.contains(nm));
                        }
                    }
                }
            },
        }
    }

    /// Registers a tool under the name it reports, replacing a tool of the
    /// same name; the tool is then the one found under that name.
    pub fn register(&mut self, tool: T)
        requires
            old(self).wf(),
        ensures
            final(self).wf(),
            exists|reported: &str|
                call_ensures(T::name, (&tool,), reported)
                    && #[trigger] insert_name(old(self).spec_names(), reported@) == final(self).spec_names()
                    && tools_after(final(self).spec_names(), old(self).spec_tools(), final(self).spec_tools(), reported@, tool),
    {
        let reported = tool.name();
        let name = owned(reported);
        self.insert_named(name, tool);
    }

    /// The tool registered under `name`: there is one exactly when the name
    /// is registered, and it is the tool filed under that name.
    pub fn get(&self, name: &str) -> (r: Option<&T>)
        requires
            self.wf(),
        ensures
            r is Some <==> self.spec_names().contains(name@),
            r matches Some(t) ==> exists|i: int|
                0 <= i < self.spec_names().len() && self.spec_names()[i] == name@ && *t == #[trigger] self.spec_tools()[i],
    {
        match self.index_of(name) {
            Some(i) => {
                assert(self.spec_names()[i as int] == name@);
                let t = &self.tools[i];
                assert(*t == self.spec_tools()[i as int]);
                Some(t)
            },
            None => None,
        }
    }

    /// Names of all tools, sorted.
    pub fn tool_names(&self) -> (v: Vec<&str>)
        requires
            self.wf(),
        ensures
            v@.len() == self.spec_names().len(),
            strictly_sorted(v@.map_values(|s: &str| s@)),
            forall|n: Seq<char>| v@.map_values(|s: &str| s@).contains(n) <==> self.spec_names().contains(n),
    {
        let ghost names = self.spec_names();
        let mut v: Vec<&str> = Vec::new();
        let mut i: usize = 0;
        while i < self.names.len()
            invariant
                i <= self.names@.len(),
                names == self.spec_names(),
                names.no_duplicates(),
                v@.len() == i,
                strictly_sorted(v@.map_values(|s: &str| s@)),
                forall|n: Seq<char>| v@.map_values(|s: &str| s@).contains(n) <==> names.take(i as int).contains(n),
            decreases self.names@.len() - i,
        {
            let x = self.names[i].as_str();
            let ghost vv = v@.map_values(|s: &str| s@);
            assert(x@ == names[i as int]);
            assert(!names.take(i as int).contains(x@)) by {
                if names.take(i as int).contains(x@) {
                    let k = choose|k: int| 0 <= k < i && names.take(i as int)[k] == x@;
                    assert(names[k] == names[i as int]);
                }
            }
            let p = sorted_position(&v, x);
            v.insert(p, x);
            let ghost nv = v@.map_values(|s: &str| s@);
            assert(nv =~= vv.insert(p as int, x@));
            proof {
                lemma_insert_sorted(vv, x@, p as int);
            }
            let ghost t0 = names.take(i as int);
            let ghost t1 = names.take(i + 1);
            assert(t1 =~= t0.push(x@));
            assert forall|n: Seq<char>| nv.contains(n) implies t1.contains(n) by {
                let k = choose|k: int| 0 <= k < nv.len() && nv[k] == n;
                if k == p {
                    assert(t1[i as int] == n);
                } else {
                    if k < p {
                        assert(vv[k] == n);
                    } else {
                        assert(vv[k - 1] == n);
                    }
                    assert(vv.contains(n));
                    assert(t0.contains(n));
                    let j = choose|j: int| 0 <= j < t0.len() && t0[j] == n;
                    assert(t1[j] == n);
                }
            }
            assert forall|n: Seq<char>| t1.contains(n) implies nv.contains(n) by {
                let j = choose|j: int| 0 <= j < t1.len() && t1[j] == n;
                if j == i {
                    assert(nv[p as int] == n);
                } else {
                    assert(t0[j] == n);
                    assert(t0.contains(n));
                    assert(vv.contains(n));
                    let k = choose|k: int| 0 <= k < vv.len() && vv[k] == n;
                    if k < p {
                        assert(nv[k] == n);
                    } else {
                        assert(nv[k + 1] == n);
                    }
                }
            }
            i = i + 1;
        }
        assert(names.take(self.names@.len() as int) =~= names);
        v
    }

    pub fn len(&self) -> (n: usize)
        ensures
            n == self.spec_names().len(),
    {
        self.names.len()
    }

    pub fn is_empty(&self) -> (b: bool)
        ensures
            b == (self.spec_names().len() == 0),
    {
        self.names.len() == 0
    }
}

impl ToolRegistry<Box<dyn EngineTool>> {
    /// A registry holding the built-in tools.
    pub fn new() -> (r: ToolRegistry<Box<dyn EngineTool>>)
        ensures
            r.wf(),
            r.spec_names() == builtin_tool_names(),
    {
        let mut r: ToolRegistry<Box<dyn EngineTool>> = empty_registry();
        assert(r.spec_names() =~= Seq::<Seq<char>>::empty());
        proof {
            reveal_strlit("read_file");
            reveal_strlit("write_file");
            reveal_strlit("list_files");
            reveal_strlit("search_files");
            reveal_strlit("delete_file");
            reveal_strlit("get_scene_tree");
            reveal_strlit("create_node");
            reveal_strlit("delete_node");
            reveal_strlit("set_node_property");
            reveal_strlit("get_node_property");
            reveal_strlit("execute_command");
            reveal_strlit("get_project_info");
        }
        let ghost ids = builtin_tool_names();
        assert forall|a: int, b: int| 0 <= a < b < ids.len() implies ids[a] != ids[b] by {
            assert(ids[a].len() != ids[b].len() || ids[a][0] != ids[b][0] || ids[a][7] != ids[b][7]);
        }
        r.insert_named(owned(ReadFileTool.name()), Box::new(ReadFileTool));
        assert(r.spec_names() =~= ids.take(1));
        r.insert_named(owned(WriteFileTool.name()), Box::new(WriteFileTool));
        assert(!ids.take(1).contains(ids[1]));
        assert(r.spec_names() =~= ids.take(2));
        r.insert_named(owned(ListFilesTool.name()), Box::new(ListFilesTool));
        assert(!ids.take(2).contains(ids[2]));
        assert(r.spec_names() =~= ids.take(3));
        r.insert_named(owned(SearchFilesTool.name()), Box::new(SearchFilesTool));
        assert(!ids.take(3).contains(ids[3]));
        assert(r.spec_names() =~= ids.take(4));
        r.insert_named(owned(DeleteFileTool.name()), Box::new(DeleteFileTool));
        assert(!ids.take(4).contains(ids[4]));
        assert(r.spec_names() =~= ids.take(5));
        r.insert_named(owned(GetSceneTreeTool.name()), Box::new(GetSceneTreeTool));
        assert(!ids.take(5).contains(ids[5]));
        assert(r.spec_names() =~= ids.take(6));
        r.insert_named(owned(CreateNodeTool.name()), Box::new(CreateNodeTool));
        assert(!ids.take(6).contains(ids[6]));
        assert(r.spec_names() =~= ids.take(7));
        r.insert_named(owned(DeleteNodeTool.name()), Box::new(DeleteNodeTool));
        assert(!ids.take(7).contains(ids[7]));
        assert(r.spec_names() =~= ids.take(8));
        r.insert_named(owned(SetNodePropertyTool.name()), Box::new(SetNodePropertyTool));
        assert(!ids.take(8).contains(ids[8]));
        assert(r.spec_names() =~= ids.take(9));
        r.insert_named(owned(GetNodePropertyTool.name()), Box::new(GetNodePropertyTool));
        assert(!ids.take(9).contains(ids[9]));
        assert(r.spec_names() =~= ids.take(10));
        r.insert_named(owned(ExecuteCommandTool.name()), Box::new(ExecuteCommandTool));
        assert(!ids.take(10).contains(ids[10]));
        assert(r.spec_names() =~= ids.take(11));
        r.insert_named(owned(GetProjectInfoTool.name()), Box::new(GetProjectInfoTool));
        assert(!ids.take(11).contains(ids[11]));
        assert(r.spec_names() =~= ids);
        r
    }
}

impl Default for ToolRegistry<Box<dyn EngineTool>> {
    fn default() -> (r: Self)
        ensures
            r.wf(),
            r.spec_names() == builtin_tool_names(),
    {
        ToolRegistry::new()
    }
}

/// The first position of a sorted list whose name comes after `x`.
fn sorted_position(v: &Vec<&str>, x: &str) -> (p: usize)
    requires
        strictly_sorted(v@.map_values(|s: &str| s@)),
        !v@.map_values(|s: &str| s@).contains(x@),
    ensures
        p <= v@.len(),
        forall|k: int| 0 <= k < p ==> seq_lex_lt(#[trigger] v@[k]@, x@),
        forall|k: int| p <= k < v@.len() ==> seq_lex_lt(x@, #[trigger] v@[k]@),
{
    let ghost vv = v@.map_values(|s: &str| s@);
    let mut p: usize = 0;
    while p < v.len() && str_lt(v[p], x)
        invariant
            p <= v@.len(),
            vv == v@.map_values(|s: &str| s@),
            strictly_sorted(vv),
            forall|k: int| 0 <= k < p ==> seq_lex_lt(#[trigger] v@[k]@, x@),
        decreases v@.len() - p,
    {
        p = p + 1;
    }
    assert forall|k: int| p <= k < v@.len() implies seq_lex_lt(x@, #[trigger] v@[k]@) by {
        assert(vv[p as int] == v@[p as int]@);
        assert(vv[k] == v@[k]@);
        lemma_lex_total(x@, v@[p as int]@);
        if v@[p as int]@ == x@ {
            assert(vv.contains(x@));
        }
        if k > p {
            assert(seq_lex_lt(vv[p as int], vv[k]));
            lemma_lex_transitive(x@, v@[p as int]@, v@[k]@);
        }
    }
    p
}

/// Inserting `x` at the position that `sorted_position` finds keeps a list
/// strictly sorted.
proof fn lemma_insert_sorted(vv: Seq<Seq<char>>, x: Seq<char>, p: int)
    requires
        strictly_sorted(vv),
        0 <= p <= vv.len(),
        forall|k: int| 0 <= k < p ==> seq_lex_lt(#[trigger] vv[k], x),
        forall|k: int| p <= k < vv.len() ==> seq_lex_lt(x, #[trigger] vv[k]),
    ensures
        strictly_sorted(vv.insert(p, x)),
{
    let nv = vv.insert(p, x);
    assert forall|a: int, b: int| 0 <= a < b < nv.len() implies seq_lex_lt(#[trigger] nv[a], #[trigger] nv[b]) by {
        if b < p {
            assert(nv[a] == vv[a] && nv[b] == vv[b]);
        } else if b == p {
            assert(nv[a] == vv[a]);
        } else if a < p {
            assert(nv[a] == vv[a] && nv[b] == vv[b - 1]);
            lemma_lex_transitive(vv[a], x, vv[b - 1]);
        } else if a == p {
            assert(nv[b] == vv[b - 1]);
        } else {
            assert(nv[a] == vv[a - 1] && nv[b] == vv[b - 1]);
        }
    }
}

} // verus!
