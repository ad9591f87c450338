//! The non-geometric side of the built-in scene nodes: ids, names, tags,
//! visibility and z-order of 2D and 3D nodes, tile map cells and the bodies
//! overlapping an area. Transforms are floating point; the node types are
//! generic over the transform they carry.
use vstd::prelude::*;
use crate::engine_core::node::{has_tag_in, strings_contain, NodeId, NodeType};
use crate::text::{owned, str_eq};

verus! {

/// Keeps the tags other than `tag`.
pub open spec fn tag_other_than(tag: Seq<char>) -> spec_fn(String) -> bool {
    |t: String| t@ != tag
}

proof fn lemma_filter_grow<A>(s: Seq<A>, p: spec_fn(A) -> bool, k: int)
    requires
        0 <= k < s.len(),
    ensures
        s.take(k + 1).filter(p) == (if p(s[k]) {
            s.take(k).filter(p).push(s[k])
        } else {
            s.take(k).filter(p)
        }),
{
    reveal(Seq::filter);
    assert(s.take(k + 1).drop_last() =~= s.take(k));
    assert(s.take(k + 1).last() == s[k]);
}

/// Adds `tag` to `tags` unless present.
fn add_tag_to(tags: &mut Vec<String>, tag: &str)
    ensures
        has_tag_in(old(tags)@, tag@) ==> final(tags)@ == old(tags)@,
        !has_tag_in(old(tags)@, tag@) ==> final(tags)@.len() == old(tags)@.len() + 1
            && final(tags)@.drop_last() == old(tags)@ && final(tags)@.last()@ == tag@,
{
    if !strings_contain(tags, tag) {
        let ghost before = tags@;
        tags.push(owned(tag));
        assert(tags@.drop_last() =~= before);
    }
}

/// Removes every occurrence of `tag` from `tags`.
fn remove_tag_from(tags: &mut Vec<String>, tag: &str)
    ensures
        final(tags)@ == old(tags)@.filter(tag_other_than(tag@)),
{
    let ghost ts = tags@;
    let mut kept: Vec<String> = Vec::new();
    let mut i: usize = 0;
    assert(ts.take(0).filter(tag_other_than(tag@)) =~= Seq::<String>::empty()) by {
        reveal(Seq::filter);
    }
    while i < tags.len()
        invariant
            ts == tags@,
            i <= ts.len(),
            kept@ == ts.take(i as int).filter(tag_other_than(tag@)),
        decreases ts.len() - i,
    {
        proof {
            lemma_filter_grow(ts, tag_other_than(tag@), i as int);
        }
        if !str_eq(tags[i].as_str(), tag) {
            kept.push(tags[i].clone());
        }
        i = i + 1;
    }
    assert(ts.take(ts.len() as int) =~= ts);
    *tags = kept;
}

/// A 2D node: id, name, local transform, z-order, visibility, processing
/// flag and tags.
#[derive(Debug)]
pub struct Node2d<T> {
    pub id: NodeId,
    pub name: String,
    /// Local transform, relative to the parent.
    pub transform: T,
    pub z_index: i32,
    /// Whether `z_index` adds to the parent's.
    pub z_as_relative: bool,
    pub visible: bool,
    pub enabled: bool,
    pub tags: Vec<String>,
}

impl<T> Node2d<T> {
    /// A fresh, visible and enabled node at z-index 0, relative to its
    /// parent, without tags, with the given local transform.
    pub fn new(name: &str, transform: T) -> (n: Node2d<T>)
        ensures
            n.id.0 != 0,
            n.name@ == name@,
            n.transform == transform,
            n.z_index == 0,
            n.z_as_relative,
            n.visible,
            n.enabled,
            n.tags@ == Seq::<String>::empty(),
    {
        Node2d {
            id: NodeId::new(),
            name: owned(name),
            transform,
            z_index: 0,
            z_as_relative: true,
            visible: true,
            enabled: true,
            tags: Vec::new(),
        }
    }

    pub fn node_type() -> (t: NodeType)
        ensures
            t == NodeType::Node2d,
    {
        NodeType::Node2d
    }

    /// The z-index drawn with: added to the parent's when relative.
    pub fn effective_z_index(&self, parent_z: i32) -> (z: i32)
        requires
            self.z_as_relative ==> i32::MIN <= parent_z + self.z_index <= i32::MAX,
        ensures
            z == (if self.z_as_relative { parent_z + self.z_index } else { self.z_index as int }),
    {
        if self.z_as_relative {
            parent_z + self.z_index
        } else {
            self.z_index
        }
    }

    /// Visible only when the parent is.
    pub fn inherited_visibility(&self, parent_visible: bool) -> (b: bool)
        ensures
            b == (self.visible && parent_visible),
    {
        self.visible && parent_visible
    }

    /// Adds a tag unless the node has it.
    pub fn add_tag(&mut self, tag: &str)
        ensures
            has_tag_in(old(self).tags@, tag@) ==> final(self).tags@ == old(self).tags@,
            !has_tag_in(old(self).tags@, tag@) ==> final(self).tags@.len() == old(self).tags@.len() + 1
                && final(self).tags@.drop_last() == old(self).tags@ && final(self).tags@.last()@ == tag@,
            final(self).id == old(self).id,
            final(self).name == old(self).name,
    {
        add_tag_to(&mut self.tags, tag);
    }

    /// Removes the tag.
    pub fn remove_tag(&mut self, tag: &str)
        ensures
            final(self).tags@ == old(self).tags@.filter(tag_other_than(tag@)),
            final(self).id == old(self).id,
            final(self).name == old(self).name,
    {
        remove_tag_from(&mut self.tags, tag);
    }

    /// Whether the node has the tag.
    pub fn has_tag(&self, tag: &str) -> (b: bool)
        ensures
            b == has_tag_in(self.tags@, tag@),
    {
        strings_contain(&self.tags, tag)
    }
}

/// A 3D node: id, name, local transform, visibility, processing flag and
/// tags.
#[derive(Debug)]
pub struct Node3d<T> {
    pub id: NodeId,
    pub name: String,
    /// Local transform, relative to the parent.
    pub transform: T,
    pub visible: bool,
    pub enabled: bool,
    pub tags: Vec<String>,
}

impl<T> Node3d<T> {
    /// A fresh, visible and enabled node without tags, with the given local
    /// transform.
    pub fn new(name: &str, transform: T) -> (n: Node3d<T>)
        ensures
            n.id.0 != 0,
            n.name@ == name@,
            n.transform == transform,
            n.visible,
            n.enabled,
            n.tags@ == Seq::<String>::empty(),
    {
        Node3d { id: NodeId::new(), name: owned(name), transform, visible: true, enabled: true, tags: Vec::new() }
    }

    pub fn node_type() -> (t: NodeType)
        ensures
            t == NodeType::Node3d,
    {
        NodeType::Node3d
    }

    /// Adds a tag unless the node has it.
    pub fn add_tag(&mut self, tag: &str)
        ensures
            has_tag_in(old(self).tags@, tag@) ==> final(self).tags@ == old(self).tags@,
            !has_tag_in(old(self).tags@, tag@) ==> final(self).tags@.len() == old(self).tags@.len() + 1
                && final(self).tags@.drop_last() == old(self).tags@ && final(self).tags@.last()@ == tag@,
            final(self).id == old(self).id,
            final(self).name == old(self).name,
    {
        add_tag_to(&mut self.tags, tag);
    }

    /// Removes the tag.
    pub fn remove_tag(&mut self, tag: &str)
        ensures
            final(self).tags@ == old(self).tags@.filter(tag_other_than(tag@)),
            final(self).id == old(self).id,
            final(self).name == old(self).name,
    {
        remove_tag_from(&mut self.tags, tag);
    }

    /// Whether the node has the tag.
    pub fn has_tag(&self, tag: &str) -> (b: bool)
        ensures
            b == has_tag_in(self.tags@, tag@),
    {
        strings_contain(&self.tags, tag)
    }
}

// Tile maps

/// The map of a list of cells (a later entry wins; a tile map keeps its cells
/// distinct).
pub open spec fn cell_map(s: Seq<((i32, i32), u32)>) -> Map<(i32, i32), u32>
    decreases s.len(),
{
    if s.len() == 0 {
        Map::empty()
    } else {
        cell_map(s.drop_last()).insert(s.last().0, s.last().1)
    }
}

/// The cells of a list.
pub open spec fn cell_keys(s: Seq<((i32, i32), u32)>) -> Seq<(i32, i32)> {
    s.map_values(|e: ((i32, i32), u32)| e.0)
}

proof fn lemma_cell_map(s: Seq<((i32, i32), u32)>)
    requires
        cell_keys(s).no_duplicates(),
    ensures
        forall|i: int| 0 <= i < s.len() ==> #[trigger] cell_map(s).contains_key(s[i].0) && cell_map(s)[s[i].0] == s[i].1,
        forall|k: (i32, i32)| cell_map(s).contains_key(k) <==> cell_keys(s).contains(k),
    decreases s.len(),
{
    if s.len() > 0 {
        let init = s.drop_last();
        assert(cell_keys(init) =~= cell_keys(s).drop_last());
        assert forall|a: int, b: int| 0 <= a < b < cell_keys(init).len() implies cell_keys(init)[a] != cell_keys(init)[b] by {
            assert(cell_keys(s)[a] == cell_keys(init)[a] && cell_keys(s)[b] == cell_keys(init)[b]);
        }
        lemma_cell_map(init);
        assert forall|i: int| 0 <= i < s.len() implies #[trigger] cell_map(s).contains_key(s[i].0) && cell_map(s)[s[i].0] == s[i].1 by {
            if i < s.len() - 1 {
                assert(s[i] == init[i]);
                assert(cell_keys(s)[i] != cell_keys(s)[s.len() - 1]);
                assert(cell_map(init).contains_key(init[i].0));
            }
        }
        assert forall|k: (i32, i32)| cell_map(s).contains_key(k) <==> cell_keys(s).contains(k) by {
            if cell_keys(init).contains(k) {
                let j = choose|j: int| 0 <= j < cell_keys(init).len() && cell_keys(init)[j] == k;
                assert(cell_keys(s)[j] == k);
            }
            if k == s.last().0 {
                assert(cell_keys(s)[s.len() - 1] == k);
            }
            if cell_keys(s).contains(k) && k != s.last().0 {
                let j = choose|j: int| 0 <= j < cell_keys(s).len() && cell_keys(s)[j] == k;
                assert(cell_keys(init)[j] == k);
            }
        }
    }
}

proof fn lemma_cell_update(s: Seq<((i32, i32), u32)>, i: int, v: u32)
    requires
        cell_keys(s).no_duplicates(),
        0 <= i < s.len(),
    ensures
        cell_map(s.update(i, (s[i].0, v))) == cell_map(s).insert(s[i].0, v),
        cell_keys(s.update(i, (s[i].0, v))) == cell_keys(s),
    decreases s.len(),
{
    let t = s.update(i, (s[i].0, v));
    assert(cell_keys(t) =~= cell_keys(s));
    let init = s.drop_last();
    if i == s.len() - 1 {
        assert(t.drop_last() =~= init);
        assert(cell_map(t) =~= cell_map(s).insert(s[i].0, v));
    } else {
        assert(cell_keys(init) =~= cell_keys(s).drop_last());
        assert forall|a: int, b: int| 0 <= a < b < cell_keys(init).len() implies cell_keys(init)[a] != cell_keys(init)[b] by {
            assert(cell_keys(s)[a] == cell_keys(init)[a] && cell_keys(s)[b] == cell_keys(init)[b]);
        }
        lemma_cell_update(init, i, v);
        assert(t.drop_last() =~= init.update(i, (s[i].0, v)));
        assert(t.last() == s.last());
        assert(cell_keys(s)[i] != cell_keys(s)[s.len() - 1]);
        assert(cell_map(t) =~= cell_map(s).insert(s[i].0, v));
    }
}

/// Whether cell `k` lies in the rectangle from `(x0, y0)` to `(x1, y1)`,
/// both included.
pub open spec fn in_rect(k: (i32, i32), x0: i32, y0: i32, x1: i32, y1: i32) -> bool {
    x0 <= k.0 <= x1 && y0 <= k.1 <= y1
}

/// A tile map's cells: for each cell `(x, y)`, the tile id placed there.
#[derive(Debug)]
pub struct TileMap {
    pub name: String,
    cells: Vec<((i32, i32), u32)>,
    /// Cell width in pixels.
    pub cell_width: u32,
    /// Cell height in pixels.
    pub cell_height: u32,
    /// Whether the editor shows the grid.
    pub show_grid: bool,
}

impl TileMap {
    /// The tile id of each cell.
    pub closed spec fn spec_cells(&self) -> Map<(i32, i32), u32> {
        cell_map(self.cells@)
    }

    /// Cells are listed once.
    pub closed spec fn wf(&self) -> bool {
        cell_keys(self.cells@).no_duplicates()
    }

    pub closed spec fn spec_name(&self) -> Seq<char> {
        self.name@
    }

    /// Cell width and height in pixels.
    pub closed spec fn spec_cell_size(&self) -> (u32, u32) {
        (self.cell_width, self.cell_height)
    }

    pub closed spec fn spec_show_grid(&self) -> bool {
        self.show_grid
    }

    /// An empty map with the given cell size.
    pub fn new(name: &str, cell_width: u32, cell_height: u32) -> (m: TileMap)
        ensures
            m.wf(),
            m.spec_cells() == Map::<(i32, i32), u32>::empty(),
            m.spec_name() == name@,
            m.spec_cell_size() == (cell_width, cell_height),
            !m.spec_show_grid(),
    {
        let m = TileMap { name: owned(name), cells: Vec::new(), cell_width, cell_height, show_grid: false };
        assert(cell_keys(m.cells@) =~= Seq::<(i32, i32)>::empty());
        m
    }

    fn position_of(&self, x: i32, y: i32) -> (r: Option<usize>)
        requires
            self.wf(),
        ensures
            match r {
                Some(i) => i < self.cells@.len() && self.cells@[i as int].0 == (x, y),
                None => !self.spec_cells().contains_key((x, y)),
            },
    {
        proof {
            lemma_cell_map(self.cells@);
        }
        let mut i: usize = 0;
        while i < self.cells.len()
            invariant
                i <= self.cells@.len(),
                forall|j: int| 0 <= j < i ==> self.cells@[j].0 != (x, y),
            decreases self.cells@.len() - i,
        {
            let (c, _) = self.cells[i];
            if c.0 == x && c.1 == y {
                return Some(i);
            }
            i = i + 1;
        }
        proof {
            if cell_keys(self.cells@).contains((x, y)) {
                let j = choose|j: int| 0 <= j < cell_keys(self.cells@).len() && cell_keys(self.cells@)[j] == (x, y);
                assert(self.cells@[j].0 == (x, y));
            }
        }
        None
    }

    /// Places tile `tile_id` at `(x, y)`.
    pub fn set_cell(&mut self, x: i32, y: i32, tile_id: u32)
        requires
            old(self).wf(),
        ensures
            final(self).wf(),
            final(self).spec_cells() == old(self).spec_cells().insert((x, y), tile_id),
    {
        let ghost s = self.cells@;
        proof {
            lemma_cell_map(s);
        }
        match self.position_of(x, y) {
            Some(i) => {
                self.cells.set(i, ((x, y), tile_id));
                proof {
                    lemma_cell_update(s, i as int, tile_id);
                    assert(self.cells@ =~= s.update(i as int, (s[i as int].0, tile_id)));
                }
            },
            None => {
                self.cells.push(((x, y), tile_id));
                proof {
                    let t = self.cells@;
                    assert(t.drop_last() =~= s);
                    assert(cell_keys(t) =~= cell_keys(s).push((x, y)));
                    assert forall|a: int, b: int| 0 <= a < b < cell_keys(t).len() implies cell_keys(t)[a] != cell_keys(t)[b] by {
                        if b == s.len() {
                            assert(cell_keys(s).contains(cell_keys(s)[a]));
                        }
                    }
                }
            },
        }
    }

    /// Empties cell `(x, y)`.
    pub fn clear_cell(&mut self, x: i32, y: i32)
        requires
            old(self).wf(),
        ensures
            final(self).wf(),
            final(self).spec_cells() == old(self).spec_cells().remove((x, y)),
    {
        let ghost s = self.cells@;
        proof {
            lemma_cell_map(s);
        }
        match self.position_of(x, y) {
            Some(i) => {
                let _gone = self.cells.remove(i);
                proof {
                    let t = self.cells@;
                    s.remove_ensures(i as int);
                    assert(cell_keys(t) =~= cell_keys(s).remove(i as int));
                    assert forall|a: int, b: int| 0 <= a < b < cell_keys(t).len() implies cell_keys(t)[a] != cell_keys(t)[b] by {
                        let a2 = if a < i { a } else { a + 1 };
                        let b2 = if b < i { b } else { b + 1 };
                        assert(cell_keys(t)[a] == cell_keys(s)[a2]);
                        assert(cell_keys(t)[b] == cell_keys(s)[b2]);
                    }
                    lemma_cell_map(t);
                    assert forall|k: (i32, i32)| #[trigger] cell_map(t).contains_key(k) == cell_map(s).remove((x, y)).contains_key(k) by {
                        if cell_keys(t).contains(k) {
                            let j = choose|j: int| 0 <= j < cell_keys(t).len() && cell_keys(t)[j] == k;
                            let j2 = if j < i { j } else { j + 1 };
                            assert(cell_keys(s)[j2] == k);
                            assert(cell_keys(s)[j2] != cell_keys(s)[i as int]);
                        }
                        if cell_keys(s).contains(k) && k != (x, y) {
                            let j = choose|j: int| 0 <= j < cell_keys(s).len() && cell_keys(s)[j] == k;
                            assert(j != i);
                            let j2 = if j < i { j } else { j - 1 };
                            assert(cell_keys(t)[j2] == k);
                        }
                    }
                    assert forall|k: (i32, i32)| #[trigger] cell_map(t).contains_key(k) implies cell_map(t)[k] == cell_map(s)[k] by {
                        assert(cell_keys(s).contains(k));
                        let j2 = choose|j2: int| 0 <= j2 < cell_keys(s).len() && cell_keys(s)[j2] == k;
                        assert(s[j2].0 == k);
                        assert(j2 != i);
                        let j = if j2 < i { j2 } else { j2 - 1 };
                        assert(t[j] == s[j2]);
                        assert(cell_map(t).contains_key(t[j].0) && cell_map(t)[t[j].0] == t[j].1);
                    }
                    assert(cell_map(t) =~= cell_map(s).remove((x, y)));
                }
            },
            None => {
                assert(cell_map(s) =~= cell_map(s).remove((x, y)));
            },
        }
    }

    /// The tile at `(x, y)`, if any.
    pub fn get_cell(&self, x: i32, y: i32) -> (r: Option<u32>)
        requires
            self.wf(),
        ensures
            r == (if self.spec_cells().contains_key((x, y)) { Some(self.spec_cells()[(x, y)]) } else { None::<u32> }),
    {
        proof {
            lemma_cell_map(self.cells@);
        }
        match self.position_of(x, y) {
            Some(i) => Some(self.cells[i].1),
            None => None,
        }
    }

    /// The smallest and largest cell coordinates in use, if any cell is.
    pub fn bounds(&self) -> (r: Option<((i32, i32), (i32, i32))>)
        requires
            self.wf(),
        ensures
            r is None <==> self.spec_cells().dom() =~= Set::<(i32, i32)>::empty(),
            r matches Some(b) ==> {
                &&& forall|k: (i32, i32)| #[trigger] self.spec_cells().contains_key(k) ==> b.0.0 <= k.0 <= b.1.0 && b.0.1 <= k.1 <= b.1.1
                &&& exists|k: (i32, i32)| #[trigger] self.spec_cells().contains_key(k) && k.0 == b.0.0
                &&& exists|k: (i32, i32)| #[trigger] self.spec_cells().contains_key(k) && k.1 == b.0.1
                &&& exists|k: (i32, i32)| #[trigger] self.spec_cells().contains_key(k) && k.0 == b.1.0
                &&& exists|k: (i32, i32)| #[trigger] self.spec_cells().contains_key(k) && k.1 == b.1.1
            },
    {
        proof {
            lemma_cell_map(self.cells@);
        }
        if self.cells.len() == 0 {
            assert(self.spec_cells().dom() =~= Set::<(i32, i32)>::empty()) by {
                assert forall|k: (i32, i32)| !self.spec_cells().contains_key(k) by {
                    assert(!cell_keys(self.cells@).contains(k));
                }
            }
            return None;
        }
        let ghost s = self.cells@;
        let mut min_x: i32 = i32::MAX;
        let mut min_y: i32 = i32::MAX;
        let mut max_x: i32 = i32::MIN;
        let mut max_y: i32 = i32::MIN;
        let mut i: usize = 0;
        while i < self.cells.len()
            invariant
                s == self.cells@,
                s.len() > 0,
                i <= s.len(),
                forall|j: int| 0 <= j < i ==> min_x <= #[trigger] s[j].0.0 <= max_x && min_y <= s[j].0.1 <= max_y,
                i > 0 ==> exists|j: int| 0 <= j < i && #[trigger] s[j].0.0 == min_x,
                i > 0 ==> exists|j: int| 0 <= j < i && #[trigger] s[j].0.1 == min_y,
                i > 0 ==> exists|j: int| 0 <= j < i && #[trigger] s[j].0.0 == max_x,
                i > 0 ==> exists|j: int| 0 <= j < i && #[trigger] s[j].0.1 == max_y,
                i == 0 ==> min_x == i32::MAX && min_y == i32::MAX && max_x == i32::MIN && max_y == i32::MIN,
            decreases s.len() - i,
        {
            let (c, _) = self.cells[i];
            if c.0 < min_x {
                min_x = c.0;
            }
            if c.1 < min_y {
                min_y = c.1;
            }
            if c.0 > max_x {
                max_x = c.0;
            }
            if c.1 > max_y {
                max_y = c.1;
            }
            i = i + 1;
        }
        proof {
            assert forall|k: (i32, i32)| #[trigger] self.spec_cells().contains_key(k) implies min_x <= k.0 <= max_x && min_y <= k.1 <= max_y by {
                assert(cell_keys(s).contains(k));
                let j = choose|j: int| 0 <= j < cell_keys(s).len() && cell_keys(s)[j] == k;
                assert(s[j].0 == k);
            }
            let j1 = choose|j: int| 0 <= j < s.len() && #[trigger] s[j].0.0 == min_x;
            assert(self.spec_cells().contains_key(s[j1].0));
            let j2 = choose|j: int| 0 <= j < s.len() && #[trigger] s[j].0.1 == min_y;
            assert(self.spec_cells().contains_key(s[j2].0));
            let j3 = choose|j: int| 0 <= j < s.len() && #[trigger] s[j].0.0 == max_x;
            assert(self.spec_cells().contains_key(s[j3].0));
            let j4 = choose|j: int| 0 <= j < s.len() && #[trigger] s[j].0.1 == max_y;
            assert(self.spec_cells().contains_key(s[j4].0));
            assert(self.spec_cells().contains_key(s[0].0));
            assert(!(self.spec_cells().dom() =~= Set::<(i32, i32)>::empty()));
        }
        Some(((min_x, min_y), (max_x, max_y)))
    }

    /// Places tile `tile_id` on every cell from `(x0, y0)` to `(x1, y1)`,
    /// both included.
    pub fn fill_rect(&mut self, x0: i32, y0: i32, x1: i32, y1: i32, tile_id: u32)
        requires
            old(self).wf(),
        ensures
            final(self).wf(),
            forall|k: (i32, i32)| #[trigger] final(self).spec_cells().contains_key(k)
                <==> old(self).spec_cells().contains_key(k) || in_rect(k, x0, y0, x1, y1),
            forall|k: (i32, i32)| #[trigger] final(self).spec_cells().contains_key(k) ==> final(self).spec_cells()[k]
                == (if in_rect(k, x0, y0, x1, y1) { tile_id } else { old(self).spec_cells()[k] }),
    {
        let ghost m0 = self.spec_cells();
        let mut y: i64 = y0 as i64;
        while y <= y1 as i64
            invariant
                self.wf(),
                y0 <= y <= y1 as i64 + 1 || (y == y0 && y0 > y1),
                forall|k: (i32, i32)| #[trigger] self.spec_cells().contains_key(k)
                    <==> m0.contains_key(k) || (x0 <= k.0 <= x1 && y0 <= k.1 < y),
                forall|k: (i32, i32)| #[trigger] self.spec_cells().contains_key(k) ==> self.spec_cells()[k]
                    == (if x0 <= k.0 <= x1 && y0 <= k.1 < y { tile_id } else { m0[k] }),
            decreases y1 as i64 + 1 - y,
        {
            let mut x: i64 = x0 as i64;
            while x <= x1 as i64
                invariant
                    self.wf(),
                    y0 <= y <= y1,
                    x0 <= x <= x1 as i64 + 1 || (x == x0 && x0 > x1),
                    forall|k: (i32, i32)| #[trigger] self.spec_cells().contains_key(k)
                        <==> m0.contains_key(k) || (x0 <= k.0 <= x1 && y0 <= k.1 < y) || (k.1 == y && x0 <= k.0 < x),
                    forall|k: (i32, i32)| #[trigger] self.spec_cells().contains_key(k) ==> self.spec_cells()[k]
                        == (if (x0 <= k.0 <= x1 && y0 <= k.1 < y) || (k.1 == y && x0 <= k.0 < x) { tile_id } else { m0[k] }),
                decreases x1 as i64 + 1 - x,
            {
                self.set_cell(x as i32, y as i32, tile_id);
                x = x + 1;
            }
            y = y + 1;
        }
    }
}

// Areas

/// A 2D sensor area: its layers, monitoring flags and the ids of the bodies
/// inside, in order of arrival.
#[derive(Debug)]
pub struct Area2d {
    pub name: String,
    pub collision_layer: u32,
    pub collision_mask: u32,
    /// Whether entering and leaving are reported.
    pub monitoring: bool,
    /// Whether other areas can see this one.
    pub monitorable: bool,
    /// The bodies inside, in order of arrival.
    pub overlapping_bodies: Vec<u64>,
}

impl Area2d {
    /// An area on layer and mask 1, monitoring and monitorable, empty.
    pub fn new(name: &str) -> (a: Area2d)
        ensures
            a.name@ == name@,
            a.collision_layer == 1,
            a.collision_mask == 1,
            a.monitoring,
            a.monitorable,
            a.overlapping_bodies@ == Seq::<u64>::empty(),
    {
        Area2d {
            name: owned(name),
            collision_layer: 1,
            collision_mask: 1,
            monitoring: true,
            monitorable: true,
            overlapping_bodies: Vec::new(),
        }
    }

    /// A trigger area: like `new`, but not monitorable.
    pub fn trigger(name: &str) -> (a: Area2d)
        ensures
            a.name@ == name@,
            a.collision_layer == 1,
            a.collision_mask == 1,
            a.monitoring,
            !a.monitorable,
            a.overlapping_bodies@ == Seq::<u64>::empty(),
    {
        let mut area = Area2d::new(name);
        area.monitorable = false;
        area
    }

    /// Whether body `body_id` is inside.
    pub fn has_body(&self, body_id: u64) -> (b: bool)
        ensures
            b == self.overlapping_bodies@.contains(body_id),
    {
        let mut i: usize = 0;
        while i < self.overlapping_bodies.len()
            invariant
                i <= self.overlapping_bodies@.len(),
                forall|j: int| 0 <= j < i ==> self.overlapping_bodies@[j] != body_id,
            decreases self.overlapping_bodies@.len() - i,
        {
            if self.overlapping_bodies[i] == body_id {
                assert(self.overlapping_bodies@[i as int] == body_id);
                return true;
            }
            i = i + 1;
        }
        false
    }

    /// Records body `body_id` as inside, once.
    pub fn add_overlap(&mut self, body_id: u64)
        ensures
            old(self).overlapping_bodies@.contains(body_id) ==> final(self).overlapping_bodies@ == old(self).overlapping_bodies@,
            !old(self).overlapping_bodies@.contains(body_id) ==> final(self).overlapping_bodies@ == old(self).overlapping_bodies@.push(body_id),
            final(self).name == old(self).name,
    {
        if !self.has_body(body_id) {
            self.overlapping_bodies.push(body_id);
        }
    }

    /// Records body `body_id` as gone.
    pub fn remove_overlap(&mut self, body_id: u64)
        ensures
            final(self).overlapping_bodies@ == old(self).overlapping_bodies@.filter(|b: u64| b != body_id),
            final(self).name == old(self).name,
    {
        let ghost bs = self.overlapping_bodies@;
        let mut kept: Vec<u64> = Vec::new();
        let mut i: usize = 0;
        assert(bs.take(0).filter(|b: u64| b != body_id) =~= Seq::<u64>::empty()) by {
            reveal(Seq::filter);
        }
        while i < self.overlapping_bodies.len()
            invariant
                bs == self.overlapping_bodies@,
                i <= bs.len(),
                kept@ == bs.take(i as int).filter(|b: u64| b != body_id),
            decreases bs.len() - i,
        {
            proof {
                lemma_filter_grow(bs, |b: u64| b != body_id, i as int);
            }
            if self.overlapping_bodies[i] != body_id {
                kept.push(self.overlapping_bodies[i]);
            }
            i = i + 1;
        }
        assert(bs.take(bs.len() as int) =~= bs);
        self.overlapping_bodies = kept;
    }
}


/// A 3D sensor area: its layers, monitoring flags and the ids of the bodies
/// inside.
#[derive(Debug)]
pub struct Area3d {
    pub name: String,
    pub collision_layer: u32,
    pub collision_mask: u32,
    /// Whether entering and leaving are reported.
    pub monitoring: bool,
    /// Whether other areas can see this one.
    pub monitorable: bool,
    /// The bodies inside.
    pub overlapping_bodies: Vec<u64>,
}

impl Area3d {
    /// An area on layer and mask 1, monitoring and monitorable, empty.
    pub fn new(name: &str) -> (a: Area3d)
        ensures
            a.name@ == name@,
            a.collision_layer == 1,
            a.collision_mask == 1,
            a.monitoring,
            a.monitorable,
            a.overlapping_bodies@ == Seq::<u64>::empty(),
    {
        Area3d {
            name: owned(name),
            collision_layer: 1,
            collision_mask: 1,
            monitoring: true,
            monitorable: true,
            overlapping_bodies: Vec::new(),
        }
    }

    /// Whether body `id` is inside.
    pub fn has_body(&self, id: u64) -> (b: bool)
        ensures
            b == self.overlapping_bodies@.contains(id),
    {
        let mut i: usize = 0;
        while i < self.overlapping_bodies.len()
            invariant
                i <= self.overlapping_bodies@.len(),
                forall|j: int| 0 <= j < i ==> self.overlapping_bodies@[j] != id,
            decreases self.overlapping_bodies@.len() - i,
        {
            if self.overlapping_bodies[i] == id {
                assert(self.overlapping_bodies@[i as int] == id);
                return true;
            }
            i = i + 1;
        }
        false
    }
}

} // verus!
