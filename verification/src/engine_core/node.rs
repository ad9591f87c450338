//! Node paths and node types (Godot-style scene tree vocabulary).
use vstd::prelude::*;
use crate::text::{owned, seq_starts_with, seq_ends_with};

verus! {

broadcast use vstd::seq_lib::group_seq_properties;

/// The segment list that `cur` (a partly read segment) and the rest `s`
/// produce: `s` is cut at every `/`, and empty pieces are dropped.
pub open spec fn split_from(s: Seq<char>, cur: Seq<char>) -> Seq<Seq<char>>
    decreases s.len(),
{
    if s.len() == 0 {
        if cur.len() == 0 { seq![] } else { seq![cur] }
    } else if s[0] == '/' {
        (if cur.len() == 0 { seq![] } else { seq![cur] }) + split_from(s.drop_first(), seq![])
    } else {
        split_from(s.drop_first(), cur.push(s[0]))
    }
}

/// The non-empty `/`-separated segments of a path, in order.
pub open spec fn path_segments(s: Seq<char>) -> Seq<Seq<char>> {
    split_from(s, seq![])
}

/// The segments joined by single `/` characters.
pub open spec fn join_segments(segs: Seq<Seq<char>>) -> Seq<char>
    decreases segs.len(),
{
    if segs.len() == 0 {
        seq![]
    } else if segs.len() == 1 {
        segs[0]
    } else {
        join_segments(segs.drop_last()) + seq!['/'] + segs.last()
    }
}

/// Whether a segment is a plain name: non-empty and free of `/`.
pub open spec fn is_plain_name(c: Seq<char>) -> bool {
    c.len() > 0 && !c.contains('/')
}

/// The path that `join` produces from `base` and `child`.
pub open spec fn spec_join(base: Seq<char>, child: Seq<char>) -> Seq<char> {
    if seq_ends_with(base, seq!['/']) {
        base + child
    } else {
        base + seq!['/'] + child
    }
}

/// The path that `parent` produces, if any.
pub open spec fn spec_parent(p: Seq<char>) -> Option<Seq<char>> {
    let segs = path_segments(p);
    if segs.len() <= 1 {
        None
    } else {
        let joined = join_segments(segs.drop_last());
        Some(if seq_starts_with(p, seq!['/']) { seq!['/'] + joined } else { joined })
    }
}

/// Scene node path, like a file path: `/Root/Player/Weapon` is absolute,
/// `Player/Weapon` is relative.
#[derive(Debug)]
pub struct NodePath(pub String);

impl Clone for NodePath {
    fn clone(&self) -> (r: Self)
        ensures
            r@ == self@,
    {
        NodePath(self.0.clone())
    }
}

impl View for NodePath {
    type V = Seq<char>;

    open spec fn view(&self) -> Seq<char> {
        self.0@
    }
}

impl NodePath {
    /// Builds a path from a string (the format is not checked).
    pub fn new(path: &str) -> (p: NodePath)
        ensures
            p@ == path@,
    {
        NodePath(owned(path))
    }

    /// The root path `/`.
    pub fn root() -> (p: NodePath)
        ensures
            p@ == seq!['/'],
    {
        let s = "/";
        proof {
            reveal_strlit("/");
        }
        NodePath(owned(s))
    }

    pub fn as_str(&self) -> (s: &str)
        ensures
            s@ == self@,
    {
        self.0.as_str()
    }

    /// Whether the path starts with `/`.
    pub fn is_absolute(&self) -> (b: bool)
        ensures
            b == seq_starts_with(self@, seq!['/']),
    {
        let s = self.0.as_str();
        if s.unicode_len() == 0 {
            false
        } else {
            let c = s.get_char(0);
            assert(self@.subrange(0, 1) =~= seq![self@[0]]);
            assert(seq_starts_with(self@, seq!['/']) ==> self@.subrange(0, 1)[0] == '/');
            c == '/'
        }
    }

    /// The non-empty segments of the path, in order.
    pub fn segments(&self) -> (v: Vec<&str>)
        ensures
            v@.map_values(|x: &str| x@) == path_segments(self@),
    {
        let s = self.0.as_str();
        let n = s.unicode_len();
        let mut out: Vec<&str> = Vec::new();
        let mut start: usize = 0;
        let mut i: usize = 0;
        assert(s@.subrange(0, n as int) =~= s@);
        while i < n
            invariant
                n == s@.len(),
                s@ == self@,
                start <= i <= n,
                out@.map_values(|x: &str| x@) + split_from(
                    s@.subrange(i as int, n as int),
                    s@.subrange(start as int, i as int),
                ) == path_segments(self@),
            decreases n - i,
        {
            let ghost rest = s@.subrange(i as int, n as int);
            let ghost cur = s@.subrange(start as int, i as int);
            let ghost before = out@.map_values(|x: &str| x@);
            assert(rest.drop_first() =~= s@.subrange(i + 1, n as int));
            assert(rest[0] == s@[i as int]);
            let c = s.get_char(i);
            if c == '/' {
                if start < i {
                    let piece = s.substring_char(start, i);
                    out.push(piece);
                    assert(out@.map_values(|x: &str| x@) =~= before.push(cur));
                    assert(before + (seq![cur] + split_from(rest.drop_first(), seq![])) =~= before.push(cur)
                        + split_from(rest.drop_first(), seq![]));
                } else {
                    assert(cur.len() == 0);
                    assert(out@.map_values(|x: &str| x@) =~= before);
                    assert(seq![] + split_from(rest.drop_first(), seq![]) =~= split_from(rest.drop_first(), seq![]));
                }
                start = i + 1;
                assert(s@.subrange(start as int, start as int) =~= Seq::<char>::empty());
            } else {
                assert(cur.push(c) =~= s@.subrange(start as int, i + 1));
            }
            i = i + 1;
        }
        let ghost cur = s@.subrange(start as int, n as int);
        let ghost before = out@.map_values(|x: &str| x@);
        if start < n {
            let piece = s.substring_char(start, n);
            out.push(piece);
            assert(out@.map_values(|x: &str| x@) =~= before.push(cur));
            assert(before + seq![cur] =~= before.push(cur));
        } else {
            assert(before + seq![] =~= before);
        }
        out
    }

    /// The last segment (the node's name), if the path has one.
    pub fn name(&self) -> (r: Option<&str>)
        ensures
            path_segments(self@).len() == 0 ==> r is None,
            path_segments(self@).len() > 0 ==> r is Some && r->0@ == path_segments(self@).last(),
    {
        let segs = self.segments();
        let k = segs.len();
        if k == 0 {
            None
        } else {
            let last = segs[k - 1];
            assert(segs@.map_values(|x: &str| x@)[k - 1] == last@);
            Some(last)
        }
    }

    /// The parent path: all segments but the last, joined by `/`, with the
    /// leading `/` kept for absolute paths. `None` for paths of at most one segment.
    pub fn parent(&self) -> (r: Option<NodePath>)
        ensures
            match (r, spec_parent(self@)) {
                (Some(p), Some(q)) => p@ == q,
                (None, None) => true,
                _ => false,
            },
    {
        let segs = self.segments();
        let ghost sv = segs@.map_values(|x: &str| x@);
        let k = segs.len();
        if k <= 1 {
            return None;
        }
        let mut joined = String::new();
        let mut i: usize = 0;
        while i < k - 1
            invariant
                k == segs@.len(),
                sv == segs@.map_values(|x: &str| x@),
                k >= 2,
                i <= k - 1,
                joined@ == join_segments(sv.take(i as int)),
            decreases k - 1 - i,
        {
            let ghost prev = sv.take(i as int);
            assert(sv.take(i + 1).drop_last() =~= prev);
            assert(sv.take(i + 1).last() == segs@[i as int]@);
            if i > 0 {
                let sep = "/";
                proof {
                    reveal_strlit("/");
                }
                joined.append(sep);
            } else {
                assert(joined@ =~= Seq::<char>::empty());
            }
            joined.append(segs[i]);
            if i == 0 {
                assert(joined@ =~= sv.take(1)[0]);
            }
            i = i + 1;
        }
        assert(sv.take(k - 1) =~= sv.drop_last());
        if self.is_absolute() {
            let mut out = String::new();
            let sep = "/";
            proof {
                reveal_strlit("/");
            }
            out.append(sep);
            out.append(joined.as_str());
            Some(NodePath(out))
        } else {
            Some(NodePath(joined))
        }
    }

    /// Appends a child segment, inserting `/` unless the path already ends with one.
    pub fn join(&self, child: &str) -> (r: NodePath)
        ensures
            r@ == spec_join(self@, child@),
    {
        let mut out = owned(self.0.as_str());
        let sep = "/";
        proof {
            reveal_strlit("/");
            assert(sep@ =~= seq!['/']);
        }
        if !crate::text::ends_with(self.0.as_str(), sep) {
            out.append(sep);
        }
        out.append(child);
        NodePath(out)
    }

    /// Whether the path is exactly `/`.
    pub fn is_root(&self) -> (b: bool)
        ensures
            b == (self@ == seq!['/']),
    {
        let sep = "/";
        proof {
            reveal_strlit("/");
            assert(sep@ =~= seq!['/']);
        }
        crate::text::str_eq(self.0.as_str(), sep)
    }
}


/// Node types, after Godot's node class hierarchy.
#[derive(Debug, PartialEq, Eq)]
pub enum NodeType {
    Node,
    Node2d,
    Node3d,
    Sprite2d,
    AnimatedSprite2d,
    Camera2d,
    TileMap,
    Label,
    CanvasLayer,
    MeshInstance3d,
    Camera3d,
    DirectionalLight3d,
    PointLight3d,
    SpotLight3d,
    OmniLight3d,
    Environment3d,
    Decal,
    RigidBody2d,
    StaticBody2d,
    CharacterBody2d,
    Area2d,
    CollisionShape2d,
    RayCast2d,
    RigidBody3d,
    StaticBody3d,
    CharacterBody3d,
    Area3d,
    CollisionShape3d,
    RayCast3d,
    UiNode,
    UiPanel,
    UiLabel,
    UiButton,
    UiImage,
    UiContainer,
    UiScrollContainer,
    UiLineEdit,
    UiTextEdit,
    UiCheckbox,
    UiSlider,
    AudioStreamPlayer,
    AudioStreamPlayer2d,
    AudioStreamPlayer3d,
    AnimationPlayer,
    AnimationTree,
    ScriptNode,
    /// A user-defined node type.
    Custom(String),
}

impl Clone for NodeType {
    fn clone(&self) -> (r: Self)
        ensures
            r == *self,
    {
        match self {
            NodeType::Node => NodeType::Node,
            NodeType::Node2d => NodeType::Node2d,
            NodeType::Node3d => NodeType::Node3d,
            NodeType::Sprite2d => NodeType::Sprite2d,
            NodeType::AnimatedSprite2d => NodeType::AnimatedSprite2d,
            NodeType::Camera2d => NodeType::Camera2d,
            NodeType::TileMap => NodeType::TileMap,
            NodeType::Label => NodeType::Label,
            NodeType::CanvasLayer => NodeType::CanvasLayer,
            NodeType::MeshInstance3d => NodeType::MeshInstance3d,
            NodeType::Camera3d => NodeType::Camera3d,
            NodeType::DirectionalLight3d => NodeType::DirectionalLight3d,
            NodeType::PointLight3d => NodeType::PointLight3d,
            NodeType::SpotLight3d => NodeType::SpotLight3d,
            NodeType::OmniLight3d => NodeType::OmniLight3d,
            NodeType::Environment3d => NodeType::Environment3d,
            NodeType::Decal => NodeType::Decal,
            NodeType::RigidBody2d => NodeType::RigidBody2d,
            NodeType::StaticBody2d => NodeType::StaticBody2d,
            NodeType::CharacterBody2d => NodeType::CharacterBody2d,
            NodeType::Area2d => NodeType::Area2d,
            NodeType::CollisionShape2d => NodeType::CollisionShape2d,
            NodeType::RayCast2d => NodeType::RayCast2d,
            NodeType::RigidBody3d => NodeType::RigidBody3d,
            NodeType::StaticBody3d => NodeType::StaticBody3d,
            NodeType::CharacterBody3d => NodeType::CharacterBody3d,
            NodeType::Area3d => NodeType::Area3d,
            NodeType::CollisionShape3d => NodeType::CollisionShape3d,
            NodeType::RayCast3d => NodeType::RayCast3d,
            NodeType::UiNode => NodeType::UiNode,
            NodeType::UiPanel => NodeType::UiPanel,
            NodeType::UiLabel => NodeType::UiLabel,
            NodeType::UiButton => NodeType::UiButton,
            NodeType::UiImage => NodeType::UiImage,
            NodeType::UiContainer => NodeType::UiContainer,
            NodeType::UiScrollContainer => NodeType::UiScrollContainer,
            NodeType::UiLineEdit => NodeType::UiLineEdit,
            NodeType::UiTextEdit => NodeType::UiTextEdit,
            NodeType::UiCheckbox => NodeType::UiCheckbox,
            NodeType::UiSlider => NodeType::UiSlider,
            NodeType::AudioStreamPlayer => NodeType::AudioStreamPlayer,
            NodeType::AudioStreamPlayer2d => NodeType::AudioStreamPlayer2d,
            NodeType::AudioStreamPlayer3d => NodeType::AudioStreamPlayer3d,
            NodeType::AnimationPlayer => NodeType::AnimationPlayer,
            NodeType::AnimationTree => NodeType::AnimationTree,
            NodeType::ScriptNode => NodeType::ScriptNode,
            NodeType::Custom(name) => NodeType::Custom(name.clone()),
        }
    }
}

impl NodeType {
    /// 2D nodes: the 2D rendering, physics and audio nodes.
    pub open spec fn spec_is_2d(&self) -> bool {
        self is Node2d || self is Sprite2d || self is AnimatedSprite2d || self is Camera2d || self is TileMap || self is RigidBody2d || self is StaticBody2d || self is CharacterBody2d || self is Area2d || self is CollisionShape2d || self is RayCast2d || self is AudioStreamPlayer2d
    }

    /// 3D nodes: the 3D rendering, lighting, physics and audio nodes.
    pub open spec fn spec_is_3d(&self) -> bool {
        self is Node3d || self is MeshInstance3d || self is Camera3d || self is DirectionalLight3d || self is PointLight3d || self is SpotLight3d || self is OmniLight3d || self is RigidBody3d || self is StaticBody3d || self is CharacterBody3d || self is Area3d || self is CollisionShape3d || self is RayCast3d || self is AudioStreamPlayer3d
    }

    /// UI nodes.
    pub open spec fn spec_is_ui(&self) -> bool {
        self is UiNode || self is UiPanel || self is UiLabel || self is UiButton || self is UiImage || self is UiContainer || self is UiScrollContainer || self is UiLineEdit || self is UiTextEdit || self is UiCheckbox || self is UiSlider
    }

    /// Whether this is a 2D node.
    pub fn is_2d(&self) -> (b: bool)
        ensures
            b == self.spec_is_2d(),
    {
        match self {
            NodeType::Node2d | NodeType::Sprite2d | NodeType::AnimatedSprite2d | NodeType::Camera2d | NodeType::TileMap | NodeType::RigidBody2d | NodeType::StaticBody2d | NodeType::CharacterBody2d | NodeType::Area2d | NodeType::CollisionShape2d | NodeType::RayCast2d | NodeType::AudioStreamPlayer2d => true,
            _ => false,
        }
    }

    /// Whether this is a 3D node.
    pub fn is_3d(&self) -> (b: bool)
        ensures
            b == self.spec_is_3d(),
    {
        match self {
            NodeType::Node3d | NodeType::MeshInstance3d | NodeType::Camera3d | NodeType::DirectionalLight3d | NodeType::PointLight3d | NodeType::SpotLight3d | NodeType::OmniLight3d | NodeType::RigidBody3d | NodeType::StaticBody3d | NodeType::CharacterBody3d | NodeType::Area3d | NodeType::CollisionShape3d | NodeType::RayCast3d | NodeType::AudioStreamPlayer3d => true,
            _ => false,
        }
    }

    /// Whether this is a UI node.
    pub fn is_ui(&self) -> (b: bool)
        ensures
            b == self.spec_is_ui(),
    {
        match self {
            NodeType::UiNode | NodeType::UiPanel | NodeType::UiLabel | NodeType::UiButton | NodeType::UiImage | NodeType::UiContainer | NodeType::UiScrollContainer | NodeType::UiLineEdit | NodeType::UiTextEdit | NodeType::UiCheckbox | NodeType::UiSlider => true,
            _ => false,
        }
    }
}

/// No node type is classified under more than one of 2D, 3D and UI.
pub proof fn law_node_classes_disjoint(t: NodeType)
    ensures
        !(t.spec_is_2d() && t.spec_is_3d()),
        !(t.spec_is_2d() && t.spec_is_ui()),
        !(t.spec_is_3d() && t.spec_is_ui()),
{
}

/// Cutting `s + "/" + t` splits into the pieces of `s` followed by those of `t`.
proof fn lemma_split_concat(s: Seq<char>, t: Seq<char>, cur: Seq<char>)
    ensures
        split_from(s + seq!['/'] + t, cur) == split_from(s, cur) + split_from(t, seq![]),
    decreases s.len(),
{
    let whole = s + seq!['/'] + t;
    if s.len() == 0 {
        assert(whole =~= seq!['/'] + t);
        assert(whole.drop_first() =~= t);
    } else {
        assert(whole[0] == s[0]);
        assert(whole.drop_first() =~= s.drop_first() + seq!['/'] + t);
        if s[0] == '/' {
            lemma_split_concat(s.drop_first(), t, seq![]);
            let head: Seq<Seq<char>> = if cur.len() == 0 { seq![] } else { seq![cur] };
            assert(head + (split_from(s.drop_first(), seq![]) + split_from(t, seq![]))
                =~= (head + split_from(s.drop_first(), seq![])) + split_from(t, seq![]));
        } else {
            lemma_split_concat(s.drop_first(), t, cur.push(s[0]));
        }
    }
}

/// A piece without `/` stays one segment (or none, when it is empty).
proof fn lemma_split_plain(c: Seq<char>, cur: Seq<char>)
    requires
        !c.contains('/'),
    ensures
        split_from(c, cur) == (if (cur + c).len() == 0 { seq![] } else { seq![cur + c] }),
    decreases c.len(),
{
    if c.len() == 0 {
        assert(cur + c =~= cur);
    } else {
        assert(c[0] != '/') by {
            if c[0] == '/' {
                assert(c.contains('/'));
            }
        }
        assert(!c.drop_first().contains('/')) by {
            if c.drop_first().contains('/') {
                let k = choose|k: int| 0 <= k < c.drop_first().len() && c.drop_first()[k] == '/';
                assert(c[k + 1] == '/');
            }
        }
        lemma_split_plain(c.drop_first(), cur.push(c[0]));
        assert(cur.push(c[0]) + c.drop_first() =~= cur + c);
    }
}

/// Every segment produced by the split is a plain name.
proof fn lemma_split_plain_names(s: Seq<char>, cur: Seq<char>)
    requires
        !cur.contains('/'),
    ensures
        forall|i: int| 0 <= i < split_from(s, cur).len() ==> is_plain_name(#[trigger] split_from(s, cur)[i]),
    decreases s.len(),
{
    if s.len() == 0 {
        if cur.len() > 0 {
            assert(split_from(s, cur) == seq![cur]);
            assert(seq![cur][0] == cur);
        }
    } else if s[0] == '/' {
        lemma_split_plain_names(s.drop_first(), seq![]);
        let head: Seq<Seq<char>> = if cur.len() == 0 { seq![] } else { seq![cur] };
        let rest = split_from(s.drop_first(), seq![]);
        assert forall|i: int| 0 <= i < (head + rest).len() implies is_plain_name(#[trigger] (head + rest)[i]) by {
            if i < head.len() {
                assert((head + rest)[i] == cur);
            } else {
                assert((head + rest)[i] == rest[i - head.len()]);
            }
        }
        assert(split_from(s, cur) == head + rest);
    } else {
        assert(!cur.push(s[0]).contains('/')) by {
            if cur.push(s[0]).contains('/') {
                let k = choose|k: int| 0 <= k < cur.push(s[0]).len() && cur.push(s[0])[k] == '/';
                if k < cur.len() {
                    assert(cur[k] == '/');
                }
            }
        }
        lemma_split_plain_names(s.drop_first(), cur.push(s[0]));
        assert(split_from(s, cur) == split_from(s.drop_first(), cur.push(s[0])));
    }
}

/// Splitting a `/`-join of plain names gives the names back.
proof fn lemma_segments_of_join(segs: Seq<Seq<char>>)
    requires
        segs.len() >= 1,
        forall|i: int| 0 <= i < segs.len() ==> is_plain_name(#[trigger] segs[i]),
    ensures
        path_segments(join_segments(segs)) == segs,
    decreases segs.len(),
{
    if segs.len() == 1 {
        assert(is_plain_name(segs[0]));
        lemma_split_plain(segs[0], seq![]);
        assert(Seq::<char>::empty() + segs[0] =~= segs[0]);
        assert(segs =~= seq![segs[0]]);
    } else {
        let init = segs.drop_last();
        assert forall|i: int| 0 <= i < init.len() implies is_plain_name(#[trigger] init[i]) by {
            assert(init[i] == segs[i]);
        }
        lemma_segments_of_join(init);
        lemma_split_concat(join_segments(init), segs.last(), seq![]);
        assert(is_plain_name(segs[segs.len() - 1]));
        lemma_split_plain(segs.last(), seq![]);
        assert(Seq::<char>::empty() + segs.last() =~= segs.last());
        assert(init + seq![segs.last()] =~= segs);
    }
}

/// A leading `/` does not change the segments.
proof fn lemma_segments_leading_slash(x: Seq<char>)
    ensures
        path_segments(seq!['/'] + x) == path_segments(x),
{
    let whole = seq!['/'] + x;
    assert(whole[0] == '/');
    assert(whole.drop_first() =~= x);
    assert(Seq::<Seq<char>>::empty() + path_segments(x) =~= path_segments(x));
}

/// Joining a plain child name onto any path appends exactly that name to the
/// path's segments.
pub proof fn law_join_appends_segment(base: Seq<char>, child: Seq<char>)
    requires
        is_plain_name(child),
    ensures
        path_segments(spec_join(base, child)) == path_segments(base).push(child),
{
    lemma_split_plain(child, seq![]);
    assert(Seq::<char>::empty() + child =~= child);
    if seq_ends_with(base, seq!['/']) {
        let b = base.drop_last();
        assert(base.subrange(base.len() - 1, base.len() as int)[0] == '/');
        assert(base =~= b + seq!['/'] + Seq::<char>::empty());
        assert(base + child =~= b + seq!['/'] + child);
        lemma_split_concat(b, child, seq![]);
        lemma_split_concat(b, Seq::<char>::empty(), seq![]);
        assert(split_from(b, seq![]) + Seq::<Seq<char>>::empty() =~= split_from(b, seq![]));
        assert(split_from(b, seq![]) + seq![child] =~= split_from(b, seq![]).push(child));
    } else {
        lemma_split_concat(base, child, seq![]);
        assert(split_from(base, seq![]) + seq![child] =~= split_from(base, seq![]).push(child));
    }
}

/// The last segment of a path joined with a plain child is that child.
pub proof fn law_join_then_name(base: Seq<char>, child: Seq<char>)
    requires
        is_plain_name(child),
    ensures
        path_segments(spec_join(base, child)).len() > 0,
        path_segments(spec_join(base, child)).last() == child,
{
    law_join_appends_segment(base, child);
}

/// The parent of `base` joined with a plain child has the segments of `base`,
/// whenever `base` has at least one segment.
pub proof fn law_parent_undoes_join(base: Seq<char>, child: Seq<char>)
    requires
        is_plain_name(child),
        path_segments(base).len() >= 1,
    ensures
        spec_parent(spec_join(base, child)) is Some,
        path_segments(spec_parent(spec_join(base, child))->0) == path_segments(base),
{
    let joined = spec_join(base, child);
    law_join_appends_segment(base, child);
    let segs = path_segments(joined);
    assert(segs.drop_last() =~= path_segments(base));
    lemma_split_plain_names(base, seq![]);
    lemma_segments_of_join(path_segments(base));
    if seq_starts_with(joined, seq!['/']) {
        lemma_segments_leading_slash(join_segments(path_segments(base)));
    }
}

/// Lowercase hexadecimal digit of `n` (0 to 15).
pub open spec fn hex_digit(n: int) -> char {
    if n < 10 { (48 + n) as char } else { (87 + n) as char }
}

/// The hyphenated lowercase form of a UUID given by its 128 bits: 32 hex
/// digits, most significant first, grouped 8-4-4-4-12.
pub open spec fn uuid_text(bits: u128) -> Seq<char> {
    let h = Seq::new(32, |k: int| hex_digit(((bits >> ((124 - 4 * k) as u128)) & 0xfu128) as int));
    h.subrange(0, 8) + seq!['-'] + h.subrange(8, 12) + seq!['-'] + h.subrange(12, 16) + seq!['-']
        + h.subrange(16, 20) + seq!['-'] + h.subrange(20, 32)
}

/// A UUID given by its 128 bits, as text: `uuid::Uuid::from_u128` then
/// `to_string`, whose `Display` writes the hyphenated lowercase form.
#[verifier::external_body]
pub(crate) fn uuid_string(bits: u128) -> (s: String)
    ensures
        s@ == uuid_text(bits),
{
    uuid::Uuid::from_u128(bits).to_string()
}

/// A random version-4 UUID as a 128-bit number: `uuid::Uuid::new_v4()`
/// then `Uuid::as_u128`. The source masks a random number so that the
/// version nibble (bits 76 to 79) reads 4 and the variant (bits 62 and 63)
/// reads binary 10; the other bits are random and nothing is said of them.
#[verifier::external_body]
pub(crate) fn random_v4_bits() -> (r: u128)
    ensures
        (r >> 76u128) & 0xfu128 == 4u128,
        (r >> 62u128) & 0x3u128 == 2u128,
{
    uuid::Uuid::new_v4().as_u128()
}

/// Unique node identifier: the 128 bits of a UUID.
#[derive(Debug, Clone, Copy, PartialEq, Eq, Hash, Structural)]
pub struct NodeId(pub u128);

impl NodeId {
    /// A fresh random identifier: a version-4 UUID (version nibble 4,
    /// variant bits 10), so never the nil one. Its other bits are random.
    pub fn new() -> (id: NodeId)
        ensures
            (id.0 >> 76u128) & 0xfu128 == 4u128,
            (id.0 >> 62u128) & 0x3u128 == 2u128,
            id.0 != 0,
    {
        let bits = random_v4_bits();
        assert(bits != 0) by (bit_vector)
            requires
                (bits >> 76u128) & 0xfu128 == 4u128;
        NodeId(bits)
    }

    /// Whether this is the nil identifier (all bits zero).
    pub fn is_nil(&self) -> (b: bool)
        ensures
            b == (self.0 == 0),
    {
        self.0 == 0
    }
}

impl Default for NodeId {
    fn default() -> (id: Self)
        ensures
            id.0 != 0,
    {
        NodeId::new()
    }
}

/// Metadata of a scene node.
#[derive(Debug)]
pub struct NodeMeta {
    pub id: NodeId,
    pub name: String,
    pub node_type: NodeType,
    pub enabled: bool,
    pub visible: bool,
    /// Tags, for group queries.
    pub tags: Vec<String>,
    pub parent: Option<NodeId>,
    pub children: Vec<NodeId>,
}

/// Whether some tag of `tags` is `tag`.
pub open spec fn has_tag_in(tags: Seq<String>, tag: Seq<char>) -> bool {
    exists|i: int| 0 <= i < tags.len() && (#[trigger] tags[i])@ == tag
}

/// Whether some string of `v` equals `s`.
pub fn strings_contain(v: &Vec<String>, s: &str) -> (b: bool)
    ensures
        b == has_tag_in(v@, s@),
{
    let mut i: usize = 0;
    while i < v.len()
        invariant
            i <= v@.len(),
            forall|j: int| 0 <= j < i ==> (#[trigger] v@[j])@ != s@,
        decreases v@.len() - i,
    {
        if crate::text::str_eq(v[i].as_str(), s) {
            return true;
        }
        i = i + 1;
    }
    false
}

impl NodeMeta {
    /// Metadata of a fresh, enabled and visible node without tags, parent or
    /// children.
    pub fn new(name: &str, node_type: NodeType) -> (m: NodeMeta)
        ensures
            m.id.0 != 0,
            m.name@ == name@,
            m.node_type == node_type,
            m.enabled,
            m.visible,
            m.tags@ == Seq::<String>::empty(),
            m.parent is None,
            m.children@ == Seq::<NodeId>::empty(),
    {
        NodeMeta {
            id: NodeId::new(),
            name: owned(name),
            node_type,
            enabled: true,
            visible: true,
            tags: Vec::new(),
            parent: None,
            children: Vec::new(),
        }
    }

    /// Adds a tag.
    pub fn with_tag(self, tag: &str) -> (m: NodeMeta)
        ensures
            m.tags@.len() == self.tags@.len() + 1,
            m.tags@.drop_last() == self.tags@,
            m.tags@.last()@ == tag@,
            m.id == self.id,
            m.name == self.name,
    {
        let mut m = self;
        let ghost before = m.tags@;
        m.tags.push(owned(tag));
        assert(m.tags@.drop_last() =~= before);
        m
    }

    /// Whether the node has the tag `tag`.
    pub fn has_tag(&self, tag: &str) -> (b: bool)
        ensures
            b == has_tag_in(self.tags@, tag@),
    {
        strings_contain(&self.tags, tag)
    }
}

} // verus!
