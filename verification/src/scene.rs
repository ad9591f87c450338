//! Scenes: the data of scene nodes, scene assets and their metadata, and
//! the vocabulary of node modes and kinds. Encoding scenes as JSON or RON
//! happens outside this library.
use vstd::prelude::*;
use crate::engine_core::node::{has_tag_in, strings_contain, NodeId, NodeType};
use crate::text::owned;

verus! {

/// Motion mode of a 2D character body.
#[derive(Debug, Clone, Copy, PartialEq, Eq, Structural)]
pub enum CharacterMotionMode {
    /// Top-down movement, no gravity.
    Floating,
    /// Platformer movement, with gravity.
    Grounded,
}

/// Shape from which a 3D particle system emits.
#[derive(Debug, Clone, Copy, PartialEq, Eq, Structural)]
pub enum EmitterShape {
    Point,
    Sphere,
    Box,
    Cone,
    Hemisphere,
}

/// Kind of a 3D rigid body.
#[derive(Debug, Clone, Copy, PartialEq, Eq, Structural)]
pub enum RigidBodyType3d {
    Dynamic,
    Static,
    Kinematic,
}

/// Tone mapping of a 3D environment.
#[derive(Debug, Clone, Copy, PartialEq, Eq, Structural)]
pub enum TonemapMode {
    Linear,
    Aces,
    Filmic,
    Agx,
}

/// Descriptive data of a scene.
#[derive(Debug)]
pub struct SceneMetadata {
    pub description: String,
    pub author: String,
    pub tags: Vec<String>,
    /// Paths of the assets the scene needs.
    pub asset_dependencies: Vec<String>,
}

impl Default for SceneMetadata {
    fn default() -> (m: Self)
        ensures
            m.description@ == Seq::<char>::empty(),
            m.author@ == Seq::<char>::empty(),
            m.tags@ == Seq::<String>::empty(),
            m.asset_dependencies@ == Seq::<String>::empty(),
    {
        SceneMetadata { description: String::new(), author: String::new(), tags: Vec::new(), asset_dependencies: Vec::new() }
    }
}

/// The entries of a JSON value that is an object (`serde_json::Value::Object`),
/// by key; `None` for any other JSON value.
pub uninterp spec fn json_object_entries(v: serde_json::Value) -> Option<Map<Seq<char>, serde_json::Value>>;

/// An empty JSON object: `serde_json::Value::Object(serde_json::Map::new())`.
/// It is an object with no entries.
#[verifier::external_body]
pub(crate) fn empty_json_object() -> (v: serde_json::Value)
    ensures
        json_object_entries(v) == Some(Map::<Seq<char>, serde_json::Value>::empty()),
{
    serde_json::Value::Object(serde_json::Map::new())
}

/// Copies a JSON value: `serde_json::Value::clone`, whose derived
/// implementation copies the value deeply, so the copy equals its source.
#[verifier::external_body]
pub(crate) fn clone_json(v: &serde_json::Value) -> (r: serde_json::Value)
    ensures
        r == *v,
{
    v.clone()
}

/// A copy of a list of node ids.
pub fn copy_ids(ids: &Vec<NodeId>) -> (r: Vec<NodeId>)
    ensures
        r@ == ids@,
{
    let mut r: Vec<NodeId> = Vec::new();
    let mut i: usize = 0;
    while i < ids.len()
        invariant
            i <= ids@.len(),
            r@ == ids@.take(i as int),
        decreases ids@.len() - i,
    {
        r.push(ids[i]);
        assert(r@ =~= ids@.take(i + 1));
        i = i + 1;
    }
    assert(r@ =~= ids@);
    r
}

/// `b` holds the same data as `a`.
pub open spec fn same_node_data(a: SceneNodeData, b: SceneNodeData) -> bool {
    &&& b.id == a.id
    &&& b.name == a.name
    &&& b.node_type == a.node_type
    &&& b.enabled == a.enabled
    &&& b.visible == a.visible
    &&& b.tags@ == a.tags@
    &&& b.parent == a.parent
    &&& b.children@ == a.children@
    &&& b.properties == a.properties
}

/// Data common to every scene node.
#[derive(Debug)]
pub struct SceneNodeData {
    pub id: NodeId,
    pub name: String,
    pub node_type: NodeType,
    pub enabled: bool,
    pub visible: bool,
    pub tags: Vec<String>,
    pub parent: Option<NodeId>,
    pub children: Vec<NodeId>,
    /// Custom properties (a JSON object).
    pub properties: serde_json::Value,
}

impl Clone for SceneNodeData {
    fn clone(&self) -> (c: Self)
        ensures
            same_node_data(*self, c),
    {
        let tags = self.tags.clone();
        assert(tags@ =~= self.tags@);
        let children = copy_ids(&self.children);
        SceneNodeData {
            id: self.id,
            name: self.name.clone(),
            node_type: self.node_type.clone(),
            enabled: self.enabled,
            visible: self.visible,
            tags,
            parent: self.parent,
            children,
            properties: clone_json(&self.properties),
        }
    }
}

impl SceneNodeData {
    /// A fresh, enabled and visible node without tags, parent, children or
    /// properties.
    pub fn new(name: &str, node_type: NodeType) -> (d: SceneNodeData)
        ensures
            d.id.0 != 0,
            d.name@ == name@,
            d.node_type == node_type,
            d.enabled,
            d.visible,
            d.tags@ == Seq::<String>::empty(),
            d.parent is None,
            d.children@ == Seq::<NodeId>::empty(),
            json_object_entries(d.properties) == Some(Map::<Seq<char>, serde_json::Value>::empty()),
    {
        SceneNodeData {
            id: NodeId::new(),
            name: owned(name),
            node_type,
            enabled: true,
            visible: true,
            tags: Vec::new(),
            parent: None,
            children: Vec::new(),
            properties: empty_json_object(),
        }
    }

    /// Adds a tag unless the node has it already.
    pub fn add_tag(&mut self, tag: &str)
        ensures
            has_tag_in(old(self).tags@, tag@) ==> final(self).tags@ == old(self).tags@,
            !has_tag_in(old(self).tags@, tag@) ==> final(self).tags@.len() == old(self).tags@.len() + 1
                && final(self).tags@.drop_last() == old(self).tags@
                && final(self).tags@.last()@ == tag@,
            final(self).id == old(self).id,
            final(self).name == old(self).name,
            final(self).children == old(self).children,
    {
        if !strings_contain(&self.tags, tag) {
            let ghost before = self.tags@;
            self.tags.push(owned(tag));
            assert(self.tags@.drop_last() =~= before);
        }
    }

    /// Whether the node has the tag `tag`.
    pub fn has_tag(&self, tag: &str) -> (b: bool)
        ensures
            b == has_tag_in(self.tags@, tag@),
    {
        strings_contain(&self.tags, tag)
    }

    /// Sets the property `key`: `serde_json::Map::insert` on the properties
    /// when they are a JSON object (the key then holds `value`, the other
    /// keys keep theirs), nothing otherwise. The node's other fields stay.
    #[verifier::external_body]
    pub fn set_property(&mut self, key: &str, value: serde_json::Value)
        ensures
            match json_object_entries(old(self).properties) {
                Some(m) => json_object_entries(final(self).properties) == Some(m.insert(key@, value)),
                None => final(self).properties == old(self).properties,
            },
            final(self).id == old(self).id,
            final(self).name == old(self).name,
            final(self).node_type == old(self).node_type,
            final(self).enabled == old(self).enabled,
            final(self).visible == old(self).visible,
            final(self).tags == old(self).tags,
            final(self).parent == old(self).parent,
            final(self).children == old(self).children,
    {
        if let serde_json::Value::Object(ref mut map) = self.properties {
            map.insert(key.to_string(), value);
        }
    }

    /// The property `key`: `serde_json::Map::get` on the properties when they
    /// are a JSON object, `None` otherwise.
    #[verifier::external_body]
    pub fn get_property(&self, key: &str) -> (r: Option<&serde_json::Value>)
        ensures
            match json_object_entries(self.properties) {
                Some(m) => if m.contains_key(key@) {
                    r == Some(&m[key@])
                } else {
                    r is None
                },
                None => r is None,
            },
    {
        if let serde_json::Value::Object(ref map) = self.properties {
            map.get(key)
        } else {
            None
        }
    }
}

/// Properties read back: after setting `k` to `v` on an object with entries
/// `m`, reading `k` gives `v` and reading any other key gives what it gave
/// before.
pub proof fn law_property_read_back(m: Map<Seq<char>, serde_json::Value>, k: Seq<char>, v: serde_json::Value, other: Seq<char>)
    ensures
        m.insert(k, v).contains_key(k),
        m.insert(k, v)[k] == v,
        other != k ==> m.insert(k, v).contains_key(other) == m.contains_key(other),
        other != k && m.contains_key(other) ==> m.insert(k, v)[other] == m[other],
{
}

/// A scene as stored: its nodes, root and metadata.
#[derive(Debug)]
pub struct SceneAsset {
    pub name: String,
    /// Format version.
    pub version: u32,
    pub nodes: Vec<SceneNodeData>,
    pub root: Option<NodeId>,
    pub metadata: SceneMetadata,
}

impl SceneAsset {
    /// An empty scene, format version 1.
    pub fn new(name: &str) -> (a: SceneAsset)
        ensures
            a.name@ == name@,
            a.version == 1,
            a.nodes@ == Seq::<SceneNodeData>::empty(),
            a.root is None,
            a.metadata.description@ == Seq::<char>::empty(),
            a.metadata.author@ == Seq::<char>::empty(),
            a.metadata.tags@ == Seq::<String>::empty(),
            a.metadata.asset_dependencies@ == Seq::<String>::empty(),
    {
        SceneAsset { name: owned(name), version: 1, nodes: Vec::new(), root: None, metadata: SceneMetadata::default() }
    }
}

/// A scene at run time.
#[derive(Debug)]
pub struct Scene {
    pub asset: SceneAsset,
    pub loaded: bool,
    pub active: bool,
}

impl Scene {
    /// A scene over `asset`, not loaded and not active yet.
    pub fn from_asset(asset: SceneAsset) -> (s: Scene)
        ensures
            s.asset == asset,
            !s.loaded,
            !s.active,
    {
        Scene { asset, loaded: false, active: false }
    }

    /// The scene's name.
    pub fn name(&self) -> (n: &str)
        ensures
            n@ == self.asset.name@,
    {
        self.asset.name.as_str()
    }
}

} // verus!
