//! Physics vocabulary: body kinds, collision layers, collision events and
//! errors.
use vstd::prelude::*;
use crate::engine_core::signal::lemma_filter_step;

verus! {

/// How a rigid body moves.
#[derive(Debug, Clone, Copy, PartialEq, Eq, Structural)]
pub enum RigidBodyType {
    /// Moved by forces.
    Dynamic,
    /// Never moves.
    Static,
    /// Moved by hand.
    Kinematic,
}

impl Default for RigidBodyType {
    fn default() -> (t: RigidBodyType)
        ensures
            t == RigidBodyType::Dynamic,
    {
        RigidBodyType::Dynamic
    }
}

/// Kind of a collision event.
#[derive(Debug, Clone, Copy, PartialEq, Eq, Structural)]
pub enum CollisionEventKind {
    /// First frame of contact.
    Entered,
    /// Contact goes on.
    Persisted,
    /// Contact ended this frame.
    Exited,
}

/// The pair of two bodies in contact, the smaller id first.
pub open spec fn spec_contact_pair(a: u64, b: u64) -> (u64, u64) {
    if a < b { (a, b) } else { (b, a) }
}

/// The pair of two bodies in contact, the smaller id first.
pub fn contact_pair(a: u64, b: u64) -> (p: (u64, u64))
    ensures
        p == spec_contact_pair(a, b),
{
    if a < b { (a, b) } else { (b, a) }
}

/// Keeps the pairs that are in `current`.
pub open spec fn pair_in(current: Seq<(u64, u64)>) -> spec_fn((u64, u64)) -> bool {
    |p: (u64, u64)| current.contains(p)
}

/// Keeps the pairs that are not in `current`.
pub open spec fn pair_not_in(current: Seq<(u64, u64)>) -> spec_fn((u64, u64)) -> bool {
    |p: (u64, u64)| !current.contains(p)
}

/// The body pairs in contact, carried from one physics step to the next so
/// that each contact is reported as entered, persisted or exited.
#[derive(Debug)]
pub struct ContactPairs {
    pairs: Vec<(u64, u64)>,
}

impl ContactPairs {
    /// The pairs in contact, in the order they were first seen.
    pub closed spec fn spec_pairs(&self) -> Seq<(u64, u64)> {
        self.pairs@
    }

    /// No pair in contact.
    pub fn new() -> (c: ContactPairs)
        ensures
            c.spec_pairs() == Seq::<(u64, u64)>::empty(),
    {
        ContactPairs { pairs: Vec::new() }
    }

    /// Records a contact between bodies `a` and `b` found in this step: it
    /// persists when their pair was in contact, and enters otherwise (the
    /// pair is then added).
    pub fn record_contact(&mut self, a: u64, b: u64) -> (k: CollisionEventKind)
        ensures
            old(self).spec_pairs().contains(spec_contact_pair(a, b)) ==> {
                &&& k == CollisionEventKind::Persisted
                &&& final(self).spec_pairs() == old(self).spec_pairs()
            },
            !old(self).spec_pairs().contains(spec_contact_pair(a, b)) ==> {
                &&& k == CollisionEventKind::Entered
                &&& final(self).spec_pairs() == old(self).spec_pairs().push(spec_contact_pair(a, b))
            },
    {
        let p = contact_pair(a, b);
        let mut i: usize = 0;
        while i < self.pairs.len()
            invariant
                self.pairs@ == old(self).pairs@,
                p == spec_contact_pair(a, b),
                i <= self.pairs@.len(),
                forall|j: int| 0 <= j < i ==> self.pairs@[j] != p,
            decreases self.pairs@.len() - i,
        {
            if self.pairs[i].0 == p.0 && self.pairs[i].1 == p.1 {
                assert(self.pairs@[i as int] == p);
                assert(old(self).spec_pairs().contains(p));
                return CollisionEventKind::Persisted;
            }
            i = i + 1;
        }
        self.pairs.push(p);
        CollisionEventKind::Entered
    }

    /// Ends a step whose contacts were the pairs `current`: the pairs in
    /// contact before and not now have exited; they are returned, in order,
    /// and dropped.
    pub fn remove_exited(&mut self, current: &Vec<(u64, u64)>) -> (exited: Vec<(u64, u64)>)
        ensures
            exited@ == old(self).spec_pairs().filter(pair_not_in(current@)),
            final(self).spec_pairs() == old(self).spec_pairs().filter(pair_in(current@)),
    {
        let ghost ps = self.pairs@;
        let mut kept: Vec<(u64, u64)> = Vec::new();
        let mut gone: Vec<(u64, u64)> = Vec::new();
        let mut i: usize = 0;
        assert(ps.take(0).filter(pair_in(current@)) =~= Seq::<(u64, u64)>::empty()) by {
            reveal(Seq::filter);
        }
        assert(ps.take(0).filter(pair_not_in(current@)) =~= Seq::<(u64, u64)>::empty()) by {
            reveal(Seq::filter);
        }
        while i < self.pairs.len()
            invariant
                ps == self.pairs@,
                i <= ps.len(),
                kept@ == ps.take(i as int).filter(pair_in(current@)),
                gone@ == ps.take(i as int).filter(pair_not_in(current@)),
            decreases ps.len() - i,
        {
            proof {
                lemma_filter_step(ps, pair_in(current@), i as int);
                lemma_filter_step(ps, pair_not_in(current@), i as int);
            }
            let p = self.pairs[i];
            if pairs_contain(current, p) {
                kept.push(p);
            } else {
                gone.push(p);
            }
            i = i + 1;
        }
        assert(ps.take(ps.len() as int) =~= ps);
        self.pairs = kept;
        gone
    }
}

/// Whether `p` is among `pairs`.
fn pairs_contain(pairs: &Vec<(u64, u64)>, p: (u64, u64)) -> (r: bool)
    ensures
        r == pairs@.contains(p),
{
    let mut i: usize = 0;
    while i < pairs.len()
        invariant
            i <= pairs@.len(),
            forall|j: int| 0 <= j < i ==> pairs@[j] != p,
        decreases pairs@.len() - i,
    {
        if pairs[i].0 == p.0 && pairs[i].1 == p.1 {
            assert(pairs@[i as int] == p);
            return true;
        }
        i = i + 1;
    }
    false
}

/// Collision layer masks (32 layers).
#[derive(Debug, Clone, Copy, PartialEq, Eq, Structural)]
pub struct CollisionLayers {
    /// Layers the body is on.
    pub membership: u32,
    /// Layers the body collides with.
    pub filter: u32,
}

/// Whether two layer configurations collide: either one's filter meets the
/// other's membership.
pub open spec fn spec_interacts(a: CollisionLayers, b: CollisionLayers) -> bool {
    (a.filter & b.membership) != 0 || (b.filter & a.membership) != 0
}

impl CollisionLayers {
    /// On every layer, colliding with every layer.
    pub fn all() -> (c: CollisionLayers)
        ensures
            c.membership == u32::MAX,
            c.filter == u32::MAX,
    {
        CollisionLayers { membership: u32::MAX, filter: u32::MAX }
    }

    /// On layer `layer` only, colliding with that layer only.
    pub fn only(layer: u32) -> (c: CollisionLayers)
        requires
            layer < 32,
        ensures
            c.membership == 1u32 << layer,
            c.filter == 1u32 << layer,
    {
        CollisionLayers { membership: 1u32 << layer, filter: 1u32 << layer }
    }

    pub fn new(membership: u32, filter: u32) -> (c: CollisionLayers)
        ensures
            c.membership == membership,
            c.filter == filter,
    {
        CollisionLayers { membership, filter }
    }

    /// Whether the two configurations collide.
    pub fn interacts_with(&self, other: &CollisionLayers) -> (b: bool)
        ensures
            b == spec_interacts(*self, *other),
    {
        (self.filter & other.membership) != 0 || (other.filter & self.membership) != 0
    }
}

impl Default for CollisionLayers {
    fn default() -> (c: Self)
        ensures
            c.membership == u32::MAX,
            c.filter == u32::MAX,
    {
        CollisionLayers::all()
    }
}

/// Collision is symmetric.
pub proof fn law_interaction_symmetric(a: CollisionLayers, b: CollisionLayers)
    ensures
        spec_interacts(a, b) == spec_interacts(b, a),
{
}

/// Two bodies on the same single layer collide; bodies on two different
/// single layers do not.
pub proof fn law_single_layers(i: u32, j: u32)
    requires
        i < 32,
        j < 32,
    ensures
        spec_interacts(
            CollisionLayers { membership: 1u32 << i, filter: 1u32 << i },
            CollisionLayers { membership: 1u32 << j, filter: 1u32 << j },
        ) == (i == j),
{
    assert(((1u32 << i) & (1u32 << j)) != 0 <==> i == j) by (bit_vector)
        requires
            i < 32,
            j < 32,
    ;
    assert(((1u32 << j) & (1u32 << i)) != 0 <==> i == j) by (bit_vector)
        requires
            i < 32,
            j < 32,
    ;
}

/// A body that collides with everything meets any body on some layer.
pub proof fn law_all_meets_any(b: CollisionLayers)
    requires
        b.membership != 0,
    ensures
        spec_interacts(CollisionLayers { membership: u32::MAX, filter: u32::MAX }, b),
{
    let m = b.membership;
    assert((0xffff_ffffu32 & m) == m) by (bit_vector);
}

/// Collision is decided by the filters alone: bodies whose filters meet
/// neither one's membership never collide, whatever layers they share, and a
/// filter that meets the other's membership always makes them collide.
pub proof fn law_filters_decide(a: CollisionLayers, b: CollisionLayers)
    ensures
        (a.filter & b.membership) == 0 && (b.filter & a.membership) == 0 ==> !spec_interacts(a, b),
        (a.filter & b.membership) != 0 ==> spec_interacts(a, b),
        (b.filter & a.membership) != 0 ==> spec_interacts(a, b),
{
}

/// Layer by layer: a body on layer `i` with filter `f` and a body on layer
/// `j` with filter `g` collide exactly when `f` holds layer `j` or `g` holds
/// layer `i`.
pub proof fn law_layer_rule(i: u32, j: u32, f: u32, g: u32)
    requires
        i < 32,
        j < 32,
    ensures
        spec_interacts(
            CollisionLayers { membership: 1u32 << i, filter: f },
            CollisionLayers { membership: 1u32 << j, filter: g },
        ) == ((f >> j) & 1 == 1 || (g >> i) & 1 == 1),
{
    assert(((f & (1u32 << j)) != 0) == ((f >> j) & 1 == 1)) by (bit_vector)
        requires
            j < 32,
    ;
    assert(((g & (1u32 << i)) != 0) == ((g >> i) & 1 == 1)) by (bit_vector)
        requires
            i < 32,
    ;
}

/// Errors of the physics system.
#[derive(Debug)]
pub enum PhysicsError {
    BodyNotFound(u64),
    InvalidShape(String),
    JointError(String),
}

} // verus!
