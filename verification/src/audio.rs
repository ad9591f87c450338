//! Audio vocabulary: playback states, errors, distance attenuation models,
//! and the routing of the mixing buses. Playback and mixing themselves run on
//! floating-point time and volume and live outside this library.
use vstd::prelude::*;
use crate::text::{owned, str_eq};

verus! {

/// State of a playback.
#[derive(Debug, Clone, Copy, PartialEq, Eq, Structural)]
pub enum PlaybackState {
    Stopped,
    Playing,
    Paused,
    /// Played to the end without looping.
    Finished,
}

/// Audio errors, each with its detail.
#[derive(Debug)]
pub enum AudioError {
    /// Loading the audio failed.
    LoadFailed(String),
    /// Decoding the audio failed.
    DecodeFailed(String),
    /// Playing the audio failed.
    PlaybackFailed(String),
    /// No audio bus has that name.
    BusNotFound(String),
}

/// How a spatial sound fades with distance.
#[derive(Debug, Clone, Copy, PartialEq, Eq, Structural)]
pub enum AttenuationModel {
    Linear,
    InverseDistance,
    Exponential,
    /// No attenuation (`None` in serialized form).
    Off,
}


/// The name of the bus every other bus ends up in.
pub open spec fn master_name() -> Seq<char> {
    seq!['M', 'a', 's', 't', 'e', 'r']
}

/// The bus names of a routing table (bus name, bus it sends to).
pub open spec fn bus_names(r: Seq<(Seq<char>, Option<Seq<char>>)>) -> Set<Seq<char>> {
    r.map_values(|e: (Seq<char>, Option<Seq<char>>)| e.0).to_set()
}

/// Whether `name` is a bus of the table.
pub open spec fn bus_rank(r: Seq<(Seq<char>, Option<Seq<char>>)>, name: Seq<char>) -> nat {
    if bus_names(r).contains(name) { 0 } else { 1 }
}

pub proof fn lemma_bus_names_finite(r: Seq<(Seq<char>, Option<Seq<char>>)>)
    ensures
        bus_names(r).finite(),
{
    vstd::seq_lib::seq_to_set_is_finite(r.map_values(|e: (Seq<char>, Option<Seq<char>>)| e.0));
}

pub proof fn lemma_unvisited_shrinks(n: Set<Seq<char>>, v: Set<Seq<char>>, w: Set<Seq<char>>)
    requires
        n.finite(),
        v.subset_of(w),
    ensures
        n.difference(w).len() <= n.difference(v).len(),
{
    vstd::set_lib::lemma_len_subset(n.difference(w), n.difference(v));
}

pub proof fn lemma_unvisited_drops(n: Set<Seq<char>>, v: Set<Seq<char>>, x: Seq<char>)
    requires
        n.finite(),
        n.contains(x),
        !v.contains(x),
    ensures
        n.difference(v.insert(x)).len() < n.difference(v).len(),
{
    assert(n.difference(v.insert(x)) =~= n.difference(v).remove(x));
    assert(n.difference(v).contains(x));
}

/// Visits bus `name` depth-first: unless visited already, it is marked, the
/// buses sending to it are visited in table order, and it is listed after
/// them. Returns the list and the visited names.
pub open spec fn visit_bus(r: Seq<(Seq<char>, Option<Seq<char>>)>, name: Seq<char>, vis: Set<Seq<char>>, order: Seq<Seq<char>>) -> (Seq<Seq<char>>, Set<Seq<char>>)
    decreases bus_names(r).difference(vis).len(), bus_rank(r, name), 0nat,
{
    if vis.contains(name) {
        (order, vis)
    } else {
        proof {
            lemma_bus_names_finite(r);
            if bus_names(r).contains(name) {
                lemma_unvisited_drops(bus_names(r), vis, name);
            } else {
                lemma_unvisited_shrinks(bus_names(r), vis, vis.insert(name));
            }
        }
        let (o, v) = visit_senders(r, name, 0, vis.insert(name), order);
        (o.push(name), v)
    }
}

/// Visits, from entry `i` of the table on, the buses that send to `parent`.
pub open spec fn visit_senders(r: Seq<(Seq<char>, Option<Seq<char>>)>, parent: Seq<char>, i: nat, vis: Set<Seq<char>>, order: Seq<Seq<char>>) -> (Seq<Seq<char>>, Set<Seq<char>>)
    decreases bus_names(r).difference(vis).len(), 0nat, r.len() - i,
{
    if i >= r.len() {
        (order, vis)
    } else if r[i as int].1 == Some(parent) {
        proof {
            assert(r.map_values(|e: (Seq<char>, Option<Seq<char>>)| e.0)[i as int] == r[i as int].0);
            assert(bus_names(r).contains(r[i as int].0));
        }
        let (o, v) = visit_bus(r, r[i as int].0, vis, order);
        proof {
            lemma_bus_names_finite(r);
            lemma_unvisited_shrinks(bus_names(r), vis, vis.union(v));
        }
        visit_senders(r, parent, i + 1, vis.union(v), o)
    } else {
        visit_senders(r, parent, i + 1, vis, order)
    }
}

/// The order in which the buses are processed: depth-first from `Master`,
/// each bus after the buses that send to it.
pub open spec fn processing_order_of(r: Seq<(Seq<char>, Option<Seq<char>>)>) -> Seq<Seq<char>> {
    visit_bus(r, master_name(), Set::empty(), Seq::empty()).0
}

/// Visiting only adds visited names.
proof fn lemma_visit_bus_grows(r: Seq<(Seq<char>, Option<Seq<char>>)>, name: Seq<char>, vis: Set<Seq<char>>, order: Seq<Seq<char>>)
    ensures
        vis.subset_of(visit_bus(r, name, vis, order).1),
    decreases bus_names(r).difference(vis).len(), bus_rank(r, name), 0nat,
{
    if !vis.contains(name) {
        lemma_bus_names_finite(r);
        if bus_names(r).contains(name) {
            lemma_unvisited_drops(bus_names(r), vis, name);
        } else {
            lemma_unvisited_shrinks(bus_names(r), vis, vis.insert(name));
        }
        lemma_visit_senders_grows(r, name, 0, vis.insert(name), order);
    }
}

proof fn lemma_visit_senders_grows(r: Seq<(Seq<char>, Option<Seq<char>>)>, parent: Seq<char>, i: nat, vis: Set<Seq<char>>, order: Seq<Seq<char>>)
    ensures
        vis.subset_of(visit_senders(r, parent, i, vis, order).1),
    decreases bus_names(r).difference(vis).len(), 0nat, r.len() - i,
{
    if i < r.len() {
        if r[i as int].1 == Some(parent) {
            assert(r.map_values(|e: (Seq<char>, Option<Seq<char>>)| e.0)[i as int] == r[i as int].0);
            let (o, v) = visit_bus(r, r[i as int].0, vis, order);
            lemma_bus_names_finite(r);
            lemma_unvisited_shrinks(bus_names(r), vis, vis.union(v));
            lemma_visit_senders_grows(r, parent, i + 1, vis.union(v), o);
        } else {
            lemma_visit_senders_grows(r, parent, i + 1, vis, order);
        }
    }
}

/// The routing table as plain values.
pub open spec fn routing_view(r: Seq<(String, Option<String>)>) -> Seq<(Seq<char>, Option<Seq<char>>)> {
    r.map_values(|e: (String, Option<String>)| (e.0@, match e.1 {
        Some(t) => Some(t@),
        None => None,
    }))
}

/// The names as plain values.
pub open spec fn names_view(v: Seq<String>) -> Seq<Seq<char>> {
    v.map_values(|s: String| s@)
}

/// Whether `name` is one of `names`.
fn names_contain(names: &Vec<String>, name: &str) -> (b: bool)
    ensures
        b == names_view(names@).contains(name@),
{
    let mut i: usize = 0;
    while i < names.len()
        invariant
            i <= names@.len(),
            forall|j: int| 0 <= j < i ==> names@[j]@ != name@,
        decreases names@.len() - i,
    {
        if str_eq(names[i].as_str(), name) {
            assert(names_view(names@)[i as int] == name@);
            return true;
        }
        i = i + 1;
    }
    assert(!names_view(names@).contains(name@)) by {
        if names_view(names@).contains(name@) {
            let j = choose|j: int| 0 <= j < names_view(names@).len() && names_view(names@)[j] == name@;
            assert(names@[j]@ == name@);
        }
    }
    false
}

/// Visits bus `name` as `visit_bus` says.
fn visit_bus_exec(routing: &Vec<(String, Option<String>)>, name: &str, visited: &mut Vec<String>, order: &mut Vec<String>)
    ensures
        (names_view(final(order)@), names_view(final(visited)@).to_set())
            == visit_bus(routing_view(routing@), name@, names_view(old(visited)@).to_set(), names_view(old(order)@)),
    decreases bus_names(routing_view(routing@)).difference(names_view(old(visited)@).to_set()).len(),
        bus_rank(routing_view(routing@), name@), 0nat,
{
    let ghost r = routing_view(routing@);
    let ghost v0 = names_view(visited@).to_set();
    let ghost o0 = names_view(order@);
    if names_contain(visited, name) {
        return;
    }
    proof {
        lemma_bus_names_finite(r);
        if bus_names(r).contains(name@) {
            lemma_unvisited_drops(bus_names(r), v0, name@);
        } else {
            lemma_unvisited_shrinks(bus_names(r), v0, v0.insert(name@));
        }
    }
    let ghost vb = visited@;
    visited.push(owned(name));
    assert(names_view(visited@) =~= names_view(vb).push(name@));
    assert(names_view(visited@).to_set() =~= v0.insert(name@)) by {
        assert forall|x: Seq<char>| names_view(visited@).to_set().contains(x) == v0.insert(name@).contains(x) by {
            if names_view(visited@).contains(x) && x != name@ {
                let j = choose|j: int| 0 <= j < names_view(visited@).len() && names_view(visited@)[j] == x;
                assert(names_view(vb)[j] == x);
            }
            if names_view(vb).contains(x) {
                let j = choose|j: int| 0 <= j < names_view(vb).len() && names_view(vb)[j] == x;
                assert(names_view(visited@)[j] == x);
            }
            if x == name@ {
                assert(names_view(visited@)[names_view(vb).len() as int] == x);
            }
        }
    }
    let ghost target = visit_senders(r, name@, 0, v0.insert(name@), o0);
    let mut i: usize = 0;
    while i < routing.len()
        invariant
            r == routing_view(routing@),
            i <= routing@.len(),
            visit_senders(r, name@, i as nat, names_view(visited@).to_set(), names_view(order@)) == target,
            v0.insert(name@).subset_of(names_view(visited@).to_set()),
            bus_names(r).finite(),
            v0 == names_view(old(visited)@).to_set(),
            bus_names(r).contains(name@) ==> bus_names(r).difference(v0.insert(name@)).len() < bus_names(r).difference(v0).len(),
            !bus_names(r).contains(name@) ==> bus_names(r).difference(v0.insert(name@)).len() <= bus_names(r).difference(v0).len()
                && bus_rank(r, name@) == 1,
        decreases routing@.len() - i,
    {
        let ghost vi = names_view(visited@).to_set();
        let ghost oi = names_view(order@);
        let sends_here = match &routing[i].1 {
            Some(t) => str_eq(t.as_str(), name),
            None => false,
        };
        assert(r[i as int] == (routing@[i as int].0@, match routing@[i as int].1 {
            Some(t) => Some(t@),
            None => None::<Seq<char>>,
        }));
        if sends_here {
            assert(r[i as int].1 == Some(name@));
            proof {
                assert(r.map_values(|e: (Seq<char>, Option<Seq<char>>)| e.0)[i as int] == r[i as int].0);
                assert(bus_names(r).contains(r[i as int].0));
                lemma_unvisited_shrinks(bus_names(r), v0.insert(name@), vi);
            }
            visit_bus_exec(routing, routing[i].0.as_str(), visited, order);
            proof {
                lemma_visit_bus_grows(r, r[i as int].0, vi, oi);
                let v = visit_bus(r, r[i as int].0, vi, oi).1;
                assert(vi.union(v) =~= v);
            }
        } else {
            assert(r[i as int].1 != Some(name@));
        }
        i = i + 1;
    }
    let ghost ob = order@;
    order.push(owned(name));
    assert(names_view(order@) =~= names_view(ob).push(name@));
}

/// The order in which the buses of `routing` (bus name, bus it sends to) are
/// processed: depth-first from `Master`, each bus after the buses that send
/// to it, those taken in table order.
pub fn bus_processing_order(routing: &Vec<(String, Option<String>)>) -> (order: Vec<String>)
    ensures
        names_view(order@) == processing_order_of(routing_view(routing@)),
        names_view(order@).len() >= 1,
        names_view(order@).last() == master_name(),
{
    let mut visited: Vec<String> = Vec::new();
    let mut order: Vec<String> = Vec::new();
    let master = "Master";
    proof {
        reveal_strlit("Master");
        assert(master@ =~= master_name());
    }
    assert(names_view(visited@).to_set() =~= Set::<Seq<char>>::empty());
    assert(names_view(order@) =~= Seq::<Seq<char>>::empty());
    visit_bus_exec(routing, master, &mut visited, &mut order);
    order
}

/// Whether the bus `name` may be removed: every bus but `Master`.
pub fn bus_removable(name: &str) -> (b: bool)
    ensures
        b == (name@ != master_name()),
{
    let master = "Master";
    proof {
        reveal_strlit("Master");
        assert(master@ =~= master_name());
    }
    !str_eq(name, master)
}


/// The bus that `x` sends to, by the first entry named `x`.
pub open spec fn send_target(r: Seq<(Seq<char>, Option<Seq<char>>)>, x: Seq<char>) -> Option<Seq<char>>
    decreases r.len(),
{
    if r.len() == 0 {
        None
    } else if r[0].0 == x {
        r[0].1
    } else {
        send_target(r.drop_first(), x)
    }
}

/// The bus names of the table, in order.
pub open spec fn bus_name_list(r: Seq<(Seq<char>, Option<Seq<char>>)>) -> Seq<Seq<char>> {
    r.map_values(|e: (Seq<char>, Option<Seq<char>>)| e.0)
}

proof fn lemma_send_target_at(r: Seq<(Seq<char>, Option<Seq<char>>)>, i: int)
    requires
        bus_name_list(r).no_duplicates(),
        0 <= i < r.len(),
    ensures
        send_target(r, r[i].0) == r[i].1,
    decreases i,
{
    if i > 0 {
        let t = r.drop_first();
        assert(bus_name_list(r)[0] != bus_name_list(r)[i]);
        assert(bus_name_list(t) =~= bus_name_list(r).drop_first());
        assert forall|a: int, b: int| 0 <= a < b < bus_name_list(t).len() implies bus_name_list(t)[a] != bus_name_list(t)[b] by {
            assert(bus_name_list(r)[a + 1] == bus_name_list(t)[a] && bus_name_list(r)[b + 1] == bus_name_list(t)[b]);
        }
        assert(t[i - 1] == r[i]);
        lemma_send_target_at(t, i - 1);
    }
}

/// Every name of `seg` sends to a bus listed after it in `seg`, or to `top`.
pub open spec fn targets_later(r: Seq<(Seq<char>, Option<Seq<char>>)>, seg: Seq<Seq<char>>, top: Seq<char>) -> bool {
    forall|k: int| 0 <= k < seg.len() ==>
        (exists|j: int| k < j < seg.len() && #[trigger] send_target(r, seg[k]) == Some(seg[j]))
        || send_target(r, seg[k]) == Some(top)
}

proof fn lemma_visit_bus_targets(r: Seq<(Seq<char>, Option<Seq<char>>)>, name: Seq<char>, vis: Set<Seq<char>>, order: Seq<Seq<char>>)
    requires
        bus_name_list(r).no_duplicates(),
    ensures
        ({
            let o = visit_bus(r, name, vis, order).0;
            &&& o.len() >= order.len()
            &&& o.subrange(0, order.len() as int) == order
            &&& (o.len() > order.len() ==> o.last() == name
                && targets_later(r, o.subrange(order.len() as int, o.len() - 1), name))
        }),
    decreases bus_names(r).difference(vis).len(), bus_rank(r, name), 0nat,
{
    if vis.contains(name) {
        assert(order.subrange(0, order.len() as int) =~= order);
    } else {
        lemma_bus_names_finite(r);
        if bus_names(r).contains(name) {
            lemma_unvisited_drops(bus_names(r), vis, name);
        } else {
            lemma_unvisited_shrinks(bus_names(r), vis, vis.insert(name));
        }
        lemma_visit_senders_targets(r, name, 0, vis.insert(name), order);
        let o1 = visit_senders(r, name, 0, vis.insert(name), order).0;
        let o = o1.push(name);
        assert(o.subrange(0, order.len() as int) =~= o1.subrange(0, order.len() as int));
        assert(o.subrange(order.len() as int, o.len() - 1) =~= o1.subrange(order.len() as int, o1.len() as int));
    }
}

proof fn lemma_visit_senders_targets(r: Seq<(Seq<char>, Option<Seq<char>>)>, parent: Seq<char>, i: nat, vis: Set<Seq<char>>, order: Seq<Seq<char>>)
    requires
        bus_name_list(r).no_duplicates(),
    ensures
        ({
            let o = visit_senders(r, parent, i, vis, order).0;
            &&& o.len() >= order.len()
            &&& o.subrange(0, order.len() as int) == order
            &&& targets_later(r, o.subrange(order.len() as int, o.len() as int), parent)
        }),
    decreases bus_names(r).difference(vis).len(), 0nat, r.len() - i,
{
    if i >= r.len() {
        assert(order.subrange(0, order.len() as int) =~= order);
        assert(order.subrange(order.len() as int, order.len() as int) =~= Seq::<Seq<char>>::empty());
    } else if r[i as int].1 == Some(parent) {
        let c = r[i as int].0;
        assert(r.map_values(|e: (Seq<char>, Option<Seq<char>>)| e.0)[i as int] == c);
        let (o2, v2) = visit_bus(r, c, vis, order);
        lemma_visit_bus_targets(r, c, vis, order);
        lemma_bus_names_finite(r);
        lemma_unvisited_shrinks(bus_names(r), vis, vis.union(v2));
        lemma_visit_senders_targets(r, parent, i + 1, vis.union(v2), o2);
        lemma_send_target_at(r, i as int);
        let o3 = visit_senders(r, parent, i + 1, vis.union(v2), o2).0;
        let n = order.len() as int;
        let t = o2.subrange(n, o2.len() as int);
        let s2 = o3.subrange(o2.len() as int, o3.len() as int);
        let whole = o3.subrange(n, o3.len() as int);
        assert(o3.subrange(0, n) =~= o2.subrange(0, n)) by {
            assert forall|k: int| 0 <= k < n implies o3[k] == o2[k] by {
                assert(o3.subrange(0, o2.len() as int)[k] == o2[k]);
            }
        }
        assert(whole =~= t + s2) by {
            assert forall|k: int| 0 <= k < whole.len() implies whole[k] == (t + s2)[k] by {
                if k < t.len() {
                    assert(o3.subrange(0, o2.len() as int)[n + k] == o2[n + k]);
                }
            }
        }
        assert forall|k: int| 0 <= k < whole.len() implies
            (exists|j: int| k < j < whole.len() && #[trigger] send_target(r, whole[k]) == Some(whole[j]))
            || send_target(r, whole[k]) == Some(parent) by {
            if k < t.len() {
                assert(whole[k] == t[k]);
                if k == t.len() - 1 {
                    assert(t[k] == o2.last());
                    assert(o2.last() == c);
                    assert(send_target(r, c) == Some(parent));
                } else {
                    let tt = o2.subrange(n, o2.len() - 1);
                    assert(t[k] == tt[k]);
                    if exists|j: int| k < j < tt.len() && #[trigger] send_target(r, tt[k]) == Some(tt[j]) {
                        let j = choose|j: int| k < j < tt.len() && #[trigger] send_target(r, tt[k]) == Some(tt[j]);
                        assert(whole[j] == tt[j]);
                        assert(send_target(r, whole[k]) == Some(whole[j]));
                    } else {
                        assert(send_target(r, tt[k]) == Some(c));
                        let j = t.len() - 1;
                        assert(whole[j] == c);
                        assert(send_target(r, whole[k]) == Some(whole[j]));
                    }
                }
            } else {
                let k2 = k - t.len();
                assert(whole[k] == s2[k2]);
                if exists|j: int| k2 < j < s2.len() && #[trigger] send_target(r, s2[k2]) == Some(s2[j]) {
                    let j = choose|j: int| k2 < j < s2.len() && #[trigger] send_target(r, s2[k2]) == Some(s2[j]);
                    assert(whole[j + t.len()] == s2[j]);
                    assert(send_target(r, whole[k]) == Some(whole[j + t.len()]));
                }
            }
        }
    } else {
        lemma_visit_senders_targets(r, parent, i + 1, vis, order);
    }
}

/// Each bus is processed before the bus it sends to: in the processing order
/// of a table with distinct names, every bus but the last (`Master`) sends
/// to a bus listed after it.
pub proof fn law_buses_before_their_targets(r: Seq<(Seq<char>, Option<Seq<char>>)>)
    requires
        bus_name_list(r).no_duplicates(),
    ensures
        forall|k: int| 0 <= k < processing_order_of(r).len() - 1 ==>
            exists|j: int| k < j < processing_order_of(r).len()
                && #[trigger] send_target(r, processing_order_of(r)[k]) == Some(processing_order_of(r)[j]),
{
    let empty = Seq::<Seq<char>>::empty();
    lemma_visit_bus_targets(r, master_name(), Set::empty(), empty);
    let o = processing_order_of(r);
    assert(!Set::<Seq<char>>::empty().contains(master_name()));
    assert(o.len() > 0);
    let seg = o.subrange(0, o.len() - 1);
    assert forall|k: int| 0 <= k < o.len() - 1 implies
        exists|j: int| k < j < o.len() && #[trigger] send_target(r, o[k]) == Some(o[j]) by {
        assert(seg[k] == o[k]);
        if exists|j: int| k < j < seg.len() && #[trigger] send_target(r, seg[k]) == Some(seg[j]) {
            let j = choose|j: int| k < j < seg.len() && #[trigger] send_target(r, seg[k]) == Some(seg[j]);
            assert(seg[j] == o[j]);
            assert(send_target(r, o[k]) == Some(o[j]));
        } else {
            assert(send_target(r, o[k]) == Some(o[o.len() - 1]));
        }
    }
}

} // verus!
