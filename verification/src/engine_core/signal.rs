//! Signal connections: which callbacks a signal calls, in which order, and
//! which of them are dropped after one call. The callbacks themselves are
//! kept by the caller under their connection ids.
use vstd::prelude::*;
use crate::engine_core::node::{random_v4_bits, uuid_string, uuid_text};
use crate::text::{owned, str_eq};

verus! {

/// Identifier of one connection to a signal: the 128 bits of a UUID.
#[derive(Debug, Clone, Copy, PartialEq, Eq, Hash, Structural)]
pub struct ConnectionId(pub u128);

impl ConnectionId {
    /// A fresh random identifier: a version-4 UUID (version nibble 4,
    /// variant bits 10), so never the nil one. Its other bits are random.
    pub fn new() -> (id: ConnectionId)
        ensures
            (id.0 >> 76u128) & 0xfu128 == 4u128,
            (id.0 >> 62u128) & 0x3u128 == 2u128,
            id.0 != 0,
    {
        let bits = random_v4_bits();
        assert(bits != 0) by (bit_vector)
            requires
                (bits >> 76u128) & 0xfu128 == 4u128;
        ConnectionId(bits)
    }

    /// The identifier as hyphenated lowercase UUID text.
    pub fn to_text(&self) -> (s: String)
        ensures
            s@ == uuid_text(self.0),
    {
        uuid_string(self.0)
    }
}

/// Keeps the connections whose id is not `id`.
pub open spec fn conn_other_than(id: ConnectionId) -> spec_fn((ConnectionId, bool)) -> bool {
    |c: (ConnectionId, bool)| c.0 != id
}

/// Whether a connection fires only once.
pub open spec fn conn_once() -> spec_fn((ConnectionId, bool)) -> bool {
    |c: (ConnectionId, bool)| c.1
}

/// The ids of the connections.
pub open spec fn conn_ids(cs: Seq<(ConnectionId, bool)>) -> Seq<ConnectionId> {
    cs.map_values(|c: (ConnectionId, bool)| c.0)
}

/// Keeps the connections whose id is not in `ids`.
pub open spec fn conn_not_in(ids: Seq<ConnectionId>) -> spec_fn((ConnectionId, bool)) -> bool {
    |c: (ConnectionId, bool)| !ids.contains(c.0)
}

/// One more element considered by a filter.
pub(crate) proof fn lemma_filter_step<A>(s: Seq<A>, p: spec_fn(A) -> bool, k: int)
    requires
        0 <= k < s.len(),
    ensures
        s.take(k + 1).filter(p) == (if p(s[k]) {
            s.take(k).filter(p).push(s[k])
        } else {
            s.take(k).filter(p)
        }),
{
    reveal(Seq::filter);
    assert(s.take(k + 1).drop_last() =~= s.take(k));
    assert(s.take(k + 1).last() == s[k]);
}

/// The connections of a typed signal, in connection order, each with its
/// one-shot flag.
#[derive(Debug)]
pub struct SignalConnections {
    conns: Vec<(ConnectionId, bool)>,
}

impl SignalConnections {
    /// The connections, in connection order.
    pub closed spec fn spec_conns(&self) -> Seq<(ConnectionId, bool)> {
        self.conns@
    }

    /// No connections.
    pub fn new() -> (s: SignalConnections)
        ensures
            s.spec_conns() == Seq::<(ConnectionId, bool)>::empty(),
    {
        SignalConnections { conns: Vec::new() }
    }

    /// Adds the connection `id` at the end (`once`: dropped after its first
    /// call).
    pub fn connect_with_id(&mut self, id: ConnectionId, once: bool)
        ensures
            final(self).spec_conns() == old(self).spec_conns().push((id, once)),
    {
        self.conns.push((id, once));
    }

    /// Adds a connection under a fresh random id and returns the id.
    pub fn connect(&mut self, once: bool) -> (id: ConnectionId)
        ensures
            final(self).spec_conns() == old(self).spec_conns().push((id, once)),
            id.0 != 0,
    {
        let id = ConnectionId::new();
        self.connect_with_id(id, once);
        id
    }

    /// Removes every connection of id `id`.
    pub fn disconnect(&mut self, id: ConnectionId)
        ensures
            final(self).spec_conns() == old(self).spec_conns().filter(conn_other_than(id)),
    {
        let ghost cs = self.conns@;
        let mut kept: Vec<(ConnectionId, bool)> = Vec::new();
        let mut i: usize = 0;
        assert(cs.take(0).filter(conn_other_than(id)) =~= Seq::<(ConnectionId, bool)>::empty()) by {
            reveal(Seq::filter);
        }
        while i < self.conns.len()
            invariant
                cs == self.conns@,
                i <= cs.len(),
                kept@ == cs.take(i as int).filter(conn_other_than(id)),
            decreases cs.len() - i,
        {
            proof {
                lemma_filter_step(cs, conn_other_than(id), i as int);
            }
            let c = self.conns[i];
            if c.0 != id {
                kept.push(c);
            }
            i = i + 1;
        }
        assert(cs.take(cs.len() as int) =~= cs);
        self.conns = kept;
    }

    /// Emitting: the ids to call, every connection in order; the one-shot
    /// connections are then dropped (with any connection sharing their id).
    pub fn emit(&mut self) -> (calls: Vec<ConnectionId>)
        ensures
            calls@ == conn_ids(old(self).spec_conns()),
            final(self).spec_conns() == old(self).spec_conns().filter(
                conn_not_in(conn_ids(old(self).spec_conns().filter(conn_once())))),
    {
        let ghost cs = self.conns@;
        let mut calls: Vec<ConnectionId> = Vec::new();
        let mut once_ids: Vec<ConnectionId> = Vec::new();
        let mut i: usize = 0;
        assert(cs.take(0).filter(conn_once()) =~= Seq::<(ConnectionId, bool)>::empty()) by {
            reveal(Seq::filter);
        }
        while i < self.conns.len()
            invariant
                cs == self.conns@,
                i <= cs.len(),
                calls@ == conn_ids(cs.take(i as int)),
                once_ids@ == conn_ids(cs.take(i as int).filter(conn_once())),
            decreases cs.len() - i,
        {
            proof {
                lemma_filter_step(cs, conn_once(), i as int);
            }
            let c = self.conns[i];
            calls.push(c.0);
            if c.1 {
                once_ids.push(c.0);
            }
            assert(conn_ids(cs.take(i + 1)) =~= conn_ids(cs.take(i as int)).push(c.0));
            assert(conn_ids(cs.take(i as int).filter(conn_once()).push(c)) =~= conn_ids(cs.take(i as int).filter(conn_once())).push(c.0));
            i = i + 1;
        }
        assert(cs.take(cs.len() as int) =~= cs);
        let ghost gone = once_ids@;
        if once_ids.len() > 0 {
            let mut kept: Vec<(ConnectionId, bool)> = Vec::new();
            let mut j: usize = 0;
            assert(cs.take(0).filter(conn_not_in(gone)) =~= Seq::<(ConnectionId, bool)>::empty()) by {
                reveal(Seq::filter);
            }
            while j < self.conns.len()
                invariant
                    cs == self.conns@,
                    gone == once_ids@,
                    j <= cs.len(),
                    kept@ == cs.take(j as int).filter(conn_not_in(gone)),
                decreases cs.len() - j,
            {
                proof {
                    lemma_filter_step(cs, conn_not_in(gone), j as int);
                }
                let c = self.conns[j];
                if !ids_contain(&once_ids, c.0) {
                    kept.push(c);
                }
                j = j + 1;
            }
            assert(cs.take(cs.len() as int) =~= cs);
            self.conns = kept;
        } else {
            assert(cs.filter(conn_not_in(gone)) =~= cs) by {
                lemma_filter_keeps_all(cs, conn_not_in(gone));
            }
        }
        calls
    }

    /// Number of connections.
    pub fn connection_count(&self) -> (n: usize)
        ensures
            n == self.spec_conns().len(),
    {
        self.conns.len()
    }

    /// Whether there is any connection.
    pub fn is_connected(&self) -> (b: bool)
        ensures
            b == (self.spec_conns().len() > 0),
    {
        self.conns.len() > 0
    }

    /// Removes every connection.
    pub fn disconnect_all(&mut self)
        ensures
            final(self).spec_conns() == Seq::<(ConnectionId, bool)>::empty(),
    {
        self.conns = Vec::new();
    }
}

impl Default for SignalConnections {
    fn default() -> (s: SignalConnections)
        ensures
            s.spec_conns() == Seq::<(ConnectionId, bool)>::empty(),
    {
        SignalConnections::new()
    }
}

/// A one-shot connection fires once: after an emit, no connection carries
/// the id of a one-shot connection that was there before.
pub proof fn law_one_shot_fires_once(cs: Seq<(ConnectionId, bool)>, i: int)
    requires
        0 <= i < cs.len(),
        cs[i].1,
    ensures
        forall|k: int| 0 <= k < cs.filter(conn_not_in(conn_ids(cs.filter(conn_once())))).len()
            ==> #[trigger] cs.filter(conn_not_in(conn_ids(cs.filter(conn_once()))))[k].0 != cs[i].0,
{
    let once = cs.filter(conn_once());
    cs.lemma_filter_contains(conn_once(), i);
    let j = choose|j: int| 0 <= j < once.len() && once[j] == cs[i];
    assert(conn_ids(once)[j] == cs[i].0);
    assert(conn_ids(once).contains(cs[i].0));
    let kept = cs.filter(conn_not_in(conn_ids(once)));
    assert forall|k: int| 0 <= k < kept.len() implies #[trigger] kept[k].0 != cs[i].0 by {
        cs.lemma_filter_pred(conn_not_in(conn_ids(once)), k);
    }
}

/// A filter that keeps every element keeps the sequence.
proof fn lemma_filter_keeps_all<A>(s: Seq<A>, p: spec_fn(A) -> bool)
    requires
        forall|i: int| 0 <= i < s.len() ==> p(#[trigger] s[i]),
    ensures
        s.filter(p) == s,
    decreases s.len(),
{
    reveal(Seq::filter);
    if s.len() > 0 {
        let init = s.drop_last();
        assert forall|i: int| 0 <= i < init.len() implies p(#[trigger] init[i]) by {
            assert(init[i] == s[i]);
        }
        lemma_filter_keeps_all(init, p);
        assert(p(s[s.len() - 1]));
        assert(init.push(s.last()) =~= s);
    } else {
        assert(s.filter(p) =~= s);
    }
}

/// Whether `id` occurs in `ids`.
fn ids_contain(ids: &Vec<ConnectionId>, id: ConnectionId) -> (r: bool)
    ensures
        r == ids@.contains(id),
{
    let mut i: usize = 0;
    while i < ids.len()
        invariant
            i <= ids@.len(),
            forall|j: int| 0 <= j < i ==> ids@[j] != id,
        decreases ids@.len() - i,
    {
        if ids[i] == id {
            assert(ids@[i as int] == id);
            return true;
        }
        i = i + 1;
    }
    false
}

// ── Named signals ──────────────────────────────────────────────────────────

/// The map of an association list (a later entry wins; the names of a bus
/// are distinct).
pub open spec fn assoc_map(s: Seq<(Seq<char>, Seq<ConnectionId>)>) -> Map<Seq<char>, Seq<ConnectionId>>
    decreases s.len(),
{
    if s.len() == 0 {
        Map::empty()
    } else {
        assoc_map(s.drop_last()).insert(s.last().0, s.last().1)
    }
}

/// The names of an association list.
pub open spec fn assoc_keys(s: Seq<(Seq<char>, Seq<ConnectionId>)>) -> Seq<Seq<char>> {
    s.map_values(|e: (Seq<char>, Seq<ConnectionId>)| e.0)
}

proof fn lemma_assoc_map(s: Seq<(Seq<char>, Seq<ConnectionId>)>)
    requires
        assoc_keys(s).no_duplicates(),
    ensures
        forall|i: int| 0 <= i < s.len() ==> #[trigger] assoc_map(s).contains_key(s[i].0) && assoc_map(s)[s[i].0] == s[i].1,
        forall|k: Seq<char>| assoc_map(s).contains_key(k) <==> assoc_keys(s).contains(k),
    decreases s.len(),
{
    if s.len() > 0 {
        let init = s.drop_last();
        assert(assoc_keys(init) =~= assoc_keys(s).drop_last());
        assert forall|a: int, b: int| 0 <= a < b < assoc_keys(init).len() implies assoc_keys(init)[a] != assoc_keys(init)[b] by {
            assert(assoc_keys(s)[a] == assoc_keys(init)[a] && assoc_keys(s)[b] == assoc_keys(init)[b]);
        }
        lemma_assoc_map(init);
        assert forall|i: int| 0 <= i < s.len() implies #[trigger] assoc_map(s).contains_key(s[i].0) && assoc_map(s)[s[i].0] == s[i].1 by {
            if i < s.len() - 1 {
                assert(s[i] == init[i]);
                assert(assoc_keys(s)[i] != assoc_keys(s)[s.len() - 1]);
                assert(assoc_map(init).contains_key(init[i].0));
            }
        }
        assert forall|k: Seq<char>| assoc_map(s).contains_key(k) <==> assoc_keys(s).contains(k) by {
            if assoc_keys(init).contains(k) {
                let j = choose|j: int| 0 <= j < assoc_keys(init).len() && assoc_keys(init)[j] == k;
                assert(assoc_keys(s)[j] == k);
            }
            if k == s.last().0 {
                assert(assoc_keys(s)[s.len() - 1] == k);
            }
            if assoc_keys(s).contains(k) && k != s.last().0 {
                let j = choose|j: int| 0 <= j < assoc_keys(s).len() && assoc_keys(s)[j] == k;
                assert(assoc_keys(init)[j] == k);
            }
        }
    }
}

proof fn lemma_assoc_update(s: Seq<(Seq<char>, Seq<ConnectionId>)>, i: int, v: Seq<ConnectionId>)
    requires
        assoc_keys(s).no_duplicates(),
        0 <= i < s.len(),
    ensures
        assoc_map(s.update(i, (s[i].0, v))) == assoc_map(s).insert(s[i].0, v),
        assoc_keys(s.update(i, (s[i].0, v))) == assoc_keys(s),
    decreases s.len(),
{
    let t = s.update(i, (s[i].0, v));
    assert(assoc_keys(t) =~= assoc_keys(s));
    let init = s.drop_last();
    if i == s.len() - 1 {
        assert(t.drop_last() =~= init);
        assert(assoc_map(t) =~= assoc_map(s).insert(s[i].0, v));
    } else {
        assert(assoc_keys(init) =~= assoc_keys(s).drop_last());
        assert forall|a: int, b: int| 0 <= a < b < assoc_keys(init).len() implies assoc_keys(init)[a] != assoc_keys(init)[b] by {
            assert(assoc_keys(s)[a] == assoc_keys(init)[a] && assoc_keys(s)[b] == assoc_keys(init)[b]);
        }
        lemma_assoc_update(init, i, v);
        assert(t.drop_last() =~= init.update(i, (s[i].0, v)));
        assert(t.last() == s.last());
        assert(assoc_keys(s)[i] != assoc_keys(s)[s.len() - 1]);
        assert(assoc_map(t) =~= assoc_map(s).insert(s[i].0, v));
    }
}

proof fn lemma_assoc_remove(s: Seq<(Seq<char>, Seq<ConnectionId>)>, i: int)
    requires
        assoc_keys(s).no_duplicates(),
        0 <= i < s.len(),
    ensures
        assoc_map(s.remove(i)) == assoc_map(s).remove(s[i].0),
        assoc_keys(s.remove(i)).no_duplicates(),
{
    let t = s.remove(i);
    s.remove_ensures(i);
    lemma_assoc_map(s);
    assert(assoc_keys(t) =~= assoc_keys(s).remove(i));
    assert forall|a: int, b: int| 0 <= a < b < assoc_keys(t).len() implies assoc_keys(t)[a] != assoc_keys(t)[b] by {
        let a2 = if a < i { a } else { a + 1 };
        let b2 = if b < i { b } else { b + 1 };
        assert(assoc_keys(t)[a] == assoc_keys(s)[a2]);
        assert(assoc_keys(t)[b] == assoc_keys(s)[b2]);
    }
    lemma_assoc_map(t);
    assert forall|k: Seq<char>| #[trigger] assoc_map(t).contains_key(k) == assoc_map(s).remove(s[i].0).contains_key(k) by {
        if assoc_keys(t).contains(k) {
            let j = choose|j: int| 0 <= j < assoc_keys(t).len() && assoc_keys(t)[j] == k;
            let j2 = if j < i { j } else { j + 1 };
            assert(assoc_keys(s)[j2] == k);
            assert(j2 != i);
            assert(assoc_keys(s)[j2] != assoc_keys(s)[i]);
        }
        if assoc_keys(s).contains(k) && k != s[i].0 {
            let j = choose|j: int| 0 <= j < assoc_keys(s).len() && assoc_keys(s)[j] == k;
            assert(j != i);
            let j2 = if j < i { j } else { j - 1 };
            assert(assoc_keys(t)[j2] == k);
        }
    }
    assert forall|k: Seq<char>| #[trigger] assoc_map(t).contains_key(k) implies assoc_map(t)[k] == assoc_map(s)[k] by {
        assert(assoc_map(s).remove(s[i].0).contains_key(k));
        assert(assoc_keys(s).contains(k));
        let j2 = choose|j2: int| 0 <= j2 < assoc_keys(s).len() && assoc_keys(s)[j2] == k;
        assert(s[j2].0 == k);
        assert(j2 != i);
        let j = if j2 < i { j2 } else { j2 - 1 };
        assert(t[j] == s[j2]);
        assert(assoc_map(t).contains_key(t[j].0) && assoc_map(t)[t[j].0] == t[j].1);
        assert(assoc_map(s).contains_key(s[j2].0) && assoc_map(s)[s[j2].0] == s[j2].1);
    }
    assert(assoc_map(t) =~= assoc_map(s).remove(s[i].0));
}

/// The characters of each string.
pub open spec fn string_views(v: Seq<String>) -> Seq<Seq<char>> {
    v.map_values(|s: String| s@)
}

/// Named signals: for each signal name, the connection ids in connection
/// order.
#[derive(Debug)]
pub struct SignalBusConnections {
    signals: Vec<(String, Vec<ConnectionId>)>,
}

impl SignalBusConnections {
    /// The entries as plain values, in the order the names were first used.
    pub closed spec fn spec_entries(&self) -> Seq<(Seq<char>, Seq<ConnectionId>)> {
        self.signals@.map_values(|e: (String, Vec<ConnectionId>)| (e.0@, e.1@))
    }

    /// The connection ids of each signal name.
    pub closed spec fn spec_map(&self) -> Map<Seq<char>, Seq<ConnectionId>> {
        assoc_map(self.spec_entries())
    }

    /// Names are distinct.
    pub closed spec fn wf(&self) -> bool {
        assoc_keys(self.spec_entries()).no_duplicates()
    }

    /// No signals.
    pub fn new() -> (b: SignalBusConnections)
        ensures
            b.wf(),
            b.spec_map() == Map::<Seq<char>, Seq<ConnectionId>>::empty(),
    {
        let b = SignalBusConnections { signals: Vec::new() };
        assert(b.spec_entries() =~= Seq::<(Seq<char>, Seq<ConnectionId>)>::empty());
        assert(assoc_keys(b.spec_entries()) =~= Seq::<Seq<char>>::empty());
        b
    }

    /// Position of the entry of `signal`.
    fn find(&self, signal: &str) -> (r: Option<usize>)
        requires
            self.wf(),
        ensures
            match r {
                Some(i) => i < self.signals@.len() && self.spec_entries()[i as int].0 == signal@,
                None => !self.spec_map().contains_key(signal@),
            },
    {
        proof {
            lemma_assoc_map(self.spec_entries());
        }
        let mut i: usize = 0;
        while i < self.signals.len()
            invariant
                i <= self.signals@.len(),
                forall|j: int| 0 <= j < i ==> self.spec_entries()[j].0 != signal@,
            decreases self.signals@.len() - i,
        {
            if str_eq(self.signals[i].0.as_str(), signal) {
                return Some(i);
            }
            i = i + 1;
        }
        proof {
            if assoc_keys(self.spec_entries()).contains(signal@) {
                let j = choose|j: int| 0 <= j < assoc_keys(self.spec_entries()).len() && assoc_keys(self.spec_entries())[j] == signal@;
                assert(self.spec_entries()[j].0 == signal@);
            }
        }
        None
    }

    /// Appends the connection `id` to `signal`, adding the name when new.
    pub fn connect_with_id(&mut self, signal: &str, id: ConnectionId)
        requires
            old(self).wf(),
        ensures
            final(self).wf(),
            final(self).spec_map() == old(self).spec_map().insert(signal@,
                if old(self).spec_map().contains_key(signal@) {
                    old(self).spec_map()[signal@].push(id)
                } else {
                    seq![id]
                }),
    {
        let ghost es = self.spec_entries();
        proof {
            lemma_assoc_map(es);
        }
        match self.find(signal) {
            Some(i) => {
                let ghost old_v = es[i as int].1;
                self.signals[i].1.push(id);
                proof {
                    assert(self.spec_entries() =~= es.update(i as int, (es[i as int].0, old_v.push(id))));
                    lemma_assoc_update(es, i as int, old_v.push(id));
                }
            },
            None => {
                let mut v: Vec<ConnectionId> = Vec::new();
                v.push(id);
                self.signals.push((owned(signal), v));
                proof {
                    assert(self.spec_entries() =~= es.push((signal@, seq![id])));
                    assert(self.spec_entries().drop_last() =~= es);
                    assert(assoc_keys(self.spec_entries()) =~= assoc_keys(es).push(signal@));
                    assert forall|a: int, b: int| 0 <= a < b < assoc_keys(self.spec_entries()).len()
                        implies assoc_keys(self.spec_entries())[a] != assoc_keys(self.spec_entries())[b] by {
                        if b == es.len() {
                            assert(assoc_keys(es).contains(assoc_keys(es)[a]));
                        }
                    }
                }
            },
        }
    }

    /// Connects `signal` under a fresh random id and returns the id.
    pub fn connect(&mut self, signal: &str) -> (id: ConnectionId)
        requires
            old(self).wf(),
        ensures
            final(self).wf(),
            id.0 != 0,
            final(self).spec_map() == old(self).spec_map().insert(signal@,
                if old(self).spec_map().contains_key(signal@) {
                    old(self).spec_map()[signal@].push(id)
                } else {
                    seq![id]
                }),
    {
        let id = ConnectionId::new();
        self.connect_with_id(signal, id);
        id
    }

    /// Removes the connection `id` from `signal` (the name stays, possibly
    /// with no connection).
    pub fn disconnect(&mut self, signal: &str, id: ConnectionId)
        requires
            old(self).wf(),
        ensures
            final(self).wf(),
            final(self).spec_map() == (if old(self).spec_map().contains_key(signal@) {
                old(self).spec_map().insert(signal@, old(self).spec_map()[signal@].filter(|c: ConnectionId| c != id))
            } else {
                old(self).spec_map()
            }),
    {
        let ghost es = self.spec_entries();
        proof {
            lemma_assoc_map(es);
        }
        match self.find(signal) {
            Some(i) => {
                let ghost cs = es[i as int].1;
                let mut kept: Vec<ConnectionId> = Vec::new();
                let mut j: usize = 0;
                assert(self.signals@[i as int].1@ == cs);
                assert(cs.take(0).filter(|c: ConnectionId| c != id) =~= Seq::<ConnectionId>::empty()) by {
                    reveal(Seq::filter);
                }
                while j < self.signals[i].1.len()
                    invariant
                        i < self.signals@.len(),
                        cs == self.signals@[i as int].1@,
                        j <= cs.len(),
                        kept@ == cs.take(j as int).filter(|c: ConnectionId| c != id),
                    decreases cs.len() - j,
                {
                    proof {
                        lemma_filter_step(cs, |c: ConnectionId| c != id, j as int);
                    }
                    let c = self.signals[i].1[j];
                    if c != id {
                        kept.push(c);
                    }
                    j = j + 1;
                }
                assert(cs.take(cs.len() as int) =~= cs);
                let ghost kv = kept@;
                self.signals[i].1 = kept;
                proof {
                    assert(self.spec_entries() =~= es.update(i as int, (es[i as int].0, kv)));
                    lemma_assoc_update(es, i as int, kv);
                }
            },
            None => {},
        }
    }

    /// Removes `signal` and all its connections.
    pub fn disconnect_all(&mut self, signal: &str)
        requires
            old(self).wf(),
        ensures
            final(self).wf(),
            final(self).spec_map() == old(self).spec_map().remove(signal@),
    {
        let ghost es = self.spec_entries();
        match self.find(signal) {
            Some(i) => {
                let _gone = self.signals.remove(i);
                proof {
                    assert(self.spec_entries() =~= es.remove(i as int));
                    lemma_assoc_remove(es, i as int);
                }
            },
            None => {
                assert(self.spec_map() =~= old(self).spec_map().remove(signal@));
            },
        }
    }

    /// The connection ids to call when `signal` is emitted, in connection
    /// order (none for an unknown name).
    pub fn emit(&self, signal: &str) -> (calls: Vec<ConnectionId>)
        requires
            self.wf(),
        ensures
            calls@ == (if self.spec_map().contains_key(signal@) {
                self.spec_map()[signal@]
            } else {
                Seq::<ConnectionId>::empty()
            }),
    {
        proof {
            lemma_assoc_map(self.spec_entries());
        }
        match self.find(signal) {
            Some(i) => {
                let mut calls: Vec<ConnectionId> = Vec::new();
                let mut j: usize = 0;
                while j < self.signals[i].1.len()
                    invariant
                        i < self.signals@.len(),
                        j <= self.signals@[i as int].1@.len(),
                        calls@ == self.signals@[i as int].1@.take(j as int),
                    decreases self.signals@[i as int].1@.len() - j,
                {
                    calls.push(self.signals[i].1[j]);
                    assert(calls@ =~= self.signals@[i as int].1@.take(j + 1));
                    j = j + 1;
                }
                assert(calls@ =~= self.signals@[i as int].1@);
                calls
            },
            None => Vec::new(),
        }
    }

    /// Whether `signal` has any connection.
    pub fn has_connections(&self, signal: &str) -> (b: bool)
        requires
            self.wf(),
        ensures
            b == (self.spec_map().contains_key(signal@) && self.spec_map()[signal@].len() > 0),
    {
        proof {
            lemma_assoc_map(self.spec_entries());
        }
        match self.find(signal) {
            Some(i) => {
                assert(self.spec_map().contains_key(self.spec_entries()[i as int].0));
                assert(self.spec_entries()[i as int].1 == self.signals@[i as int].1@);
                self.signals[i].1.len() > 0
            },
            None => false,
        }
    }

    /// The names of the signals, each once (in no promised order).
    pub fn signal_names(&self) -> (names: Vec<String>)
        requires
            self.wf(),
        ensures
            string_views(names@).to_set() == self.spec_map().dom(),
            string_views(names@).no_duplicates(),
    {
        proof {
            lemma_assoc_map(self.spec_entries());
        }
        let mut names: Vec<String> = Vec::new();
        let mut i: usize = 0;
        while i < self.signals.len()
            invariant
                i <= self.signals@.len(),
                names@.len() == i,
                string_views(names@) == assoc_keys(self.spec_entries()).take(i as int),
            decreases self.signals@.len() - i,
        {
            let ghost before = names@;
            let name = self.signals[i].0.clone();
            assert(name@ == self.spec_entries()[i as int].0);
            names.push(name);
            assert(names@ == before.push(name));
            let ghost ks = assoc_keys(self.spec_entries());
            assert forall|k: int| 0 <= k < i + 1 implies #[trigger] string_views(names@)[k] == ks.take(i + 1)[k] by {
                if k < i {
                    assert(names@[k] == before[k]);
                    assert(string_views(before)[k] == ks.take(i as int)[k]);
                } else {
                    assert(names@[k] == name);
                    assert(ks[k] == self.spec_entries()[k].0);
                }
            }
            assert(string_views(names@) =~= ks.take(i + 1));
            i = i + 1;
        }
        let ghost ks = assoc_keys(self.spec_entries());
        assert(ks.take(ks.len() as int) =~= ks);
        assert(ks.to_set() =~= self.spec_map().dom());
        names
    }
}

impl Default for SignalBusConnections {
    fn default() -> (b: SignalBusConnections)
        ensures
            b.wf(),
            b.spec_map() == Map::<Seq<char>, Seq<ConnectionId>>::empty(),
    {
        SignalBusConnections::new()
    }
}

} // verus!
