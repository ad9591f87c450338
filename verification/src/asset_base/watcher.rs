//! Asset change watcher for hot reloading: a queue of change events.
use vstd::prelude::*;

verus! {

/// Kind of change to an asset file.
#[derive(Debug, Clone, Copy, PartialEq, Eq, Structural)]
pub enum ChangeKind {
    Created,
    Modified,
    Deleted,
    Renamed,
}

/// A change to an asset file.
#[derive(Debug)]
pub struct AssetChangedEvent {
    pub path: String,
    pub kind: ChangeKind,
}

impl Clone for AssetChangedEvent {
    fn clone(&self) -> (r: Self)
        ensures
            r == *self,
    {
        AssetChangedEvent { path: self.path.clone(), kind: self.kind }
    }
}

/// Collects change events until they are polled, first in first out.
pub struct AssetWatcher {
    pending: Vec<AssetChangedEvent>,
}

impl AssetWatcher {
    /// Events sent and not yet polled, oldest first.
    pub closed spec fn spec_pending(&self) -> Seq<AssetChangedEvent> {
        self.pending@
    }

    pub fn new() -> (w: AssetWatcher)
        ensures
            w.spec_pending() == Seq::<AssetChangedEvent>::empty(),
    {
        AssetWatcher { pending: Vec::new() }
    }

    /// Takes every pending event, oldest first; none remain afterwards.
    pub fn poll_events(&mut self) -> (events: Vec<AssetChangedEvent>)
        ensures
            events@ == old(self).spec_pending(),
            final(self).spec_pending() == Seq::<AssetChangedEvent>::empty(),
    {
        let mut events = Vec::new();
        std::mem::swap(&mut events, &mut self.pending);
        events
    }

    /// Queues an event for the next poll.
    pub fn send_event(&mut self, event: AssetChangedEvent)
        ensures
            final(self).spec_pending() == old(self).spec_pending().push(event),
    {
        self.pending.push(event);
    }
}

impl Default for AssetWatcher {
    fn default() -> (w: Self)
        ensures
            w.spec_pending() == Seq::<AssetChangedEvent>::empty(),
    {
        AssetWatcher::new()
    }
}

/// The pending events after sending each of `es`, in order, onto `pending`
/// (each send appends one event, as `send_event` does).
pub open spec fn after_sends(pending: Seq<AssetChangedEvent>, es: Seq<AssetChangedEvent>) -> Seq<AssetChangedEvent>
    decreases es.len(),
{
    if es.len() == 0 {
        pending
    } else {
        after_sends(pending.push(es[0]), es.drop_first())
    }
}

/// Sending events one by one appends them all, in order: whatever was
/// pending, followed by every sent event, none lost or repeated.
pub proof fn lemma_after_sends(pending: Seq<AssetChangedEvent>, es: Seq<AssetChangedEvent>)
    ensures
        after_sends(pending, es) == pending + es,
    decreases es.len(),
{
    if es.len() > 0 {
        lemma_after_sends(pending.push(es[0]), es.drop_first());
        assert(pending.push(es[0]) + es.drop_first() =~= pending + es);
    }
}

/// A poll returns every event sent since the last poll, in the order they
/// were sent: starting from an empty queue (a new or just-polled watcher),
/// sending `es` one by one leaves exactly `es` pending.
pub proof fn law_events_polled_in_order(es: Seq<AssetChangedEvent>)
    ensures
        after_sends(Seq::<AssetChangedEvent>::empty(), es) == es,
{
    lemma_after_sends(Seq::<AssetChangedEvent>::empty(), es);
    assert(Seq::<AssetChangedEvent>::empty() + es =~= es);
}

} // verus!
