//! Layout vocabulary of the editor's user interface, and its status bar.
//! Colors are floating point and stay with the caller: status bar items are
//! generic over the color type they carry.
use vstd::prelude::*;
use crate::text::{owned, str_eq};

verus! {

/// Main axis of a flex layout.
#[derive(Debug, Clone, Copy, PartialEq, Eq, Structural)]
pub enum FlexDirection {
    Row,
    Column,
    RowReverse,
    ColumnReverse,
}

/// Alignment of items along an axis.
#[derive(Debug, Clone, Copy, PartialEq, Eq, Structural)]
pub enum Align {
    Start,
    Center,
    End,
    Stretch,
    SpaceBetween,
    SpaceAround,
}

/// What happens to text that does not fit.
#[derive(Debug, Clone, Copy, PartialEq, Eq, Structural)]
pub enum TextOverflow {
    Clip,
    Ellipsis,
    Wrap,
}


/// An item of the status bar: an id, a text, an optional tooltip and color,
/// on the left or the right.
#[derive(Debug)]
pub struct StatusBarItem<C> {
    pub id: String,
    pub text: String,
    pub tooltip: Option<String>,
    pub color: Option<C>,
    pub align_right: bool,
}

impl<C> StatusBarItem<C> {
    /// An item on the left.
    pub fn left(id: &str, text: &str) -> (item: StatusBarItem<C>)
        ensures
            item.id@ == id@,
            item.text@ == text@,
            item.tooltip is None,
            item.color is None,
            !item.align_right,
    {
        StatusBarItem { id: owned(id), text: owned(text), tooltip: None, color: None, align_right: false }
    }

    /// An item on the right.
    pub fn right(id: &str, text: &str) -> (item: StatusBarItem<C>)
        ensures
            item.id@ == id@,
            item.text@ == text@,
            item.tooltip is None,
            item.color is None,
            item.align_right,
    {
        StatusBarItem { id: owned(id), text: owned(text), tooltip: None, color: None, align_right: true }
    }

    /// The item with a tooltip.
    pub fn with_tooltip(self, tooltip: &str) -> (item: StatusBarItem<C>)
        ensures
            item.tooltip matches Some(t) && t@ == tooltip@,
            item.id == self.id,
            item.text == self.text,
            item.color == self.color,
            item.align_right == self.align_right,
    {
        let mut item = self;
        item.tooltip = Some(owned(tooltip));
        item
    }

    /// The item with a color.
    pub fn with_color(self, color: C) -> (item: StatusBarItem<C>)
        ensures
            item.color == Some(color),
            item.id == self.id,
            item.text == self.text,
            item.tooltip == self.tooltip,
            item.align_right == self.align_right,
    {
        let mut item = self;
        item.color = Some(color);
        item
    }
}

/// `b` is `a` with the text `text`.
pub open spec fn with_text<C>(a: StatusBarItem<C>, b: StatusBarItem<C>, text: Seq<char>) -> bool {
    &&& b.text@ == text
    &&& b.id == a.id
    &&& b.tooltip == a.tooltip
    &&& b.color == a.color
    &&& b.align_right == a.align_right
}

/// Position of the first item of id `id`.
pub open spec fn first_item_with<C>(items: Seq<StatusBarItem<C>>, id: Seq<char>) -> Option<int>
    decreases items.len(),
{
    if items.len() == 0 {
        None
    } else if items[0].id@ == id {
        Some(0)
    } else {
        match first_item_with(items.drop_first(), id) {
            Some(k) => Some(k + 1),
            None => None,
        }
    }
}

/// Whether an item sits on the right.
pub open spec fn on_right<C>() -> spec_fn(StatusBarItem<C>) -> bool {
    |i: StatusBarItem<C>| i.align_right
}

/// Whether an item sits on the left.
pub open spec fn on_left<C>() -> spec_fn(StatusBarItem<C>) -> bool {
    |i: StatusBarItem<C>| !i.align_right
}

/// The items referred to.
pub open spec fn item_refs<C>(v: Seq<&StatusBarItem<C>>) -> Seq<StatusBarItem<C>> {
    v.map_values(|i: &StatusBarItem<C>| *i)
}

proof fn lemma_first_item_at<C>(items: Seq<StatusBarItem<C>>, id: Seq<char>, k: int)
    requires
        0 <= k < items.len(),
        items[k].id@ == id,
        forall|j: int| 0 <= j < k ==> items[j].id@ != id,
    ensures
        first_item_with(items, id) == Some(k),
    decreases k,
{
    if k > 0 {
        let t = items.drop_first();
        assert forall|j: int| 0 <= j < k - 1 implies t[j].id@ != id by {
            assert(t[j] == items[j + 1]);
        }
        lemma_first_item_at(t, id, k - 1);
    }
}

proof fn lemma_first_item_absent<C>(items: Seq<StatusBarItem<C>>, id: Seq<char>)
    requires
        forall|j: int| 0 <= j < items.len() ==> items[j].id@ != id,
    ensures
        first_item_with(items, id) is None,
    decreases items.len(),
{
    if items.len() > 0 {
        let t = items.drop_first();
        assert forall|j: int| 0 <= j < t.len() implies t[j].id@ != id by {
            assert(t[j] == items[j + 1]);
        }
        lemma_first_item_absent(t, id);
    }
}

proof fn lemma_filter_one_more<A>(s: Seq<A>, p: spec_fn(A) -> bool, k: int)
    requires
        0 <= k < s.len(),
    ensures
        s.take(k + 1).filter(p) == (if p(s[k]) {
            s.take(k).filter(p).push(s[k])
        } else {
            s.take(k).filter(p)
        }),
{
    reveal(Seq::filter);
    assert(s.take(k + 1).drop_last() =~= s.take(k));
    assert(s.take(k + 1).last() == s[k]);
}

/// The editor's status bar.
#[derive(Debug)]
pub struct StatusBar<C> {
    items: Vec<StatusBarItem<C>>,
}

impl<C> StatusBar<C> {
    /// The items, in order.
    pub closed spec fn spec_items(&self) -> Seq<StatusBarItem<C>> {
        self.items@
    }

    /// The engine version and the project name on the left, frame rate and
    /// memory on the right.
    pub fn new() -> (bar: StatusBar<C>)
        ensures
            bar.spec_items().len() == 4,
            bar.spec_items()[0].id@ == "engine"@ && bar.spec_items()[0].text@ == "Ummerse v0.1.0"@ && !bar.spec_items()[0].align_right,
            bar.spec_items()[1].id@ == "project"@ && bar.spec_items()[1].text@ == "No Project"@ && !bar.spec_items()[1].align_right,
            bar.spec_items()[2].id@ == "fps"@ && bar.spec_items()[2].text@ == "-- FPS"@ && bar.spec_items()[2].align_right,
            bar.spec_items()[3].id@ == "memory"@ && bar.spec_items()[3].text@ == "-- MB"@ && bar.spec_items()[3].align_right,
            forall|i: int| 0 <= i < 4 ==> (#[trigger] bar.spec_items()[i]).tooltip is None && bar.spec_items()[i].color is None,
    {
        let mut items: Vec<StatusBarItem<C>> = Vec::new();
        items.push(StatusBarItem::left("engine", "Ummerse v0.1.0"));
        items.push(StatusBarItem::left("project", "No Project"));
        items.push(StatusBarItem::right("fps", "-- FPS"));
        items.push(StatusBarItem::right("memory", "-- MB"));
        StatusBar { items }
    }

    /// Sets the text of the first item of id `id`, if any.
    pub fn set_item(&mut self, id: &str, text: &str)
        ensures
            final(self).spec_items().len() == old(self).spec_items().len(),
            match first_item_with(old(self).spec_items(), id@) {
                Some(k) => with_text(old(self).spec_items()[k], final(self).spec_items()[k], text@)
                    && forall|j: int| 0 <= j < old(self).spec_items().len() && j != k
                        ==> #[trigger] final(self).spec_items()[j] == old(self).spec_items()[j],
                None => final(self).spec_items() == old(self).spec_items(),
            },
    {
        let mut i: usize = 0;
        while i < self.items.len()
            invariant
                i <= self.items@.len(),
                self.items@ == old(self).items@,
                forall|j: int| 0 <= j < i ==> self.items@[j].id@ != id@,
            decreases self.items@.len() - i,
        {
            if str_eq(self.items[i].id.as_str(), id) {
                proof {
                    lemma_first_item_at(self.items@, id@, i as int);
                }
                self.items[i].text = owned(text);
                return;
            }
            i = i + 1;
        }
        proof {
            lemma_first_item_absent(self.items@, id@);
        }
    }

    /// The items on the left, in order.
    pub fn left_items(&self) -> (v: Vec<&StatusBarItem<C>>)
        ensures
            item_refs(v@) == self.spec_items().filter(on_left::<C>()),
    {
        let mut v: Vec<&StatusBarItem<C>> = Vec::new();
        let mut i: usize = 0;
        assert(self.items@.take(0).filter(on_left::<C>()) =~= Seq::<StatusBarItem<C>>::empty()) by {
            reveal(Seq::filter);
        }
        while i < self.items.len()
            invariant
                i <= self.items@.len(),
                item_refs(v@) == self.items@.take(i as int).filter(on_left::<C>()),
            decreases self.items@.len() - i,
        {
            proof {
                lemma_filter_one_more(self.items@, on_left::<C>(), i as int);
            }
            let ghost before = v@;
            if !self.items[i].align_right {
                v.push(&self.items[i]);
                assert(item_refs(v@) =~= item_refs(before).push(self.items@[i as int]));
            }
            i = i + 1;
        }
        assert(self.items@.take(self.items@.len() as int) =~= self.items@);
        v
    }

    /// The items on the right, in order.
    pub fn right_items(&self) -> (v: Vec<&StatusBarItem<C>>)
        ensures
            item_refs(v@) == self.spec_items().filter(on_right::<C>()),
    {
        let mut v: Vec<&StatusBarItem<C>> = Vec::new();
        let mut i: usize = 0;
        assert(self.items@.take(0).filter(on_right::<C>()) =~= Seq::<StatusBarItem<C>>::empty()) by {
            reveal(Seq::filter);
        }
        while i < self.items.len()
            invariant
                i <= self.items@.len(),
                item_refs(v@) == self.items@.take(i as int).filter(on_right::<C>()),
            decreases self.items@.len() - i,
        {
            proof {
                lemma_filter_one_more(self.items@, on_right::<C>(), i as int);
            }
            let ghost before = v@;
            if self.items[i].align_right {
                v.push(&self.items[i]);
                assert(item_refs(v@) =~= item_refs(before).push(self.items@[i as int]));
            }
            i = i + 1;
        }
        assert(self.items@.take(self.items@.len() as int) =~= self.items@);
        v
    }
}

impl<C> Default for StatusBar<C> {
    fn default() -> (bar: StatusBar<C>)
        ensures
            bar.spec_items().len() == 4,
    {
        StatusBar::new()
    }
}

} // verus!
