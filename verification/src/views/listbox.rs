//! A scrollable list of text items with single or multiple selection.
//!
//! One item is focused, and that is the selection. With multi-select on,
//! items can also be marked independently of the focus: Space toggles the
//! focused item's mark, Shift+click marks a run from the last anchor.
use vstd::prelude::*;
use std::collections::BTreeSet;
use crate::draw::{Attr, Cell, DrawBuffer, DrawLine};
use crate::event::{
    has_modifier, Event, EventType, KB_ENTER, KB_SPACE, KM_SHIFT, MB_LEFT_BUTTON, spec_command,
};
use crate::geometry::{clamp_extent, spec_contains, spec_height, spec_width, Rect};
use crate::state::SF_FOCUSED;
use crate::text::string_chars;
use crate::views::list_viewer::{
    clicked_item, focus_item_result, handle_list_event, list_event_state, list_event_used, lv_fits,
    lv_room, nav_result, ListViewerState,
};

verus! {

broadcast use vstd::std_specs::btree::group_btree_axioms, vstd::laws_cmp::group_laws_cmp;

/// The most items a list box holds; keeps every row computation inside a `usize`.
pub const LIST_CAPACITY: usize = 0x7fff_0000;

/// The mark drawn before a marked item.
pub const MARK_ON_CHAR: char = '\u{221A}';

/// Colours of a list box: rows when the list is unfocused or focused, and the
/// focused item's row.
#[derive(Clone, Copy, Debug, PartialEq, Eq, Structural)]
pub struct ListBoxColors {
    pub normal: Attr,
    pub focused: Attr,
    pub selected: Attr,
}

pub struct ListBox {
    bounds: Rect,
    state: u16,
    items: Vec<String>,
    list_state: ListViewerState,
    on_select_command: u16,
    multi_select: bool,
    marked: BTreeSet<usize>,
    anchor: usize,
}

/// The indices from `lo` to `hi`, both included, that lie before `len`.
pub open spec fn index_run(lo: int, hi: int, len: int) -> Set<usize> {
    Set::new(|i: usize| lo <= i <= hi && i < len)
}

/// The marks after a Shift+click on `clicked` with the anchor at `anchor`.
pub open spec fn marks_after_run(marks: Set<usize>, anchor: int, clicked: int, len: int) -> Set<usize> {
    if anchor <= clicked {
        marks.union(index_run(anchor, clicked, len))
    } else {
        marks.union(index_run(clicked, anchor, len))
    }
}

/// Whether a multi-select click on an item happens before the list navigation.
pub open spec fn is_mark_click(lb_multi: bool, s: ListViewerState, bounds: Rect, e: Event, len: int) -> bool {
    &&& lb_multi
    &&& e.what == EventType::MouseDown
    &&& e.mouse.buttons & MB_LEFT_BUTTON != 0
    &&& spec_contains(bounds, e.mouse.pos)
    &&& clicked_item(s, bounds, e.mouse.pos) < len
}

/// Whether `e` is a double click of the left button inside `bounds`.
pub open spec fn is_double_click(bounds: Rect, e: Event) -> bool {
    &&& e.what == EventType::MouseDown
    &&& spec_contains(bounds, e.mouse.pos)
    &&& e.mouse.buttons & MB_LEFT_BUTTON != 0
    &&& e.mouse.double_click
}

impl ListBox {
    pub closed spec fn spec_bounds(&self) -> Rect {
        self.bounds
    }

    pub closed spec fn spec_state(&self) -> u16 {
        self.state
    }

    /// The items, as text.
    pub closed spec fn spec_items(&self) -> Seq<Seq<char>> {
        self.items@.map_values(|s: String| s@)
    }

    pub closed spec fn spec_list(&self) -> ListViewerState {
        self.list_state
    }

    pub closed spec fn spec_command(&self) -> u16 {
        self.on_select_command
    }

    pub closed spec fn spec_multi(&self) -> bool {
        self.multi_select
    }

    pub closed spec fn spec_marked(&self) -> Set<usize> {
        self.marked@
    }

    pub closed spec fn spec_anchor(&self) -> usize {
        self.anchor
    }

    /// The list state covers exactly the items, every mark names an item, and
    /// the number of items stays under the capacity.
    pub closed spec fn wf(&self) -> bool {
        &&& (self.list_state.focused is Some <==> self.list_state.range > 0)
        &&& (self.list_state.focused matches Some(f) ==> f < self.list_state.range)
        &&& self.list_state.top_item <= LIST_CAPACITY
        &&& self.list_state.range == self.items@.len()
        &&& self.items@.len() <= LIST_CAPACITY
        &&& forall|i: usize| self.marked@.contains(i) ==> i < self.items@.len()
        &&& (self.anchor < self.items@.len() || self.anchor == 0)
    }

    /// The number of visible rows.
    pub open spec fn spec_rows(&self) -> int {
        clamp_extent(spec_height(self.spec_bounds()))
    }

    /// An empty list drawn in `bounds` that reports `on_select_command` when an item is chosen.
    pub fn new(bounds: Rect, on_select_command: u16) -> (lb: Self)
        ensures
            lb.wf(),
            lb.spec_bounds() == bounds,
            lb.spec_state() == 0,
            lb.spec_items() == Seq::<Seq<char>>::empty(),
            lb.spec_list() == ListViewerState::spec_new(),
            lb.spec_command() == on_select_command,
            !lb.spec_multi(),
            lb.spec_marked() == Set::<usize>::empty(),
            lb.spec_anchor() == 0,
    {
        let lb = ListBox {
            bounds,
            state: 0,
            items: Vec::new(),
            list_state: ListViewerState::new(),
            on_select_command,
            multi_select: false,
            marked: BTreeSet::new(),
            anchor: 0,
        };
        assert(lb.spec_items() =~= Seq::<Seq<char>>::empty());
        lb
    }

    pub fn bounds(&self) -> (r: Rect)
        ensures
            r == self.spec_bounds(),
    {
        self.bounds
    }

    pub fn set_bounds(&mut self, bounds: Rect)
        requires
            old(self).wf(),
        ensures
            final(self).wf(),
            final(self).spec_bounds() == bounds,
            final(self).spec_items() == old(self).spec_items(),
            final(self).spec_list() == old(self).spec_list(),
            final(self).spec_marked() == old(self).spec_marked(),
    {
        self.bounds = bounds;
    }

    pub fn state(&self) -> (s: u16)
        ensures
            s == self.spec_state(),
    {
        self.state
    }

    pub fn set_state(&mut self, state: u16)
        requires
            old(self).wf(),
        ensures
            final(self).wf(),
            final(self).spec_state() == state,
            final(self).spec_bounds() == old(self).spec_bounds(),
            final(self).spec_items() == old(self).spec_items(),
            final(self).spec_list() == old(self).spec_list(),
            final(self).spec_command() == old(self).spec_command(),
            final(self).spec_multi() == old(self).spec_multi(),
            final(self).spec_marked() == old(self).spec_marked(),
            final(self).spec_anchor() == old(self).spec_anchor(),
    {
        self.state = state;
    }

    /// Whether the list has the input focus.
    pub fn is_focused(&self) -> (b: bool)
        ensures
            b == (self.spec_state() & SF_FOCUSED != 0),
    {
        self.state & SF_FOCUSED != 0
    }

    /// Replace the items. Marks are dropped, since their indices named the old items.
    pub fn set_items(&mut self, items: Vec<String>)
        requires
            old(self).wf(),
            items@.len() <= LIST_CAPACITY,
        ensures
            final(self).wf(),
            final(self).spec_items() == items@.map_values(|s: String| s@),
            final(self).spec_list() == (ListViewerState {
                range: items@.len() as usize,
                focused: match old(self).spec_list().focused {
                    Some(f) => if f >= items@.len() {
                        if items@.len() > 0 { Some((items@.len() - 1) as usize) } else { None }
                    } else {
                        Some(f)
                    },
                    None => if items@.len() > 0 { Some(0usize) } else { None },
                },
                top_item: if old(self).spec_list().top_item >= items@.len() && items@.len() > 0 {
                    (items@.len() - 1) as usize
                } else {
                    old(self).spec_list().top_item
                },
                ..old(self).spec_list()
            }),
            final(self).spec_marked() == Set::<usize>::empty(),
            final(self).spec_anchor() == 0,
            final(self).spec_multi() == old(self).spec_multi(),
            final(self).spec_bounds() == old(self).spec_bounds(),
            final(self).spec_state() == old(self).spec_state(),
            final(self).spec_command() == old(self).spec_command(),
    {
        self.items = items;
        let n = self.items.len();
        self.list_state.set_range(n);
        self.marked.clear();
        self.anchor = 0;
    }

    /// Append an item.
    pub fn add_item(&mut self, item: String)
        requires
            old(self).wf(),
            old(self).spec_items().len() < LIST_CAPACITY,
        ensures
            final(self).wf(),
            final(self).spec_items() == old(self).spec_items().push(item@),
            final(self).spec_list().range == old(self).spec_list().range + 1,
            final(self).spec_list().focused == (match old(self).spec_list().focused {
                Some(f) => Some(f),
                None => Some(0usize),
            }),
            final(self).spec_list().top_item == (if old(self).spec_list().top_item > old(self).spec_items().len() {
                old(self).spec_items().len() as usize
            } else {
                old(self).spec_list().top_item
            }),
            final(self).spec_marked() == old(self).spec_marked(),
            final(self).spec_anchor() == old(self).spec_anchor(),
            final(self).spec_multi() == old(self).spec_multi(),
            final(self).spec_bounds() == old(self).spec_bounds(),
            final(self).spec_state() == old(self).spec_state(),
            final(self).spec_command() == old(self).spec_command(),
    {
        self.items.push(item);
        let n = self.items.len();
        self.list_state.set_range(n);
        assert(self.spec_items() =~= old(self).spec_items().push(item@));
    }

    /// Remove every item and mark.
    pub fn clear(&mut self)
        requires
            old(self).wf(),
        ensures
            final(self).wf(),
            final(self).spec_items() == Seq::<Seq<char>>::empty(),
            final(self).spec_list() == (ListViewerState {
                range: 0,
                focused: None,
                ..old(self).spec_list()
            }),
            final(self).spec_marked() == Set::<usize>::empty(),
            final(self).spec_anchor() == 0,
            final(self).spec_multi() == old(self).spec_multi(),
            final(self).spec_bounds() == old(self).spec_bounds(),
            final(self).spec_state() == old(self).spec_state(),
            final(self).spec_command() == old(self).spec_command(),
    {
        self.items.clear();
        self.list_state.set_range(0);
        self.marked.clear();
        self.anchor = 0;
        assert(self.spec_items() =~= Seq::<Seq<char>>::empty());
    }

    /// Allow marking items; turning it off drops the marks.
    pub fn set_multi_select(&mut self, multi: bool)
        requires
            old(self).wf(),
        ensures
            final(self).wf(),
            final(self).spec_multi() == multi,
            final(self).spec_marked() == (if multi { old(self).spec_marked() } else { Set::<usize>::empty() }),
            final(self).spec_items() == old(self).spec_items(),
            final(self).spec_list() == old(self).spec_list(),
            final(self).spec_anchor() == old(self).spec_anchor(),
            final(self).spec_bounds() == old(self).spec_bounds(),
            final(self).spec_state() == old(self).spec_state(),
            final(self).spec_command() == old(self).spec_command(),
    {
        self.multi_select = multi;
        if !multi {
            self.marked.clear();
        }
    }

    pub fn is_multi_select(&self) -> (b: bool)
        ensures
            b == self.spec_multi(),
    {
        self.multi_select
    }

    pub fn is_marked(&self, index: usize) -> (b: bool)
        ensures
            b == self.spec_marked().contains(index),
    {
        self.marked.contains(&index)
    }

    /// The marked indices, in increasing order.
    pub fn marked_items(&self) -> (v: Vec<usize>)
        requires
            self.wf(),
        ensures
            forall|a: int, b: int| 0 <= a < b < v@.len() ==> v@[a] < v@[b],
            v@.to_set() == self.spec_marked(),
    {
        let mut v: Vec<usize> = Vec::new();
        let n = self.items.len();
        let mut i: usize = 0;
        while i < n
            invariant
                self.wf(),
                n == self.items@.len(),
                i <= n,
                forall|a: int, b: int| 0 <= a < b < v@.len() ==> v@[a] < v@[b],
                forall|a: int| 0 <= a < v@.len() ==> v@[a] < i,
                v@.to_set() == Set::new(|k: usize| k < i && self.spec_marked().contains(k)),
            decreases n - i,
        {
            if self.marked.contains(&i) {
                proof {
                    Seq::lemma_to_set_insert_commutes(v@, i);
                    assert(v@.push(i) =~= v@ + seq![i]);
                }
                v.push(i);
            }
            i = i + 1;
            assert(v@.to_set() =~= Set::new(|k: usize| k < i && self.spec_marked().contains(k)));
        }
        assert(v@.to_set() =~= self.spec_marked());
        v
    }

    /// The marked items' text, in list order.
    pub fn marked_text(&self) -> (v: Vec<&str>)
        requires
            self.wf(),
        ensures
            exists|idx: Seq<usize>| {
                &&& (forall|a: int, b: int| 0 <= a < b < idx.len() ==> idx[a] < idx[b])
                &&& idx.to_set() == self.spec_marked()
                &&& idx.len() == v@.len()
                &&& forall|a: int| 0 <= a < idx.len() ==> #[trigger] v@[a]@ == self.spec_items()[idx[a] as int]
            },
    {
        let idx = self.marked_items();
        let mut v: Vec<&str> = Vec::new();
        let mut k: usize = 0;
        while k < idx.len()
            invariant
                self.wf(),
                k <= idx@.len(),
                v@.len() == k,
                idx@.to_set() == self.spec_marked(),
                forall|a: int| 0 <= a < k ==> #[trigger] v@[a]@ == self.spec_items()[idx@[a] as int],
            decreases idx@.len() - k,
        {
            let i = idx[k];
            assert(idx@.to_set().contains(i)) by {
                assert(idx@.contains(i));
            }
            v.push(self.items[i].as_str());
            k = k + 1;
        }
        v
    }

    pub fn marked_count(&self) -> (n: usize)
        requires
            self.wf(),
        ensures
            n == self.spec_marked().len(),
    {
        self.marked.len()
    }

    /// Mark or unmark one item; indices past the items are ignored.
    pub fn set_marked(&mut self, index: usize, marked: bool)
        requires
            old(self).wf(),
        ensures
            final(self).wf(),
            final(self).spec_marked() == (if index >= old(self).spec_items().len() {
                old(self).spec_marked()
            } else if marked {
                old(self).spec_marked().insert(index)
            } else {
                old(self).spec_marked().remove(index)
            }),
            final(self).spec_items() == old(self).spec_items(),
            final(self).spec_list() == old(self).spec_list(),
            final(self).spec_anchor() == old(self).spec_anchor(),
            final(self).spec_multi() == old(self).spec_multi(),
            final(self).spec_bounds() == old(self).spec_bounds(),
            final(self).spec_state() == old(self).spec_state(),
            final(self).spec_command() == old(self).spec_command(),
    {
        if index >= self.items.len() {
            return;
        }
        if marked {
            self.marked.insert(index);
        } else {
            self.marked.remove(&index);
        }
    }

    /// Flip one item's mark.
    pub fn toggle_mark(&mut self, index: usize)
        requires
            old(self).wf(),
        ensures
            final(self).wf(),
            final(self).spec_marked() == (if index >= old(self).spec_items().len() {
                old(self).spec_marked()
            } else if old(self).spec_marked().contains(index) {
                old(self).spec_marked().remove(index)
            } else {
                old(self).spec_marked().insert(index)
            }),
            final(self).spec_items() == old(self).spec_items(),
            final(self).spec_list() == old(self).spec_list(),
            final(self).spec_anchor() == old(self).spec_anchor(),
            final(self).spec_multi() == old(self).spec_multi(),
            final(self).spec_bounds() == old(self).spec_bounds(),
            final(self).spec_state() == old(self).spec_state(),
            final(self).spec_command() == old(self).spec_command(),
    {
        let marked = self.is_marked(index);
        self.set_marked(index, !marked);
    }

    /// Mark every item.
    pub fn mark_all(&mut self)
        requires
            old(self).wf(),
        ensures
            final(self).wf(),
            final(self).spec_marked() == Set::new(|i: usize| i < old(self).spec_items().len()),
            final(self).spec_items() == old(self).spec_items(),
            final(self).spec_list() == old(self).spec_list(),
            final(self).spec_anchor() == old(self).spec_anchor(),
            final(self).spec_multi() == old(self).spec_multi(),
            final(self).spec_bounds() == old(self).spec_bounds(),
            final(self).spec_state() == old(self).spec_state(),
            final(self).spec_command() == old(self).spec_command(),
    {
        let n = self.items.len();
        let mut all: BTreeSet<usize> = BTreeSet::new();
        let mut i: usize = 0;
        while i < n
            invariant
                i <= n,
                all@ == Set::new(|k: usize| k < i),
            decreases n - i,
        {
            all.insert(i);
            i = i + 1;
            assert(all@ =~= Set::new(|k: usize| k < i));
        }
        self.marked = all;
    }

    /// Remove every mark.
    pub fn clear_marks(&mut self)
        requires
            old(self).wf(),
        ensures
            final(self).wf(),
            final(self).spec_marked() == Set::<usize>::empty(),
            final(self).spec_items() == old(self).spec_items(),
            final(self).spec_list() == old(self).spec_list(),
            final(self).spec_anchor() == old(self).spec_anchor(),
            final(self).spec_multi() == old(self).spec_multi(),
            final(self).spec_bounds() == old(self).spec_bounds(),
            final(self).spec_state() == old(self).spec_state(),
            final(self).spec_command() == old(self).spec_command(),
    {
        self.marked.clear();
    }

    /// Mark the run between the anchor and `index`, both included, leaving other marks alone.
    fn mark_run_to(&mut self, index: usize)
        requires
            old(self).wf(),
            index < old(self).spec_items().len(),
        ensures
            final(self).wf(),
            final(self).spec_marked() == marks_after_run(
                old(self).spec_marked(),
                old(self).spec_anchor() as int,
                index as int,
                old(self).spec_items().len() as int,
            ),
            final(self).spec_items() == old(self).spec_items(),
            final(self).spec_list() == old(self).spec_list(),
            final(self).spec_anchor() == old(self).spec_anchor(),
            final(self).spec_multi() == old(self).spec_multi(),
            final(self).spec_bounds() == old(self).spec_bounds(),
            final(self).spec_state() == old(self).spec_state(),
            final(self).spec_command() == old(self).spec_command(),
    {
        let (lo, hi) = if self.anchor <= index { (self.anchor, index) } else { (index, self.anchor) };
        let last = self.items.len() - 1;
        let top = if hi < last { hi } else { last };
        let mut i: usize = lo;
        while i <= top
            invariant
                self.wf(),
                lo <= i,
                top < self.items@.len(),
                i <= top + 1,
                self.items == old(self).items,
                self.list_state == old(self).list_state,
                self.anchor == old(self).anchor,
                self.multi_select == old(self).multi_select,
                self.bounds == old(self).bounds,
                self.state == old(self).state,
                self.on_select_command == old(self).on_select_command,
                self.marked@ == old(self).marked@.union(Set::new(|k: usize| lo <= k < i)),
            decreases top + 1 - i,
        {
            self.marked.insert(i);
            i = i + 1;
            assert(self.marked@ =~= old(self).marked@.union(Set::new(|k: usize| lo <= k < i)));
        }
        assert(self.spec_marked() =~= marks_after_run(
            old(self).spec_marked(),
            old(self).spec_anchor() as int,
            index as int,
            old(self).spec_items().len() as int,
        ));
    }

    /// The focused item, if any.
    pub fn get_selection(&self) -> (r: Option<usize>)
        ensures
            r == self.spec_list().focused,
    {
        self.list_state.focused
    }

    /// The focused item's text, if any.
    pub fn get_selected_item(&self) -> (r: Option<&str>)
        requires
            self.wf(),
        ensures
            match self.spec_list().focused {
                Some(i) => r matches Some(t) && t@ == self.spec_items()[i as int],
                None => r is None,
            },
    {
        match self.list_state.focused {
            Some(i) => Some(self.items[i].as_str()),
            None => None,
        }
    }

    /// Focus the item at `index`; indices past the items are ignored.
    pub fn set_selection(&mut self, index: usize)
        requires
            old(self).wf(),
        ensures
            final(self).wf(),
            final(self).spec_list() == focus_item_result(old(self).spec_list(), index as int, old(self).spec_rows()),
            final(self).spec_items() == old(self).spec_items(),
            final(self).spec_marked() == old(self).spec_marked(),
            final(self).spec_anchor() == old(self).spec_anchor(),
            final(self).spec_multi() == old(self).spec_multi(),
            final(self).spec_bounds() == old(self).spec_bounds(),
            final(self).spec_state() == old(self).spec_state(),
            final(self).spec_command() == old(self).spec_command(),
    {
        if index < self.items.len() {
            let rows = self.bounds.height_clamped() as usize;
            self.list_state.focus_item(index, rows);
        }
    }

    pub fn item_count(&self) -> (n: usize)
        ensures
            n == self.spec_items().len(),
    {
        self.items.len()
    }

    /// Move the focus up one item.
    pub fn select_prev(&mut self)
        requires
            old(self).wf(),
        ensures
            final(self).wf(),
            final(self).spec_list() == (match old(self).spec_list().focused {
                Some(f) => if f > 0 {
                    focus_item_result(old(self).spec_list(), f - 1, old(self).spec_rows())
                } else {
                    old(self).spec_list()
                },
                None => nav_result(old(self).spec_list(), 0, old(self).spec_rows()),
            }),
            final(self).spec_items() == old(self).spec_items(),
            final(self).spec_marked() == old(self).spec_marked(),
            final(self).spec_anchor() == old(self).spec_anchor(),
            final(self).spec_multi() == old(self).spec_multi(),
            final(self).spec_bounds() == old(self).spec_bounds(),
            final(self).spec_state() == old(self).spec_state(),
            final(self).spec_command() == old(self).spec_command(),
    {
        let rows = self.bounds.height_clamped() as usize;
        self.list_state.focus_prev(rows);
    }

    /// Move the focus down one item.
    pub fn select_next(&mut self)
        requires
            old(self).wf(),
        ensures
            final(self).wf(),
            final(self).spec_list() == (match old(self).spec_list().focused {
                Some(f) => if f + 1 < old(self).spec_list().range {
                    focus_item_result(old(self).spec_list(), f + 1, old(self).spec_rows())
                } else {
                    old(self).spec_list()
                },
                None => nav_result(old(self).spec_list(), 0, old(self).spec_rows()),
            }),
            final(self).spec_items() == old(self).spec_items(),
            final(self).spec_marked() == old(self).spec_marked(),
            final(self).spec_anchor() == old(self).spec_anchor(),
            final(self).spec_multi() == old(self).spec_multi(),
            final(self).spec_bounds() == old(self).spec_bounds(),
            final(self).spec_state() == old(self).spec_state(),
            final(self).spec_command() == old(self).spec_command(),
    {
        let rows = self.bounds.height_clamped() as usize;
        self.list_state.focus_next(rows);
    }

    /// Focus the first item.
    pub fn select_first(&mut self)
        requires
            old(self).wf(),
        ensures
            final(self).wf(),
            final(self).spec_list() == (if old(self).spec_list().range > 0 {
                focus_item_result(old(self).spec_list(), 0, old(self).spec_rows())
            } else {
                old(self).spec_list()
            }),
            final(self).spec_items() == old(self).spec_items(),
            final(self).spec_marked() == old(self).spec_marked(),
            final(self).spec_anchor() == old(self).spec_anchor(),
            final(self).spec_multi() == old(self).spec_multi(),
            final(self).spec_bounds() == old(self).spec_bounds(),
            final(self).spec_state() == old(self).spec_state(),
            final(self).spec_command() == old(self).spec_command(),
    {
        let rows = self.bounds.height_clamped() as usize;
        self.list_state.focus_first(rows);
    }

    /// Focus the last item.
    pub fn select_last(&mut self)
        requires
            old(self).wf(),
        ensures
            final(self).wf(),
            final(self).spec_list() == (if old(self).spec_list().range > 0 {
                focus_item_result(old(self).spec_list(), old(self).spec_list().range - 1, old(self).spec_rows())
            } else {
                old(self).spec_list()
            }),
            final(self).spec_items() == old(self).spec_items(),
            final(self).spec_marked() == old(self).spec_marked(),
            final(self).spec_anchor() == old(self).spec_anchor(),
            final(self).spec_multi() == old(self).spec_multi(),
            final(self).spec_bounds() == old(self).spec_bounds(),
            final(self).spec_state() == old(self).spec_state(),
            final(self).spec_command() == old(self).spec_command(),
    {
        let rows = self.bounds.height_clamped() as usize;
        self.list_state.focus_last(rows);
    }

    /// Move the focus up one page.
    pub fn page_up(&mut self)
        requires
            old(self).wf(),
        ensures
            final(self).wf(),
            final(self).spec_list() == (match old(self).spec_list().focused {
                Some(f) => focus_item_result(
                    old(self).spec_list(),
                    if f >= old(self).spec_rows() { f - old(self).spec_rows() } else { 0 },
                    old(self).spec_rows(),
                ),
                None => nav_result(old(self).spec_list(), 0, old(self).spec_rows()),
            }),
            final(self).spec_items() == old(self).spec_items(),
            final(self).spec_marked() == old(self).spec_marked(),
            final(self).spec_anchor() == old(self).spec_anchor(),
            final(self).spec_multi() == old(self).spec_multi(),
            final(self).spec_bounds() == old(self).spec_bounds(),
            final(self).spec_state() == old(self).spec_state(),
            final(self).spec_command() == old(self).spec_command(),
    {
        let rows = self.bounds.height_clamped() as usize;
        self.list_state.focus_page_up(rows);
    }

    /// Move the focus down one page.
    pub fn page_down(&mut self)
        requires
            old(self).wf(),
        ensures
            final(self).wf(),
            final(self).spec_list() == (match old(self).spec_list().focused {
                Some(f) => focus_item_result(
                    old(self).spec_list(),
                    if f + old(self).spec_rows() < old(self).spec_list().range - 1 {
                        f + old(self).spec_rows()
                    } else if old(self).spec_list().range > 0 {
                        old(self).spec_list().range - 1
                    } else {
                        0
                    },
                    old(self).spec_rows(),
                ),
                None => nav_result(old(self).spec_list(), 0, old(self).spec_rows()),
            }),
            final(self).spec_items() == old(self).spec_items(),
            final(self).spec_marked() == old(self).spec_marked(),
            final(self).spec_anchor() == old(self).spec_anchor(),
            final(self).spec_multi() == old(self).spec_multi(),
            final(self).spec_bounds() == old(self).spec_bounds(),
            final(self).spec_state() == old(self).spec_state(),
            final(self).spec_command() == old(self).spec_command(),
    {
        let rows = self.bounds.height_clamped() as usize;
        self.list_state.focus_page_down(rows);
    }

    /// A list box takes the focus.
    pub fn can_focus(&self) -> (b: bool)
        ensures
            b,
    {
        true
    }

    /// Focus the item at `index`, as `set_selection` does.
    pub fn set_list_selection(&mut self, index: usize)
        requires
            old(self).wf(),
        ensures
            final(self).wf(),
            final(self).spec_list() == focus_item_result(old(self).spec_list(), index as int, old(self).spec_rows()),
            final(self).spec_items() == old(self).spec_items(),
            final(self).spec_marked() == old(self).spec_marked(),
            final(self).spec_anchor() == old(self).spec_anchor(),
            final(self).spec_multi() == old(self).spec_multi(),
            final(self).spec_bounds() == old(self).spec_bounds(),
            final(self).spec_state() == old(self).spec_state(),
            final(self).spec_command() == old(self).spec_command(),
    {
        self.set_selection(index);
    }

    /// The focused item, or 0 when there is none.
    pub fn get_list_selection(&self) -> (i: usize)
        ensures
            i == (match self.spec_list().focused {
                Some(f) => f,
                None => 0,
            }),
    {
        match self.list_state.focused {
            Some(f) => f,
            None => 0,
        }
    }

    /// The text of item `item`, or empty text past the end.
    pub fn get_text(&self, item: usize, max_len: usize) -> (t: String)
        ensures
            t@ == (if item < self.spec_items().len() { self.spec_items()[item as int] } else { Seq::<char>::empty() }),
    {
        if item < self.items.len() {
            self.items[item].clone()
        } else {
            String::new()
        }
    }

    /// With multi-select on an item is selected when marked; otherwise when focused.
    pub fn is_selected(&self, item: usize) -> (b: bool)
        ensures
            b == (if self.spec_multi() {
                self.spec_marked().contains(item)
            } else {
                self.spec_list().focused == Some(item)
            }),
    {
        if self.multi_select {
            self.is_marked(item)
        } else {
            match self.list_state.focused {
                Some(f) => f == item,
                None => false,
            }
        }
    }

    /// Handle an event: a double click chooses the clicked item, Enter chooses the
    /// focused one (both turn the event into the list's command); with multi-select
    /// on, a click sets the anchor, Shift+click marks the run from it and Space
    /// toggles the focused mark; arrows, pages, Home and End move the focus, and
    /// the wheel moves it by one item.
    pub fn handle_event(&mut self, event: &mut Event)
        requires
            old(self).wf(),
        ensures
            final(self).wf(),
            final(self).spec_items() == old(self).spec_items(),
            final(self).spec_multi() == old(self).spec_multi(),
            final(self).spec_bounds() == old(self).spec_bounds(),
            final(self).spec_state() == old(self).spec_state(),
            final(self).spec_command() == old(self).spec_command(),
            ({
                let s = old(self).spec_list();
                let b = old(self).spec_bounds();
                let e = *old(event);
                let len = old(self).spec_items().len() as int;
                let rows = old(self).spec_rows();
                let clicked = clicked_item(s, b, e.mouse.pos);
                let marks = old(self).spec_marked();
                let anchor = old(self).spec_anchor();
                if is_double_click(b, e) {
                    &&& final(self).spec_list() == (if clicked < len { focus_item_result(s, clicked, rows) } else { s })
                    &&& *final(event) == spec_command(old(self).spec_command())
                    &&& final(self).spec_marked() == marks
                    &&& final(self).spec_anchor() == anchor
                } else {
                    let mc = is_mark_click(old(self).spec_multi(), s, b, e, len);
                    let shift = has_modifier(e.key_modifiers, KM_SHIFT);
                    let marks1 = if mc && shift { marks_after_run(marks, anchor as int, clicked, len) } else { marks };
                    let anchor1 = if mc && !shift { clicked as usize } else { anchor };
                    if list_event_used(s, b, e) {
                        &&& final(self).spec_list() == list_event_state(s, b, e)
                        &&& *final(event) == (Event { what: EventType::Nothing, ..e })
                        &&& final(self).spec_marked() == marks1
                        &&& final(self).spec_anchor() == anchor1
                    } else if e.what == EventType::Keyboard && e.key_code == KB_ENTER {
                        &&& final(self).spec_list() == s
                        &&& *final(event) == spec_command(old(self).spec_command())
                        &&& final(self).spec_marked() == marks
                        &&& final(self).spec_anchor() == anchor
                    } else if e.what == EventType::Keyboard && old(self).spec_multi() && e.key_code == KB_SPACE {
                        &&& final(self).spec_list() == s
                        &&& *final(event) == (Event { what: EventType::Nothing, ..e })
                        &&& final(self).spec_marked() == (match s.focused {
                            Some(f) => if marks.contains(f) { marks.remove(f) } else { marks.insert(f) },
                            None => marks,
                        })
                        &&& final(self).spec_anchor() == (match s.focused {
                            Some(f) => f,
                            None => anchor,
                        })
                    } else if e.what == EventType::MouseWheelUp && spec_contains(b, e.mouse.pos) {
                        &&& final(self).spec_list() == (match s.focused {
                            Some(f) => if f > 0 { focus_item_result(s, f - 1, rows) } else { s },
                            None => nav_result(s, 0, rows),
                        })
                        &&& *final(event) == (Event { what: EventType::Nothing, ..e })
                        &&& final(self).spec_marked() == marks
                        &&& final(self).spec_anchor() == anchor
                    } else if e.what == EventType::MouseWheelDown && spec_contains(b, e.mouse.pos) {
                        &&& final(self).spec_list() == (match s.focused {
                            Some(f) => if f + 1 < s.range { focus_item_result(s, f + 1, rows) } else { s },
                            None => nav_result(s, 0, rows),
                        })
                        &&& *final(event) == (Event { what: EventType::Nothing, ..e })
                        &&& final(self).spec_marked() == marks
                        &&& final(self).spec_anchor() == anchor
                    } else {
                        &&& final(self).spec_list() == s
                        &&& *final(event) == e
                        &&& final(self).spec_marked() == marks1
                        &&& final(self).spec_anchor() == anchor1
                    }
                }
            }),
    {
        if event.what == EventType::MouseDown {
            let pos = event.mouse.pos;
            if self.bounds.contains(pos) && event.mouse.buttons & MB_LEFT_BUTTON != 0 {
                if event.mouse.double_click {
                    let relative_y = (pos.y as i32 - self.bounds.a.y as i32) as usize;
                    let clicked = self.list_state.top_item + relative_y;
                    if clicked < self.items.len() {
                        let rows = self.bounds.height_clamped() as usize;
                        self.list_state.focus_item(clicked, rows);
                    }
                    *event = Event::command(self.on_select_command);
                    return;
                }
            }
        }
        if self.multi_select && event.what == EventType::MouseDown && event.mouse.buttons & MB_LEFT_BUTTON != 0
            && self.bounds.contains(event.mouse.pos) {
            let relative_y = (event.mouse.pos.y as i32 - self.bounds.a.y as i32) as usize;
            let clicked = self.list_state.top_item + relative_y;
            if clicked < self.items.len() {
                if event.key_modifiers & KM_SHIFT == KM_SHIFT {
                    self.mark_run_to(clicked);
                } else {
                    self.anchor = clicked;
                }
            }
        }
        if handle_list_event(&mut self.list_state, self.bounds, event) {
            return;
        }
        if event.what == EventType::Keyboard {
            if event.key_code == KB_ENTER {
                *event = Event::command(self.on_select_command);
            } else if self.multi_select && event.key_code == KB_SPACE {
                match self.list_state.focused {
                    Some(f) => {
                        self.toggle_mark(f);
                        self.anchor = f;
                    },
                    None => {},
                }
                event.clear();
            }
        } else if event.what == EventType::MouseWheelUp {
            if self.bounds.contains(event.mouse.pos) {
                self.select_prev();
                event.clear();
            }
        } else if event.what == EventType::MouseWheelDown {
            if self.bounds.contains(event.mouse.pos) {
                self.select_next();
                event.clear();
            }
        }
    }

    /// The attribute of the rows that are not the focused item.
    pub open spec fn spec_row_attr(&self, colors: ListBoxColors) -> Attr {
        if self.spec_state() & SF_FOCUSED != 0 { colors.focused } else { colors.normal }
    }

    /// The cell in column `j` of row `i` of the drawn list.
    pub open spec fn spec_cell(&self, colors: ListBoxColors, i: int, j: int) -> Cell {
        let item = self.spec_list().top_item + i;
        let normal = self.spec_row_attr(colors);
        if item < self.spec_items().len() {
            let color = if self.spec_list().focused == Some(item as usize) { colors.selected } else { normal };
            let text = self.spec_items()[item];
            let text_at: int = if self.spec_multi() { 2 } else { 0 };
            if self.spec_multi() && j == 0 && self.spec_marked().contains(item as usize) {
                Cell { ch: MARK_ON_CHAR, attr: color }
            } else if text_at <= j < text_at + text.len() {
                Cell { ch: text[j - text_at], attr: color }
            } else {
                Cell { ch: ' ', attr: color }
            }
        } else {
            Cell { ch: ' ', attr: normal }
        }
    }

    /// Draw the visible rows: one line per row of the bounds, each as wide as them.
    pub fn draw(&self, colors: ListBoxColors) -> (lines: Vec<DrawLine>)
        requires
            self.wf(),
        ensures
            lines@.len() == clamp_extent(spec_height(self.spec_bounds())),
            forall|i: int| 0 <= i < lines@.len() ==> {
                &&& #[trigger] lines@[i].x == self.spec_bounds().a.x
                &&& lines@[i].y == self.spec_bounds().a.y + i
                &&& lines@[i].buf.data@.len() == clamp_extent(spec_width(self.spec_bounds()))
                &&& forall|j: int| 0 <= j < lines@[i].buf.data@.len() ==>
                    #[trigger] lines@[i].buf.data@[j] == self.spec_cell(colors, i, j)
            },
    {
        let width = self.bounds.width_clamped() as usize;
        let height = self.bounds.height_clamped() as usize;
        let normal = if self.state & SF_FOCUSED != 0 { colors.focused } else { colors.normal };
        let mut lines: Vec<DrawLine> = Vec::new();
        let mut i: usize = 0;
        while i < height
            invariant
                self.wf(),
                width == clamp_extent(spec_width(self.spec_bounds())),
                height == clamp_extent(spec_height(self.spec_bounds())),
                normal == self.spec_row_attr(colors),
                i <= height,
                lines@.len() == i,
                forall|k: int| 0 <= k < i ==> {
                    &&& #[trigger] lines@[k].x == self.spec_bounds().a.x
                    &&& lines@[k].y == self.spec_bounds().a.y + k
                    &&& lines@[k].buf.data@.len() == width
                    &&& forall|j: int| 0 <= j < lines@[k].buf.data@.len() ==>
                        #[trigger] lines@[k].buf.data@[j] == self.spec_cell(colors, k, j)
                },
            decreases height - i,
        {
            let mut buf = DrawBuffer::new(width);
            let item = self.list_state.top_item + i;
            if item < self.items.len() {
                let focused_row = match self.list_state.focused {
                    Some(f) => f == item,
                    None => false,
                };
                let color = if focused_row { colors.selected } else { normal };
                buf.move_char(0, ' ', color, width);
                let text_at: usize = if self.multi_select { 2 } else { 0 };
                if self.multi_select {
                    let mark = if self.marked.contains(&item) { MARK_ON_CHAR } else { ' ' };
                    buf.put_char(0, mark, color);
                    buf.put_char(1, ' ', color);
                }
                let text = string_chars(&self.items[item]);
                let ghost before = buf.data@;
                buf.move_chars(text_at, &text, color);
                assert forall|j: int| 0 <= j < buf.data@.len() implies #[trigger] buf.data@[j]
                    == self.spec_cell(colors, i as int, j) by {
                    assert(self.spec_items()[item as int] == text@);
                    if text_at <= j < text_at + text@.len() {
                    } else {
                        assert(buf.data@[j] == before[j]);
                    }
                }
            } else {
                buf.move_char(0, ' ', normal, width);
                assert forall|j: int| 0 <= j < buf.data@.len() implies #[trigger] buf.data@[j]
                    == self.spec_cell(colors, i as int, j) by {}
            }
            let y: i16 = (self.bounds.a.y as i32 + i as i32) as i16;
            let line = DrawLine::new(self.bounds.a.x, y, buf);
            assert(line.y == self.spec_bounds().a.y + i);
            assert(line.buf.data@.len() == width);
            lines.push(line);
            assert(lines@[i as int] == line);
            i = i + 1;
        }
        lines
    }
}

/// Builds a list box from its bounds and command.
pub struct ListBoxBuilder {
    bounds: Option<Rect>,
    on_select_command: u16,
}

impl ListBoxBuilder {
    pub closed spec fn spec_bounds(&self) -> Option<Rect> {
        self.bounds
    }

    pub closed spec fn spec_command(&self) -> u16 {
        self.on_select_command
    }

    pub fn new() -> (b: Self)
        ensures
            b.spec_bounds() is None,
            b.spec_command() == 0,
    {
        ListBoxBuilder { bounds: None, on_select_command: 0 }
    }

    pub fn bounds(self, bounds: Rect) -> (b: Self)
        ensures
            b.spec_bounds() == Some(bounds),
            b.spec_command() == self.spec_command(),
    {
        ListBoxBuilder { bounds: Some(bounds), ..self }
    }

    pub fn on_select_command(self, command: u16) -> (b: Self)
        ensures
            b.spec_bounds() == self.spec_bounds(),
            b.spec_command() == command,
    {
        ListBoxBuilder { on_select_command: command, ..self }
    }

    /// The list box; the bounds must have been given.
    pub fn build(self) -> (lb: ListBox)
        requires
            self.spec_bounds() is Some,
        ensures
            lb.wf(),
            lb.spec_bounds() == self.spec_bounds()->0,
            lb.spec_command() == self.spec_command(),
            lb.spec_items() == Seq::<Seq<char>>::empty(),
            lb.spec_list() == ListViewerState::spec_new(),
            !lb.spec_multi(),
            lb.spec_marked() == Set::<usize>::empty(),
    {
        match self.bounds {
            Some(b) => ListBox::new(b, self.on_select_command),
            None => ListBox::new(Rect::new(0, 0, 0, 0), self.on_select_command),
        }
    }

    pub fn build_boxed(self) -> (lb: Box<ListBox>)
        requires
            self.spec_bounds() is Some,
        ensures
            lb.wf(),
            lb.spec_bounds() == self.spec_bounds()->0,
            lb.spec_command() == self.spec_command(),
            lb.spec_items() == Seq::<Seq<char>>::empty(),
            lb.spec_list() == ListViewerState::spec_new(),
            !lb.spec_multi(),
            lb.spec_marked() == Set::<usize>::empty(),
    {
        Box::new(self.build())
    }
}

impl Default for ListBoxBuilder {
    fn default() -> (b: Self)
        ensures
            b.spec_bounds() is None,
            b.spec_command() == 0,
    {
        ListBoxBuilder::new()
    }
}

} // verus!
