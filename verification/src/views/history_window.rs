//! The popup listing a history list's entries: Enter or a double click
//! picks the highlighted entry, Esc cancels.
use vstd::prelude::*;
use crate::event::{Event, EventType, KB_ENTER, KB_ESC};
use crate::geometry::{spec_contains, Point, Rect};
use crate::text::{string_chars, string_from_chars};
use crate::views::history::HistoryManager;
use crate::views::list_viewer::{handle_list_event, list_event_state, list_event_used, lv_room, ListViewerState};

verus! {

/// What the popup's loop does after an event.
pub enum HistoryStep {
    /// Keep going.
    Continue,
    /// Close with this entry (none when the list is empty).
    Chosen(Option<String>),
    /// Close without a choice.
    Cancelled,
}

/// The number of rows the list gets for `count` entries: at least one, at most ten.
pub open spec fn viewer_rows(count: int) -> int {
    if count > 10 { 10 } else if count < 1 { 1 } else { count }
}

/// The text of the highlighted entry of `items` under `list`, none when
/// nothing is highlighted.
pub open spec fn picked_entry(items: Seq<Seq<char>>, list: ListViewerState) -> Option<Seq<char>> {
    match list.focused {
        Some(f) => if f < items.len() { Some(items[f as int]) } else { None },
        None => None,
    }
}

/// Whether `s` closes the popup with `entry`.
pub open spec fn chosen_as(s: HistoryStep, entry: Option<Seq<char>>) -> bool {
    match s {
        HistoryStep::Chosen(c) => match c {
            Some(t) => entry == Some(t@),
            None => entry is None,
        },
        _ => false,
    }
}

pub struct HistoryWindow {
    bounds: Rect,
    viewer_bounds: Rect,
    items: Vec<String>,
    list: ListViewerState,
}

impl HistoryWindow {
    pub closed spec fn spec_bounds(&self) -> Rect {
        self.bounds
    }

    pub closed spec fn spec_viewer_bounds(&self) -> Rect {
        self.viewer_bounds
    }

    pub closed spec fn spec_items(&self) -> Seq<Seq<char>> {
        self.items@.map_values(|s: String| s@)
    }

    pub closed spec fn spec_list(&self) -> ListViewerState {
        self.list
    }

    /// A popup at `pos`, `width` wide, for list `history_id`: as high as
    /// its entries (one to ten rows) plus the frame, the first entry highlighted.
    pub fn new(pos: Point, history_id: u16, width: i16, manager: &HistoryManager) -> (w: HistoryWindow)
        requires
            i16::MIN <= pos.x + width <= i16::MAX,
            pos.y + 12 <= i16::MAX,
            width >= i16::MIN + 2,
        ensures
            w.spec_items() == manager.spec_entries(history_id),
            ({
                let rows = viewer_rows(manager.spec_entries(history_id).len() as int);
                &&& w.spec_bounds() == (Rect {
                    a: pos,
                    b: Point { x: (pos.x + width) as i16, y: (pos.y + rows + 2) as i16 },
                })
                &&& w.spec_viewer_bounds() == (Rect {
                    a: Point { x: 1, y: 1 },
                    b: Point { x: (width - 2) as i16, y: (rows + 1) as i16 },
                })
            }),
            w.spec_list() == (ListViewerState {
                top_item: 0,
                focused: if manager.spec_entries(history_id).len() > 0 { Some(0usize) } else { None },
                range: manager.spec_entries(history_id).len() as usize,
                num_cols: 1,
                handle_space: true,
            }),
    {
        let items = manager.get_list(history_id);
        let count = items.len();
        let rows: i16 = if count > 10 { 10 } else if count < 1 { 1 } else { count as i16 };
        let bounds = Rect { a: pos, b: Point { x: pos.x + width, y: pos.y + rows + 2 } };
        let viewer_bounds = Rect { a: Point { x: 1, y: 1 }, b: Point { x: width - 2, y: rows + 1 } };
        HistoryWindow { bounds, viewer_bounds, items, list: ListViewerState::with_range(count) }
    }

    pub fn item_count(&self) -> (n: usize)
        ensures
            n == self.spec_items().len(),
    {
        self.items.len()
    }

    pub fn viewer_bounds(&self) -> (r: Rect)
        ensures
            r == self.spec_viewer_bounds(),
    {
        self.viewer_bounds
    }

    /// The highlighted entry, if any.
    pub fn get_selected_item(&self) -> (r: Option<String>)
        ensures
            r matches Some(s) ==> (self.spec_list().focused matches Some(f) && f < self.spec_items().len() && s@ == self.spec_items()[f as int]),
            r is None ==> !(self.spec_list().focused matches Some(f) && f < self.spec_items().len()),
    {
        match self.list.focused {
            Some(f) => {
                if f < self.items.len() {
                    let c = string_chars(&self.items[f]);
                    Some(string_from_chars(&c))
                } else {
                    None
                }
            },
            None => None,
        }
    }

    /// One event of the popup's loop: the list navigates first; then Enter
    /// picks the highlighted entry, Esc cancels, and a double click inside
    /// the list picks the highlighted entry.
    pub fn step(&mut self, event: &mut Event) -> (s: HistoryStep)
        requires
            lv_room(old(self).spec_list()),
        ensures
            final(self).spec_items() == old(self).spec_items(),
            final(self).spec_list() == list_event_state(old(self).spec_list(), old(self).spec_viewer_bounds(), *old(event)),
            ({
                let used = list_event_used(old(self).spec_list(), old(self).spec_viewer_bounds(), *old(event));
                let e = if used { Event { what: EventType::Nothing, ..*old(event) } } else { *old(event) };
                let picked = picked_entry(final(self).spec_items(), final(self).spec_list());
                &&& *final(event) == e
                &&& (e.what == EventType::Keyboard && e.key_code == KB_ENTER) ==> chosen_as(s, picked)
                &&& (e.what == EventType::Keyboard && e.key_code != KB_ENTER && e.key_code == KB_ESC) ==> s is Cancelled
                &&& (e.what == EventType::MouseDown && e.mouse.double_click && spec_contains(old(self).spec_viewer_bounds(), e.mouse.pos)) ==> chosen_as(s, picked)
                &&& !((e.what == EventType::Keyboard && (e.key_code == KB_ENTER || e.key_code == KB_ESC)) || (e.what
                    == EventType::MouseDown && e.mouse.double_click && spec_contains(old(self).spec_viewer_bounds(), e.mouse.pos)))
                    ==> s is Continue
            }),
    {
        handle_list_event(&mut self.list, self.viewer_bounds, event);
        if event.what == EventType::Keyboard {
            if event.key_code == KB_ENTER {
                return HistoryStep::Chosen(self.get_selected_item());
            } else if event.key_code == KB_ESC {
                return HistoryStep::Cancelled;
            }
        } else if event.what == EventType::MouseDown {
            if event.mouse.double_click && self.viewer_bounds.contains(event.mouse.pos) {
                return HistoryStep::Chosen(self.get_selected_item());
            }
        }
        HistoryStep::Continue
    }
}

} // verus!
