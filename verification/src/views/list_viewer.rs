//! Shared state of scrollable lists: focused item, first visible row, range.
use vstd::prelude::*;
use crate::event::{Event, EventType, KB_DOWN, KB_END, KB_HOME, KB_PGDN, KB_PGUP, KB_UP, MB_LEFT_BUTTON};
use crate::geometry::{clamp_extent, spec_contains, spec_height, Point, Rect};

verus! {

/// Focus and scroll state of a list view.
#[derive(Clone, Copy, Debug)]
pub struct ListViewerState {
    /// First visible item.
    pub top_item: usize,
    /// Item receiving keyboard input.
    pub focused: Option<usize>,
    /// Number of items.
    pub range: usize,
    /// Number of columns.
    pub num_cols: u16,
    /// Whether space selects items.
    pub handle_space: bool,
}

/// The state is consistent: an item is focused exactly when there are items,
/// and the focused and top items lie inside the range.
pub open spec fn lv_wf(s: ListViewerState) -> bool {
    &&& (s.focused is Some <==> s.range > 0)
    &&& (s.focused matches Some(f) ==> f < s.range)
    &&& (s.range > 0 ==> s.top_item < s.range)
}

/// The focused item lies in the window of `rows` rows starting at the top item.
pub open spec fn lv_focus_visible(s: ListViewerState, rows: int) -> bool {
    s.focused matches Some(f) ==> s.top_item <= f < s.top_item + rows
}

/// The top item after focusing `item` with `rows` visible rows.
pub open spec fn scrolled_top(top: int, item: int, rows: int) -> int {
    if item < top {
        item
    } else if item >= top + rows {
        item - rows + 1
    } else {
        top
    }
}

/// The state after `focus_item(item, rows)`.
pub open spec fn focus_item_result(s: ListViewerState, item: int, rows: int) -> ListViewerState {
    if item >= s.range {
        s
    } else {
        ListViewerState {
            focused: Some(item as usize),
            top_item: scrolled_top(s.top_item as int, item, rows) as usize,
            ..s
        }
    }
}

/// Where a relative move lands: `next` when a focus exists, else the first item.
pub open spec fn nav_result(s: ListViewerState, target: int, rows: int) -> ListViewerState {
    if s.focused is Some {
        focus_item_result(s, target, rows)
    } else if s.range > 0 {
        focus_item_result(s, 0, rows)
    } else {
        s
    }
}

/// No arithmetic of the navigation overflows a `usize`.
pub open spec fn lv_fits(s: ListViewerState, rows: int) -> bool {
    &&& s.top_item + rows <= usize::MAX
    &&& (s.focused matches Some(f) ==> f + rows <= usize::MAX && f < usize::MAX)
}

impl ListViewerState {
    pub fn new() -> (s: Self)
        ensures
            s.top_item == 0,
            s.focused is None,
            s.range == 0,
            s.num_cols == 1,
            s.handle_space,
            lv_wf(s),
    {
        ListViewerState { top_item: 0, focused: None, range: 0, num_cols: 1, handle_space: true }
    }

    pub fn with_range(range: usize) -> (s: Self)
        ensures
            s.top_item == 0,
            s.focused == (if range > 0 { Some(0usize) } else { None }),
            s.range == range,
            s.num_cols == 1,
            s.handle_space,
            lv_wf(s),
    {
        ListViewerState {
            top_item: 0,
            focused: if range > 0 { Some(0) } else { None },
            range,
            num_cols: 1,
            handle_space: true,
        }
    }

    /// Set the number of items, pulling the focus and the top item back inside.
    pub fn set_range(&mut self, range: usize)
        ensures
            final(self).range == range,
            final(self).num_cols == old(self).num_cols,
            final(self).handle_space == old(self).handle_space,
            final(self).focused == (match old(self).focused {
                Some(f) => if f >= range {
                    if range > 0 { Some((range - 1) as usize) } else { None }
                } else {
                    Some(f)
                },
                None => if range > 0 { Some(0usize) } else { None },
            }),
            final(self).top_item == (if old(self).top_item >= range && range > 0 {
                (range - 1) as usize
            } else {
                old(self).top_item
            }),
    {
        self.range = range;
        match self.focused {
            Some(focused) => {
                if focused >= range {
                    self.focused = if range > 0 { Some(range - 1) } else { None };
                }
            },
            None => {
                if range > 0 {
                    self.focused = Some(0);
                }
            },
        }
        if self.top_item >= range && range > 0 {
            self.top_item = range - 1;
        }
    }

    /// Focus `item`, scrolling just enough to show it; items past the range are ignored.
    pub fn focus_item(&mut self, item: usize, visible_rows: usize)
        requires
            old(self).top_item + visible_rows <= usize::MAX,
        ensures
            *final(self) == focus_item_result(*old(self), item as int, visible_rows as int),
    {
        if item >= self.range {
            return;
        }
        self.focused = Some(item);
        if item < self.top_item {
            self.top_item = item;
        } else if item >= self.top_item + visible_rows {
            self.top_item = item - visible_rows + 1;
        }
    }

    /// Focus `item` and put it in the middle of the viewport when possible.
    pub fn focus_item_centered(&mut self, item: usize, visible_rows: usize)
        ensures
            item >= old(self).range ==> *final(self) == *old(self),
            item < old(self).range ==> *final(self) == (ListViewerState {
                focused: Some(item),
                top_item: if visible_rows > 0 {
                    ({
                        let half = visible_rows / 2;
                        let t = if item >= half { item - half } else { 0 };
                        let max_top = if old(self).range > visible_rows {
                            old(self).range - visible_rows
                        } else {
                            0
                        };
                        if t > max_top { max_top } else { t }
                    }) as usize
                } else {
                    old(self).top_item
                },
                ..*old(self)
            }),
    {
        if item >= self.range {
            return;
        }
        self.focused = Some(item);
        if visible_rows > 0 {
            let half_rows = visible_rows / 2;
            if item >= half_rows {
                self.top_item = item - half_rows;
            } else {
                self.top_item = 0;
            }
            let max_top = if self.range > visible_rows {
                self.range - visible_rows
            } else {
                0
            };
            if self.top_item > max_top {
                self.top_item = max_top;
            }
        }
    }

    /// Move the focus one item down.
    pub fn focus_next(&mut self, visible_rows: usize)
        requires
            lv_fits(*old(self), visible_rows as int),
        ensures
            *final(self) == (match old(self).focused {
                Some(f) => if f + 1 < old(self).range {
                    focus_item_result(*old(self), f + 1, visible_rows as int)
                } else {
                    *old(self)
                },
                None => nav_result(*old(self), 0, visible_rows as int),
            }),
    {
        match self.focused {
            Some(focused) => {
                if focused + 1 < self.range {
                    self.focus_item(focused + 1, visible_rows);
                }
            },
            None => {
                if self.range > 0 {
                    self.focus_item(0, visible_rows);
                }
            },
        }
    }

    /// Move the focus one item up.
    pub fn focus_prev(&mut self, visible_rows: usize)
        requires
            lv_fits(*old(self), visible_rows as int),
        ensures
            *final(self) == (match old(self).focused {
                Some(f) => if f > 0 {
                    focus_item_result(*old(self), f - 1, visible_rows as int)
                } else {
                    *old(self)
                },
                None => nav_result(*old(self), 0, visible_rows as int),
            }),
    {
        match self.focused {
            Some(focused) => {
                if focused > 0 {
                    self.focus_item(focused - 1, visible_rows);
                }
            },
            None => {
                if self.range > 0 {
                    self.focus_item(0, visible_rows);
                }
            },
        }
    }

    /// Move the focus a page down, stopping at the last item.
    pub fn focus_page_down(&mut self, visible_rows: usize)
        requires
            lv_fits(*old(self), visible_rows as int),
        ensures
            *final(self) == (match old(self).focused {
                Some(f) => focus_item_result(
                    *old(self),
                    if f + visible_rows < old(self).range - 1 {
                        f + visible_rows
                    } else if old(self).range > 0 {
                        old(self).range - 1
                    } else {
                        0
                    },
                    visible_rows as int,
                ),
                None => nav_result(*old(self), 0, visible_rows as int),
            }),
    {
        match self.focused {
            Some(focused) => {
                let last = if self.range > 0 { self.range - 1 } else { 0 };
                let target = focused + visible_rows;
                let new_focused = if target < last { target } else { last };
                self.focus_item(new_focused, visible_rows);
            },
            None => {
                if self.range > 0 {
                    self.focus_item(0, visible_rows);
                }
            },
        }
    }

    /// Move the focus a page up, stopping at the first item.
    pub fn focus_page_up(&mut self, visible_rows: usize)
        requires
            lv_fits(*old(self), visible_rows as int),
        ensures
            *final(self) == (match old(self).focused {
                Some(f) => focus_item_result(
                    *old(self),
                    if f >= visible_rows { f - visible_rows } else { 0 },
                    visible_rows as int,
                ),
                None => nav_result(*old(self), 0, visible_rows as int),
            }),
    {
        match self.focused {
            Some(focused) => {
                let new_focused = if focused >= visible_rows { focused - visible_rows } else { 0 };
                self.focus_item(new_focused, visible_rows);
            },
            None => {
                if self.range > 0 {
                    self.focus_item(0, visible_rows);
                }
            },
        }
    }

    /// Focus the first item.
    pub fn focus_first(&mut self, visible_rows: usize)
        requires
            old(self).top_item + visible_rows <= usize::MAX,
        ensures
            *final(self) == (if old(self).range > 0 {
                focus_item_result(*old(self), 0, visible_rows as int)
            } else {
                *old(self)
            }),
    {
        if self.range > 0 {
            self.focus_item(0, visible_rows);
        }
    }

    /// Focus the last item.
    pub fn focus_last(&mut self, visible_rows: usize)
        requires
            old(self).top_item + visible_rows <= usize::MAX,
        ensures
            *final(self) == (if old(self).range > 0 {
                focus_item_result(*old(self), old(self).range - 1, visible_rows as int)
            } else {
                *old(self)
            }),
    {
        if self.range > 0 {
            self.focus_item(self.range - 1, visible_rows);
        }
    }
}

impl Default for ListViewerState {
    fn default() -> (s: Self)
        ensures
            s == ListViewerState::spec_new(),
    {
        ListViewerState::new()
    }
}

impl ListViewerState {
    /// The empty state that `new` builds.
    pub open spec fn spec_new() -> ListViewerState {
        ListViewerState { top_item: 0, focused: None, range: 0, num_cols: 1, handle_space: true }
    }
}

/// Focusing an item inside the range makes it the focus and puts it on screen,
/// and keeps a consistent state consistent.
pub proof fn law_focus_item_shows_item(s: ListViewerState, item: usize, rows: usize)
    requires
        lv_wf(s),
        item < s.range,
        rows > 0,
    ensures
        focus_item_result(s, item as int, rows as int).focused == Some(item),
        lv_focus_visible(focus_item_result(s, item as int, rows as int), rows as int),
        lv_wf(focus_item_result(s, item as int, rows as int)),
{
}

/// Changing the range of a consistent state leaves it consistent.
pub proof fn law_set_range_keeps_consistency(s: ListViewerState, range: usize)
    requires
        lv_wf(s),
    ensures
        lv_wf(ListViewerState {
            range: range,
            focused: match s.focused {
                Some(f) => if f >= range {
                    if range > 0 { Some((range - 1) as usize) } else { None }
                } else {
                    Some(f)
                },
                None => if range > 0 { Some(0usize) } else { None },
            },
            top_item: if s.top_item >= range && range > 0 { (range - 1) as usize } else { s.top_item },
            ..s
        }),
{
}

/// Moving down then up from an item that has a successor returns to it,
/// whatever the scroll position becomes.
pub proof fn law_next_then_prev_returns(s: ListViewerState, rows: usize)
    requires
        lv_wf(s),
        rows > 0,
        s.focused matches Some(f) && f + 1 < s.range,
    ensures
        ({
            let f = s.focused->0;
            let t = focus_item_result(s, f + 1, rows as int);
            focus_item_result(t, f as int, rows as int).focused == s.focused
        }),
{
}


/// No navigation arithmetic overflows for any on-screen row count.
pub open spec fn lv_room(s: ListViewerState) -> bool {
    lv_fits(s, 65536)
}

/// The row of the list under a mouse position inside `bounds`.
pub open spec fn clicked_item(s: ListViewerState, bounds: Rect, pos: Point) -> int {
    s.top_item + (pos.y - bounds.a.y)
}

/// Whether `code` is one of the navigation keys of a list.
pub open spec fn list_nav_key(code: u16) -> bool {
    code == KB_UP || code == KB_DOWN || code == KB_PGUP || code == KB_PGDN || code == KB_HOME
        || code == KB_END
}

/// Whether the standard list navigation takes `e`.
pub open spec fn list_event_used(s: ListViewerState, bounds: Rect, e: Event) -> bool {
    if e.what == EventType::Keyboard {
        list_nav_key(e.key_code)
    } else {
        &&& e.what == EventType::MouseDown
        &&& e.mouse.buttons & MB_LEFT_BUTTON != 0
        &&& spec_contains(bounds, e.mouse.pos)
        &&& clicked_item(s, bounds, e.mouse.pos) < s.range
    }
}

/// The state after the standard list navigation of `e`, for a list drawn in `bounds`.
pub open spec fn list_event_state(s: ListViewerState, bounds: Rect, e: Event) -> ListViewerState {
    let rows = clamp_extent(spec_height(bounds));
    if !list_event_used(s, bounds, e) {
        s
    } else if e.what == EventType::Keyboard {
        if e.key_code == KB_UP {
            match s.focused {
                Some(f) => if f > 0 { focus_item_result(s, f - 1, rows) } else { s },
                None => nav_result(s, 0, rows),
            }
        } else if e.key_code == KB_DOWN {
            match s.focused {
                Some(f) => if f + 1 < s.range { focus_item_result(s, f + 1, rows) } else { s },
                None => nav_result(s, 0, rows),
            }
        } else if e.key_code == KB_HOME {
            if s.range > 0 { focus_item_result(s, 0, rows) } else { s }
        } else if e.key_code == KB_END {
            if s.range > 0 { focus_item_result(s, s.range - 1, rows) } else { s }
        } else if e.key_code == KB_PGUP {
            match s.focused {
                Some(f) => focus_item_result(s, if f >= rows { f - rows } else { 0 }, rows),
                None => nav_result(s, 0, rows),
            }
        } else {
            match s.focused {
                Some(f) => focus_item_result(
                    s,
                    if f + rows < s.range - 1 { f + rows } else if s.range > 0 { s.range - 1 } else { 0 },
                    rows,
                ),
                None => nav_result(s, 0, rows),
            }
        }
    } else {
        focus_item_result(s, clicked_item(s, bounds, e.mouse.pos), rows)
    }
}

/// Apply the standard list navigation of keys and clicks to `state`, for a
/// list drawn in `bounds`, one item per row. Returns whether the event was used;
/// a used event is cleared, any other is left alone.
pub fn handle_list_event(state: &mut ListViewerState, bounds: Rect, event: &mut Event) -> (used: bool)
    requires
        lv_room(*old(state)),
    ensures
        used == list_event_used(*old(state), bounds, *old(event)),
        *final(state) == list_event_state(*old(state), bounds, *old(event)),
        *final(event) == (if used { Event { what: EventType::Nothing, ..*old(event) } } else { *old(event) }),
{
    let visible_rows = bounds.height_clamped() as usize;
    if event.what == EventType::Keyboard {
        let code = event.key_code;
        if code == KB_UP {
            state.focus_prev(visible_rows);
        } else if code == KB_DOWN {
            state.focus_next(visible_rows);
        } else if code == KB_PGUP {
            state.focus_page_up(visible_rows);
        } else if code == KB_PGDN {
            state.focus_page_down(visible_rows);
        } else if code == KB_HOME {
            state.focus_first(visible_rows);
        } else if code == KB_END {
            state.focus_last(visible_rows);
        } else {
            return false;
        }
        event.clear();
        true
    } else if event.what == EventType::MouseDown {
        if event.mouse.buttons & MB_LEFT_BUTTON != 0 {
            let pos = event.mouse.pos;
            if bounds.contains(pos) {
                let relative_y = (pos.y as i32 - bounds.a.y as i32) as usize;
                let clicked = state.top_item + relative_y;
                if clicked < state.range {
                    state.focus_item(clicked, visible_rows);
                    event.clear();
                    return true;
                }
            }
        }
        false
    } else {
        false
    }
}


/// The standard list moves, in terms of the state before them: a left click
/// inside the list focuses the item drawn on the clicked row (the first
/// visible item plus the row), when there is one; Home focuses the first
/// item, End the last; Up and Down move the focus by one item without
/// passing either end.
pub proof fn law_list_moves_focus_the_expected_item(s: ListViewerState, bounds: Rect, e: Event)
    ensures
        e.what == EventType::MouseDown && e.mouse.buttons & MB_LEFT_BUTTON != 0 && spec_contains(bounds, e.mouse.pos)
            && s.top_item + (e.mouse.pos.y - bounds.a.y) < s.range ==> {
            &&& list_event_used(s, bounds, e)
            &&& list_event_state(s, bounds, e).focused == Some((s.top_item + (e.mouse.pos.y - bounds.a.y)) as usize)
        },
        e.what == EventType::Keyboard && e.key_code == KB_HOME && s.range > 0 ==> list_event_state(s, bounds, e).focused
            == Some(0usize),
        e.what == EventType::Keyboard && e.key_code == KB_END && s.range > 0 ==> list_event_state(s, bounds, e).focused
            == Some((s.range - 1) as usize),
        e.what == EventType::Keyboard && e.key_code == KB_UP ==> (match s.focused {
            Some(f) => 0 < f < s.range ==> list_event_state(s, bounds, e).focused == Some((f - 1) as usize),
            None => true,
        }),
        e.what == EventType::Keyboard && e.key_code == KB_DOWN ==> (match s.focused {
            Some(f) => f + 1 < s.range ==> list_event_state(s, bounds, e).focused == Some((f + 1) as usize),
            None => true,
        }),
{
}

} // verus!
