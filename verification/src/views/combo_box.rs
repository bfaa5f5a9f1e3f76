//! A field showing one choice, with a drop-down list of the alternatives.
//!
//! The field cannot open the list itself: it turns F4, Alt+Down or a click
//! into a `CM_SHOW_DROPDOWN` command naming the field, and whoever owns the
//! screen opens a [`DropdownWindow`] over the field's [`ComboState`] and feeds
//! it events until it reports a choice or a cancel.
use vstd::prelude::*;
use crate::command::CM_SHOW_DROPDOWN;
use crate::draw::{Attr, Cell, DrawBuffer, DrawLine};
use crate::event::{
    has_modifier, spec_broadcast, spec_command, Event, EventType, KB_DOWN, KB_END, KB_ENTER, KB_ESC,
    KB_F4, KB_HOME, KB_PGDN, KB_PGUP, KB_UP, KM_ALT,
};
use crate::geometry::{clamp_extent, spec_contains, spec_height, spec_in_extent, spec_width, Point, Rect};
use crate::state::SF_FOCUSED;
use crate::text::{string_chars, take_chars};

verus! {

broadcast use vstd::string::group_string_axioms;

/// Drawn at the right edge of the field.
pub const DROP_ARROW: char = '\u{25BC}';

/// The most rows a drop-down list shows before it scrolls.
pub const MAX_DROPDOWN_ROWS: i16 = 8;

pub const FRAME_TOP_LEFT: char = '\u{250C}';
pub const FRAME_HORIZONTAL: char = '\u{2500}';
pub const FRAME_TOP_RIGHT: char = '\u{2510}';
pub const FRAME_VERTICAL: char = '\u{2502}';
pub const FRAME_BOTTOM_LEFT: char = '\u{2514}';
pub const FRAME_BOTTOM_RIGHT: char = '\u{2518}';

/// The items and current choice of one combo box, and where its field is.
pub struct ComboState {
    /// The choices, in display order.
    pub items: Vec<String>,
    /// Index into `items`, or `None` when nothing is chosen.
    pub selected: Option<usize>,
    /// Rect of the field, so the list can be placed under it.
    pub field: Rect,
}

/// `v` clamped into `lo..=hi`.
pub open spec fn clamp_int(v: int, lo: int, hi: int) -> int {
    if v < lo { lo } else if v > hi { hi } else { v }
}

/// The choice after moving `delta` items from `selected` in a list of `len` items.
pub open spec fn stepped(len: int, selected: Option<usize>, delta: int) -> Option<usize> {
    if len == 0 {
        selected
    } else {
        let current: int = match selected { Some(i) => i as int, None => 0 };
        Some(clamp_int(current + delta, 0, len - 1) as usize)
    }
}

impl ComboState {
    /// The items, as text.
    pub open spec fn spec_items(&self) -> Seq<Seq<char>> {
        self.items@.map_values(|s: String| s@)
    }

    /// The choice, when there is one, names an item.
    pub open spec fn wf(&self) -> bool {
        self.selected matches Some(i) ==> i < self.items@.len()
    }

    /// The text of the current choice, if any.
    pub fn selected_text(&self) -> (t: Option<&str>)
        requires
            self.wf(),
        ensures
            match self.selected {
                Some(i) => t matches Some(s) && s@ == self.spec_items()[i as int],
                None => t is None,
            },
    {
        match self.selected {
            Some(i) => Some(self.items[i].as_str()),
            None => None,
        }
    }

    /// Pull the choice back onto the items: none without items, else at most the last.
    fn clamp(&mut self)
        ensures
            final(self).items == old(self).items,
            final(self).field == old(self).field,
            final(self).selected == (if old(self).items@.len() == 0 {
                None
            } else {
                match old(self).selected {
                    Some(i) => Some(if i < old(self).items@.len() { i } else { (old(self).items@.len() - 1) as usize }),
                    None => None,
                }
            }),
            final(self).wf(),
    {
        if self.items.len() == 0 {
            self.selected = None;
        } else {
            match self.selected {
                Some(i) => {
                    let last = self.items.len() - 1;
                    self.selected = Some(if i < last { i } else { last });
                },
                None => {},
            }
        }
    }
}

/// Colours of the field: its text unfocused and focused, and the arrow.
#[derive(Clone, Copy, Debug, PartialEq, Eq, Structural)]
pub struct ComboColors {
    pub normal: Attr,
    pub selected: Attr,
    pub arrows: Attr,
}

/// A field showing one choice, with a drop-down list of the alternatives.
pub struct ComboBox {
    bounds: Rect,
    id: u16,
    state: ComboState,
    on_change: u16,
    view_state: u16,
}

impl ComboBox {
    pub closed spec fn spec_bounds(&self) -> Rect {
        self.bounds
    }

    pub closed spec fn spec_id(&self) -> u16 {
        self.id
    }

    pub closed spec fn spec_combo(&self) -> ComboState {
        self.state
    }

    pub closed spec fn spec_on_change(&self) -> u16 {
        self.on_change
    }

    pub closed spec fn spec_view_state(&self) -> u16 {
        self.view_state
    }

    pub closed spec fn wf(&self) -> bool {
        self.state.wf()
    }

    /// The items, as text.
    pub open spec fn spec_items(&self) -> Seq<Seq<char>> {
        self.spec_combo().spec_items()
    }

    pub open spec fn spec_selected(&self) -> Option<usize> {
        self.spec_combo().selected
    }

    /// An empty combo box in `bounds`, known to the list it opens as `id`.
    pub fn new(bounds: Rect, id: u16) -> (c: Self)
        ensures
            c.wf(),
            c.spec_bounds() == bounds,
            c.spec_id() == id,
            c.spec_items() == Seq::<Seq<char>>::empty(),
            c.spec_selected() is None,
            c.spec_combo().field == bounds,
            c.spec_on_change() == 0,
            c.spec_view_state() == 0,
    {
        let c = ComboBox {
            bounds,
            id,
            state: ComboState { items: Vec::new(), selected: None, field: bounds },
            on_change: 0,
            view_state: 0,
        };
        assert(c.spec_items() =~= Seq::<Seq<char>>::empty());
        c
    }

    /// A combo box holding `items`, with the first chosen.
    pub fn with_items(bounds: Rect, id: u16, items: Vec<String>) -> (c: Self)
        ensures
            c.wf(),
            c.spec_bounds() == bounds,
            c.spec_id() == id,
            c.spec_items() == items@.map_values(|s: String| s@),
            c.spec_selected() == (if items@.len() > 0 { Some(0usize) } else { None }),
            c.spec_combo().field == bounds,
            c.spec_on_change() == 0,
            c.spec_view_state() == 0,
    {
        let mut c = ComboBox::new(bounds, id);
        c.set_items(items);
        c
    }

    pub fn id(&self) -> (id: u16)
        ensures
            id == self.spec_id(),
    {
        self.id
    }

    /// The items, choice and field position, for the list the field opens.
    pub fn state(&self) -> (s: &ComboState)
        ensures
            *s == self.spec_combo(),
    {
        &self.state
    }

    /// The items, choice and field position, for the list to write a choice into.
    pub fn state_mut(&mut self) -> (s: &mut ComboState)
        ensures
            *s == old(self).spec_combo(),
            final(self).spec_combo() == *final(s),
            final(self).spec_bounds() == old(self).spec_bounds(),
            final(self).spec_id() == old(self).spec_id(),
            final(self).spec_on_change() == old(self).spec_on_change(),
            final(self).spec_view_state() == old(self).spec_view_state(),
    {
        &mut self.state
    }

    /// Replace the items. The first is chosen when nothing was; an existing
    /// choice is pulled back onto the new items.
    pub fn set_items(&mut self, items: Vec<String>)
        requires
            old(self).wf(),
        ensures
            final(self).wf(),
            final(self).spec_items() == items@.map_values(|s: String| s@),
            final(self).spec_selected() == (if items@.len() == 0 {
                None
            } else {
                match old(self).spec_selected() {
                    Some(i) => Some(if i < items@.len() { i } else { (items@.len() - 1) as usize }),
                    None => Some(0usize),
                }
            }),
            final(self).spec_combo().field == old(self).spec_combo().field,
            final(self).spec_bounds() == old(self).spec_bounds(),
            final(self).spec_id() == old(self).spec_id(),
            final(self).spec_on_change() == old(self).spec_on_change(),
            final(self).spec_view_state() == old(self).spec_view_state(),
    {
        let had_selection = self.state.selected.is_some();
        self.state.items = items;
        if !had_selection && self.state.items.len() > 0 {
            self.state.selected = Some(0);
        }
        self.state.clamp();
    }

    /// Append one item; the first item is chosen when nothing was.
    pub fn add_item(&mut self, item: String)
        requires
            old(self).wf(),
        ensures
            final(self).wf(),
            final(self).spec_items() == old(self).spec_items().push(item@),
            final(self).spec_selected() == (match old(self).spec_selected() {
                Some(i) => Some(i),
                None => Some(0usize),
            }),
            final(self).spec_combo().field == old(self).spec_combo().field,
            final(self).spec_bounds() == old(self).spec_bounds(),
            final(self).spec_id() == old(self).spec_id(),
            final(self).spec_on_change() == old(self).spec_on_change(),
            final(self).spec_view_state() == old(self).spec_view_state(),
    {
        self.state.items.push(item);
        if self.state.selected.is_none() {
            self.state.selected = Some(0);
        }
        assert(self.spec_items() =~= old(self).spec_items().push(item@));
    }

    pub fn item_count(&self) -> (n: usize)
        ensures
            n == self.spec_items().len(),
    {
        self.state.items.len()
    }

    pub fn selected(&self) -> (s: Option<usize>)
        ensures
            s == self.spec_selected(),
    {
        self.state.selected
    }

    /// Set the choice; an index past the items is ignored.
    pub fn set_selected(&mut self, index: Option<usize>)
        requires
            old(self).wf(),
        ensures
            final(self).wf(),
            final(self).spec_selected() == (match index {
                None => None,
                Some(i) => if i < old(self).spec_items().len() { Some(i) } else { old(self).spec_selected() },
            }),
            final(self).spec_items() == old(self).spec_items(),
            final(self).spec_combo().field == old(self).spec_combo().field,
            final(self).spec_bounds() == old(self).spec_bounds(),
            final(self).spec_id() == old(self).spec_id(),
            final(self).spec_on_change() == old(self).spec_on_change(),
            final(self).spec_view_state() == old(self).spec_view_state(),
    {
        match index {
            None => {
                self.state.selected = None;
            },
            Some(i) => {
                if i < self.state.items.len() {
                    self.state.selected = Some(i);
                }
            },
        }
    }

    /// The text of the current choice.
    pub fn selected_text(&self) -> (t: Option<String>)
        requires
            self.wf(),
        ensures
            match self.spec_selected() {
                Some(i) => t matches Some(s) && s@ == self.spec_items()[i as int],
                None => t is None,
            },
    {
        match self.state.selected_text() {
            Some(s) => Some(s.to_string()),
            None => None,
        }
    }

    /// The command broadcast when the choice changes; zero sends none.
    pub fn set_on_change(&mut self, command: u16)
        requires
            old(self).wf(),
        ensures
            final(self).wf(),
            final(self).spec_on_change() == command,
            final(self).spec_combo() == old(self).spec_combo(),
            final(self).spec_bounds() == old(self).spec_bounds(),
            final(self).spec_id() == old(self).spec_id(),
            final(self).spec_view_state() == old(self).spec_view_state(),
    {
        self.on_change = command;
    }

    /// Move the choice by `delta` items, stopping at both ends. Returns whether it changed.
    fn step(&mut self, delta: i32) -> (changed: bool)
        requires
            old(self).wf(),
        ensures
            final(self).wf(),
            final(self).spec_selected() == stepped(old(self).spec_items().len() as int, old(self).spec_selected(), delta as int),
            changed == (final(self).spec_selected() != old(self).spec_selected()),
            final(self).spec_items() == old(self).spec_items(),
            final(self).spec_combo().field == old(self).spec_combo().field,
            final(self).spec_bounds() == old(self).spec_bounds(),
            final(self).spec_id() == old(self).spec_id(),
            final(self).spec_on_change() == old(self).spec_on_change(),
            final(self).spec_view_state() == old(self).spec_view_state(),
    {
        let n = self.state.items.len();
        if n == 0 {
            return false;
        }
        let last: i128 = (n - 1) as i128;
        let current: i128 = match self.state.selected {
            Some(i) => i as i128,
            None => 0,
        };
        let target: i128 = current + delta as i128;
        let next: i128 = if target < 0 { 0 } else if target > last { last } else { target };
        let next_index = next as usize;
        let same = match self.state.selected {
            Some(i) => i == next_index,
            None => false,
        };
        if same {
            return false;
        }
        self.state.selected = Some(next_index);
        true
    }

    /// The command that asks the owner of the screen to open the list of this field.
    pub fn open_request(&self) -> (e: Event)
        ensures
            e == (Event { info: self.spec_id(), ..spec_command(CM_SHOW_DROPDOWN) }),
    {
        let mut event = Event::command(CM_SHOW_DROPDOWN);
        event.info = self.id;
        event
    }

    pub fn bounds(&self) -> (r: Rect)
        ensures
            r == self.spec_bounds(),
    {
        self.bounds
    }

    /// Move the field; the list opens under the new place.
    pub fn set_bounds(&mut self, bounds: Rect)
        requires
            old(self).wf(),
        ensures
            final(self).wf(),
            final(self).spec_bounds() == bounds,
            final(self).spec_combo().field == bounds,
            final(self).spec_items() == old(self).spec_items(),
            final(self).spec_selected() == old(self).spec_selected(),
            final(self).spec_id() == old(self).spec_id(),
            final(self).spec_on_change() == old(self).spec_on_change(),
            final(self).spec_view_state() == old(self).spec_view_state(),
    {
        self.bounds = bounds;
        self.state.field = bounds;
    }

    pub fn can_focus(&self) -> (b: bool)
        ensures
            b,
    {
        true
    }

    pub fn view_state(&self) -> (s: u16)
        ensures
            s == self.spec_view_state(),
    {
        self.view_state
    }

    pub fn set_state(&mut self, state: u16)
        requires
            old(self).wf(),
        ensures
            final(self).wf(),
            final(self).spec_view_state() == state,
            final(self).spec_combo() == old(self).spec_combo(),
            final(self).spec_bounds() == old(self).spec_bounds(),
            final(self).spec_id() == old(self).spec_id(),
            final(self).spec_on_change() == old(self).spec_on_change(),
    {
        self.view_state = state;
    }

    /// Whether the field has the input focus.
    pub fn is_focused(&self) -> (b: bool)
        ensures
            b == (self.spec_view_state() & SF_FOCUSED != 0),
    {
        self.view_state & SF_FOCUSED != 0
    }

    /// The event after the choice moved (or not) by a key: a broadcast of the
    /// change command when it moved and there is one, else nothing.
    pub open spec fn spec_step_event(&self, e: Event, changed: bool) -> Event {
        if changed && self.spec_on_change() != 0 {
            spec_broadcast(self.spec_on_change(), self.spec_id())
        } else {
            Event { what: EventType::Nothing, ..e }
        }
    }

    /// Handle an event: a click on the field, or F4 or Alt+Down while focused,
    /// asks for the list; Up and Down step the choice, Home and End jump to the
    /// ends. A change of the choice by a key is broadcast with the change
    /// command, when there is one.
    pub fn handle_event(&mut self, event: &mut Event)
        requires
            old(self).wf(),
        ensures
            final(self).wf(),
            final(self).spec_items() == old(self).spec_items(),
            final(self).spec_combo().field == old(self).spec_combo().field,
            final(self).spec_bounds() == old(self).spec_bounds(),
            final(self).spec_id() == old(self).spec_id(),
            final(self).spec_on_change() == old(self).spec_on_change(),
            final(self).spec_view_state() == old(self).spec_view_state(),
            ({
                let e = *old(event);
                let len = old(self).spec_items().len() as int;
                let sel = old(self).spec_selected();
                let focused = old(self).spec_view_state() & SF_FOCUSED != 0;
                let open = Event { info: old(self).spec_id(), ..spec_command(CM_SHOW_DROPDOWN) };
                if e.what == EventType::MouseDown && spec_in_extent(old(self).spec_bounds(), e.mouse.pos) {
                    *final(event) == open && final(self).spec_selected() == sel
                } else if !focused || e.what != EventType::Keyboard {
                    *final(event) == e && final(self).spec_selected() == sel
                } else if e.key_code == KB_F4 || (e.key_code == KB_DOWN && has_modifier(e.key_modifiers, KM_ALT)) {
                    *final(event) == open && final(self).spec_selected() == sel
                } else if e.key_code == KB_DOWN || e.key_code == KB_UP {
                    let next = stepped(len, sel, if e.key_code == KB_DOWN { 1 } else { -1 });
                    &&& final(self).spec_selected() == next
                    &&& *final(event) == old(self).spec_step_event(e, next != sel)
                } else if e.key_code == KB_HOME || e.key_code == KB_END {
                    &&& final(self).spec_selected() == stepped(
                        len,
                        sel,
                        if e.key_code == KB_HOME { i32::MIN / 2 } else { i32::MAX / 2 },
                    )
                    &&& *final(event) == (Event { what: EventType::Nothing, ..e })
                } else {
                    *final(event) == e && final(self).spec_selected() == sel
                }
            }),
    {
        if event.what == EventType::MouseDown && self.bounds.extent_contains(event.mouse.pos) {
            *event = self.open_request();
            return;
        }
        if !self.is_focused() || event.what != EventType::Keyboard {
            return;
        }
        let alt = event.key_modifiers & KM_ALT == KM_ALT;
        let code = event.key_code;
        if code == KB_F4 || (code == KB_DOWN && alt) {
            *event = self.open_request();
        } else if code == KB_DOWN || code == KB_UP {
            let changed = self.step(if code == KB_DOWN { 1 } else { -1 });
            event.clear();
            if changed && self.on_change != 0 {
                *event = Event::broadcast_with_info(self.on_change, self.id);
            }
        } else if code == KB_HOME {
            self.step(i32::MIN / 2);
            event.clear();
        } else if code == KB_END {
            self.step(i32::MAX / 2);
            event.clear();
        }
    }

    /// The cell in column `j` of the field, `width` cells wide.
    pub open spec fn spec_cell(&self, colors: ComboColors, width: int, j: int) -> Cell {
        let text_attr = if self.spec_view_state() & SF_FOCUSED != 0 { colors.selected } else { colors.normal };
        if j == width - 1 {
            Cell { ch: DROP_ARROW, attr: colors.arrows }
        } else {
            match self.spec_selected() {
                Some(i) => {
                    let text = self.spec_items()[i as int];
                    if 1 <= j < 1 + text.len() && j < width {
                        Cell { ch: text[j - 1], attr: text_attr }
                    } else {
                        Cell { ch: ' ', attr: text_attr }
                    }
                },
                None => Cell { ch: ' ', attr: text_attr },
            }
        }
    }

    /// Draw the field in its own space: the choice from the second cell on,
    /// the arrow in the last cell. Nothing is drawn for a field of no width.
    pub fn draw(&self, colors: ComboColors) -> (lines: Vec<DrawLine>)
        requires
            self.wf(),
        ensures
            ({
                let width = clamp_extent(spec_width(self.spec_bounds()));
                if width == 0 {
                    lines@.len() == 0
                } else {
                    &&& lines@.len() == 1
                    &&& lines@[0].x == 0
                    &&& lines@[0].y == 0
                    &&& lines@[0].buf.data@.len() == width
                    &&& forall|j: int| 0 <= j < width ==> #[trigger] lines@[0].buf.data@[j]
                        == self.spec_cell(colors, width, j)
                }
            }),
    {
        let mut lines: Vec<DrawLine> = Vec::new();
        let width = self.bounds.width_clamped() as usize;
        if width == 0 {
            return lines;
        }
        let text_attr = if self.is_focused() { colors.selected } else { colors.normal };
        let mut buf = DrawBuffer::new(width);
        buf.move_char(0, ' ', text_attr, width);
        let caption_width = width - 1;
        if caption_width > 0 {
            match self.state.selected {
                Some(i) => {
                    let text = string_chars(&self.state.items[i]);
                    let shown = take_chars(&text, caption_width);
                    buf.move_chars(1, &shown, text_attr);
                },
                None => {},
            }
        }
        buf.put_char(width - 1, DROP_ARROW, colors.arrows);
        assert forall|j: int| 0 <= j < width implies #[trigger] buf.data@[j] == self.spec_cell(
            colors,
            width as int,
            j,
        ) by {}
        lines.push(DrawLine::new(0, 0, buf));
        lines
    }
}

/// Whether `v` fits an `i16`.
pub open spec fn in_i16(v: int) -> bool {
    i16::MIN <= v <= i16::MAX
}

/// Rows of the list for `count` items: at least one, at most `MAX_DROPDOWN_ROWS`.
pub open spec fn dropdown_rows(count: int) -> int {
    clamp_int(count, 1, MAX_DROPDOWN_ROWS as int)
}

/// Width of the list under `field`: the field's, but at least eight cells.
pub open spec fn dropdown_width(field: Rect) -> int {
    if spec_width(field) > 8 { spec_width(field) } else { 8 }
}

/// Top row of the list: under the field, or above it when there is no room below.
pub open spec fn dropdown_y(field: Rect, count: int, screen: Rect) -> int {
    let height = dropdown_rows(count) + 2;
    if field.b.y + height > screen.b.y {
        if field.a.y - height > screen.a.y { field.a.y - height } else { screen.a.y as int }
    } else {
        field.b.y as int
    }
}

/// Left column of the list: the field's, pushed back on screen at the right edge.
pub open spec fn dropdown_x(field: Rect, screen: Rect) -> int {
    let width = dropdown_width(field);
    if field.a.x + width > screen.b.x {
        if screen.b.x - width > screen.a.x { screen.b.x - width } else { screen.a.x as int }
    } else {
        field.a.x as int
    }
}

/// Every coordinate of placing the list fits an `i16`.
pub open spec fn dropdown_fits(field: Rect, count: int, screen: Rect) -> bool {
    let height = dropdown_rows(count) + 2;
    let width = dropdown_width(field);
    &&& in_i16(spec_width(field))
    &&& in_i16(field.b.y + height)
    &&& in_i16(field.a.y - height)
    &&& in_i16(field.a.x + width)
    &&& in_i16(screen.b.x - width)
    &&& in_i16(dropdown_x(field, screen) + width)
    &&& in_i16(dropdown_y(field, count, screen) + height)
}

/// Colours of the list: ordinary rows and frame, and the highlighted row.
#[derive(Clone, Copy, Debug, PartialEq, Eq, Structural)]
pub struct DropdownColors {
    pub normal: Attr,
    pub selected: Attr,
}

/// What the list does after an event: keep running, or finish with the chosen
/// item (`None` when cancelled).
#[derive(Clone, Copy, Debug, PartialEq, Eq, Structural)]
pub enum PopupStep {
    Continue,
    Done(Option<usize>),
}

/// The list a combo box drops down, placed in screen space.
pub struct DropdownWindow {
    bounds: Rect,
    cursor: usize,
    top: usize,
    list_rect: Rect,
    count: usize,
}

/// The cell in column `j` of a frame row `outer` cells wide, with the given corners.
pub open spec fn frame_cell(outer: int, left: char, right: char, attr: Attr, j: int) -> Cell {
    if j == outer - 1 {
        Cell { ch: right, attr: attr }
    } else if j == 0 {
        Cell { ch: left, attr: attr }
    } else {
        Cell { ch: FRAME_HORIZONTAL, attr: attr }
    }
}

/// Line `k` (0, 1 or 2) of the three drawn for list row `r`.
pub open spec fn row_line(lines: Seq<DrawLine>, r: int, k: int) -> DrawLine {
    lines[2 + 3 * r + k]
}

impl DropdownWindow {
    /// Row `r` of the list is drawn in `lines`: both frame edges and the item text.
    pub open spec fn row_drawn(&self, lines: Seq<DrawLine>, state: &ComboState, colors: DropdownColors, r: int) -> bool {
        let width = clamp_extent(spec_width(self.spec_list_rect()));
        let edge = seq![Cell { ch: FRAME_VERTICAL, attr: colors.normal }];
        &&& row_line(lines, r, 0).x == 0
        &&& row_line(lines, r, 0).y == 1 + r
        &&& row_line(lines, r, 0).buf.data@ == edge
        &&& row_line(lines, r, 1).x == spec_width(self.spec_bounds()) - 1
        &&& row_line(lines, r, 1).y == 1 + r
        &&& row_line(lines, r, 1).buf.data@ == edge
        &&& row_line(lines, r, 2).x == 1
        &&& row_line(lines, r, 2).y == 1 + r
        &&& row_line(lines, r, 2).buf.data@.len() == width
        &&& forall|j: int| 0 <= j < width ==> #[trigger] row_line(lines, r, 2).buf.data@[j]
            == self.spec_row_cell(state, colors, r, j)
    }

    pub closed spec fn spec_bounds(&self) -> Rect {
        self.bounds
    }

    pub closed spec fn spec_cursor(&self) -> usize {
        self.cursor
    }

    pub closed spec fn spec_top(&self) -> usize {
        self.top
    }

    pub closed spec fn spec_list_rect(&self) -> Rect {
        self.list_rect
    }

    pub closed spec fn spec_count(&self) -> usize {
        self.count
    }

    /// The number of items the list was opened with.
    pub fn count(&self) -> (n: usize)
        ensures
            n == self.spec_count(),
    {
        self.count
    }

    /// The list area sits one cell inside the frame, shows one to eight rows,
    /// starts at or above the cursor, and the cursor names an item when there is one.
    pub closed spec fn wf(&self) -> bool {
        &&& self.list_rect.a.x == 1
        &&& self.list_rect.a.y == 1
        &&& spec_width(self.list_rect) == spec_width(self.bounds) - 2
        &&& spec_height(self.list_rect) == spec_height(self.bounds) - 2
        &&& 1 <= spec_height(self.list_rect) <= MAX_DROPDOWN_ROWS
        &&& 8 <= spec_width(self.bounds) <= i16::MAX
        &&& (self.cursor < self.count || self.cursor == 0)
        &&& self.top <= self.cursor
    }

    /// Number of visible rows.
    pub open spec fn spec_rows(&self) -> int {
        clamp_extent(spec_height(self.spec_list_rect()))
    }

    /// The list for `state`, placed just under its field and kept on `screen`.
    pub fn new(state: &ComboState, screen: Rect) -> (w: Self)
        requires
            state.wf(),
            dropdown_fits(state.field, state.items@.len() as int, screen),
        ensures
            w.wf(),
            w.spec_bounds().a.x == dropdown_x(state.field, screen),
            w.spec_bounds().a.y == dropdown_y(state.field, state.items@.len() as int, screen),
            w.spec_bounds().b.x == dropdown_x(state.field, screen) + dropdown_width(state.field),
            w.spec_bounds().b.y == dropdown_y(state.field, state.items@.len() as int, screen)
                + dropdown_rows(state.items@.len() as int) + 2,
            w.spec_list_rect().a.x == 1,
            w.spec_list_rect().a.y == 1,
            w.spec_list_rect().b.x == dropdown_width(state.field) - 1,
            w.spec_list_rect().b.y == 1 + dropdown_rows(state.items@.len() as int),
            w.spec_cursor() == (match state.selected { Some(i) => i, None => 0 }),
            w.spec_top() == 0,
            w.spec_count() == state.items@.len(),
    {
        let field = state.field;
        let count = state.items.len();
        let rows: i32 = if count < 1 { 1 } else if count > 8 { 8 } else { count as i32 };
        let height: i32 = rows + 2;
        let fw: i32 = field.b.x as i32 - field.a.x as i32;
        let width: i32 = if fw > 8 { fw } else { 8 };
        let mut x: i32 = field.a.x as i32;
        let mut y: i32 = field.b.y as i32;
        if y + height > screen.b.y as i32 {
            let up = field.a.y as i32 - height;
            y = if up > screen.a.y as i32 { up } else { screen.a.y as i32 };
        }
        if x + width > screen.b.x as i32 {
            let left = screen.b.x as i32 - width;
            x = if left > screen.a.x as i32 { left } else { screen.a.x as i32 };
        }
        let bounds = Rect::new(x as i16, y as i16, (x + width) as i16, (y + height) as i16);
        let list_rect = Rect::new(1, 1, (width - 1) as i16, (1 + rows) as i16);
        let cursor = match state.selected {
            Some(i) => i,
            None => 0,
        };
        DropdownWindow { bounds, cursor, top: 0, list_rect, count }
    }

    pub fn bounds(&self) -> (r: Rect)
        ensures
            r == self.spec_bounds(),
    {
        self.bounds
    }

    pub fn cursor(&self) -> (c: usize)
        ensures
            c == self.spec_cursor(),
    {
        self.cursor
    }

    pub fn top(&self) -> (t: usize)
        ensures
            t == self.spec_top(),
    {
        self.top
    }

    pub fn list_rect(&self) -> (r: Rect)
        ensures
            r == self.spec_list_rect(),
    {
        self.list_rect
    }

    pub fn visible_rows(&self) -> (n: usize)
        ensures
            n == self.spec_rows(),
    {
        self.list_rect.height_clamped() as usize
    }

    /// Scroll just enough to show the cursor.
    fn scroll_into_view(&mut self)
        requires
            old(self).list_rect.a.x == 1,
            old(self).list_rect.a.y == 1,
            spec_width(old(self).list_rect) == spec_width(old(self).bounds) - 2,
            spec_height(old(self).list_rect) == spec_height(old(self).bounds) - 2,
            1 <= spec_height(old(self).list_rect) <= MAX_DROPDOWN_ROWS,
            8 <= spec_width(old(self).bounds) <= i16::MAX,
            old(self).cursor < old(self).count || old(self).cursor == 0,
        ensures
            final(self).wf(),
            final(self).spec_cursor() == old(self).cursor,
            final(self).spec_bounds() == old(self).bounds,
            final(self).spec_list_rect() == old(self).list_rect,
            final(self).spec_count() == old(self).count,
            final(self).spec_top() == (if old(self).cursor < old(self).top {
                old(self).cursor
            } else if old(self).cursor >= old(self).top + old(self).spec_rows() {
                (old(self).cursor + 1 - old(self).spec_rows()) as usize
            } else {
                old(self).top
            }),
    {
        let rows = self.visible_rows();
        if self.cursor < self.top {
            self.top = self.cursor;
        } else if self.cursor - self.top >= rows {
            self.top = self.cursor + 1 - rows;
        }
    }

    /// Move the cursor by `delta` items, stopping at both ends, and show it.
    pub fn move_cursor(&mut self, delta: i32)
        requires
            old(self).wf(),
        ensures
            final(self).wf(),
            final(self).spec_bounds() == old(self).spec_bounds(),
            final(self).spec_list_rect() == old(self).spec_list_rect(),
            final(self).spec_count() == old(self).spec_count(),
            final(self).spec_cursor() == (if old(self).spec_count() == 0 {
                old(self).spec_cursor()
            } else {
                clamp_int(old(self).spec_cursor() + delta, 0, old(self).spec_count() - 1) as usize
            }),
            old(self).spec_count() == 0 ==> final(self).spec_top() == old(self).spec_top(),
            final(self).spec_top() <= final(self).spec_cursor() < final(self).spec_top() + final(self).spec_rows()
                || final(self).spec_count() == 0,
    {
        if self.count == 0 {
            return;
        }
        let last: i128 = (self.count - 1) as i128;
        let target: i128 = self.cursor as i128 + delta as i128;
        let next: i128 = if target < 0 { 0 } else if target > last { last } else { target };
        self.cursor = next as usize;
        self.scroll_into_view();
    }

    /// The item under `pos` (in the list's own space), if the point is on a listed item.
    pub fn item_at(&self, pos: Point) -> (r: Option<usize>)
        requires
            self.wf(),
        ensures
            r == (if spec_contains(self.spec_list_rect(), pos)
                && self.spec_top() + (pos.y - self.spec_list_rect().a.y) < self.spec_count() {
                Some((self.spec_top() + (pos.y - self.spec_list_rect().a.y)) as usize)
            } else {
                None
            }),
    {
        if !self.list_rect.contains(pos) {
            return None;
        }
        let row = (pos.y as i32 - self.list_rect.a.y as i32) as usize;
        if row < self.count && self.top < self.count - row {
            Some(self.top + row)
        } else {
            None
        }
    }

    /// Write the cursor into `state` as its choice and return it; `None` without items.
    pub fn commit(&mut self, state: &mut ComboState) -> (r: Option<usize>)
        requires
            old(self).wf(),
            old(state).wf(),
        ensures
            final(self).spec_bounds() == old(self).spec_bounds(),
            final(self).spec_list_rect() == old(self).spec_list_rect(),
            final(self).spec_count() == old(self).spec_count(),
            final(self).spec_cursor() == old(self).spec_cursor(),
            final(self).spec_top() == old(self).spec_top(),
            final(self).wf(),
            final(state).items == old(state).items,
            final(state).field == old(state).field,
            r == (if old(state).items@.len() == 0 {
                None
            } else {
                Some(if old(self).spec_cursor() < old(state).items@.len() {
                    old(self).spec_cursor()
                } else {
                    (old(state).items@.len() - 1) as usize
                })
            }),
            final(state).selected == (match r { Some(i) => Some(i), None => old(state).selected }),
            final(state).wf(),
    {
        let n = state.items.len();
        if n == 0 {
            return None;
        }
        let idx = if self.cursor < n { self.cursor } else { n - 1 };
        state.selected = Some(idx);
        Some(idx)
    }

    /// Handle one event taken in screen space: Enter or a click on an item
    /// chooses (and writes the choice into `state`), Esc, F4 or a click outside
    /// the list cancels, the arrow, page and Home/End keys and the wheel move the
    /// cursor.
    pub fn step_event(&mut self, state: &mut ComboState, event: Event) -> (step: PopupStep)
        requires
            old(self).wf(),
            old(state).wf(),
            old(state).items@.len() == old(self).spec_count(),
            in_i16(event.mouse.pos.x - old(self).spec_bounds().a.x),
            in_i16(event.mouse.pos.y - old(self).spec_bounds().a.y),
        ensures
            final(self).wf(),
            final(state).wf(),
            final(state).items == old(state).items,
            final(state).field == old(state).field,
            final(state).items@.len() == final(self).spec_count(),
            final(self).spec_bounds() == old(self).spec_bounds(),
            final(self).spec_list_rect() == old(self).spec_list_rect(),
            final(self).spec_count() == old(self).spec_count(),
            ({
                let n = old(self).spec_count() as int;
                let cur = old(self).spec_cursor() as int;
                let rows = old(self).spec_rows();
                let moved = |d: int| if n == 0 { cur } else { clamp_int(cur + d, 0, n - 1) };
                let p = Point {
                    x: (event.mouse.pos.x - old(self).spec_bounds().a.x) as i16,
                    y: (event.mouse.pos.y - old(self).spec_bounds().a.y) as i16,
                };
                let hit = old(self).spec_top() + (p.y - old(self).spec_list_rect().a.y);
                if event.what == EventType::Keyboard {
                    let k = event.key_code;
                    if k == KB_ENTER {
                        &&& step == PopupStep::Done(if n == 0 { None } else { Some(cur as usize) })
                        &&& final(state).selected == (if n == 0 { old(state).selected } else { Some(cur as usize) })
                    } else if k == KB_ESC || k == KB_F4 {
                        step == PopupStep::Done(None) && final(state).selected == old(state).selected
                    } else {
                        &&& step == PopupStep::Continue
                        &&& final(state).selected == old(state).selected
                        &&& final(self).spec_cursor() == (
                            if k == KB_UP { moved(-1) }
                            else if k == KB_DOWN { moved(1) }
                            else if k == KB_HOME { moved(i32::MIN / 2) }
                            else if k == KB_END { moved(i32::MAX / 2) }
                            else if k == KB_PGUP { moved(-rows) }
                            else if k == KB_PGDN { moved(rows) }
                            else { cur })
                    }
                } else if event.what == EventType::MouseDown {
                    if spec_contains(old(self).spec_list_rect(), p) && hit < n {
                        &&& step == PopupStep::Done(Some(hit as usize))
                        &&& final(state).selected == Some(hit as usize)
                        &&& final(self).spec_cursor() == hit
                    } else if !spec_in_extent(old(self).spec_bounds(), p) {
                        step == PopupStep::Done(None) && final(state).selected == old(state).selected
                    } else {
                        step == PopupStep::Continue && final(state).selected == old(state).selected
                            && final(self).spec_cursor() == cur
                    }
                } else {
                    &&& step == PopupStep::Continue
                    &&& final(state).selected == old(state).selected
                    &&& final(self).spec_cursor() == (
                        if event.what == EventType::MouseWheelUp { moved(-1) }
                        else if event.what == EventType::MouseWheelDown { moved(1) }
                        else { cur })
                }
            }),
    {
        let ox = self.bounds.a.x;
        let oy = self.bounds.a.y;
        let p = Point::new((event.mouse.pos.x as i32 - ox as i32) as i16, (event.mouse.pos.y as i32 - oy as i32) as i16);
        if event.what == EventType::Keyboard {
            let k = event.key_code;
            if k == KB_ENTER {
                return PopupStep::Done(self.commit(state));
            } else if k == KB_ESC || k == KB_F4 {
                return PopupStep::Done(None);
            } else if k == KB_UP {
                self.move_cursor(-1);
            } else if k == KB_DOWN {
                self.move_cursor(1);
            } else if k == KB_HOME {
                self.move_cursor(i32::MIN / 2);
            } else if k == KB_END {
                self.move_cursor(i32::MAX / 2);
            } else if k == KB_PGUP {
                let rows = self.visible_rows() as i32;
                self.move_cursor(-rows);
            } else if k == KB_PGDN {
                let rows = self.visible_rows() as i32;
                self.move_cursor(rows);
            }
            PopupStep::Continue
        } else if event.what == EventType::MouseDown {
            match self.item_at(p) {
                Some(idx) => {
                    self.cursor = idx;
                    PopupStep::Done(self.commit(state))
                },
                None => {
                    if !self.bounds.extent_contains(p) {
                        PopupStep::Done(None)
                    } else {
                        PopupStep::Continue
                    }
                },
            }
        } else if event.what == EventType::MouseWheelUp {
            self.move_cursor(-1);
            PopupStep::Continue
        } else if event.what == EventType::MouseWheelDown {
            self.move_cursor(1);
            PopupStep::Continue
        } else {
            PopupStep::Continue
        }
    }

    /// The cell in column `j` of list row `r`.
    pub open spec fn spec_row_cell(&self, state: &ComboState, colors: DropdownColors, r: int, j: int) -> Cell {
        let idx = self.spec_top() + r;
        let attr = if idx == self.spec_cursor() { colors.selected } else { colors.normal };
        if idx < state.items@.len() && j < state.spec_items()[idx].len() {
            Cell { ch: state.spec_items()[idx][j], attr: attr }
        } else {
            Cell { ch: ' ', attr: attr }
        }
    }

    /// Draw the list in its own space: the top and bottom frame rows first, then
    /// for each visible row its left edge, right edge and item text.
    pub fn draw_popup(&self, state: &ComboState, colors: DropdownColors) -> (lines: Vec<DrawLine>)
        requires
            self.wf(),
        ensures
            ({
                let width = clamp_extent(spec_width(self.spec_list_rect()));
                let outer = clamp_extent(spec_width(self.spec_bounds()));
                let rows = self.spec_rows();
                let normal = colors.normal;
                &&& lines@.len() == 2 + 3 * rows
                &&& lines@[0].x == 0 && lines@[0].y == 0
                &&& lines@[0].buf.data@.len() == outer
                &&& (forall|j: int| 0 <= j < outer ==> #[trigger] lines@[0].buf.data@[j]
                    == frame_cell(outer, FRAME_TOP_LEFT, FRAME_TOP_RIGHT, normal, j))
                &&& lines@[1].x == 0 && lines@[1].y == spec_height(self.spec_bounds()) - 1
                &&& lines@[1].buf.data@.len() == outer
                &&& (forall|j: int| 0 <= j < outer ==> #[trigger] lines@[1].buf.data@[j]
                    == frame_cell(outer, FRAME_BOTTOM_LEFT, FRAME_BOTTOM_RIGHT, normal, j))
                &&& forall|r: int| 0 <= r < rows ==> #[trigger] self.row_drawn(lines@, state, colors, r)
            }),
    {
        let width = self.list_rect.width_clamped() as usize;
        let outer = self.bounds.width_clamped() as usize;
        let normal = colors.normal;
        let mut lines: Vec<DrawLine> = Vec::new();
        let mut top_row = DrawBuffer::new(outer);
        top_row.move_char(0, FRAME_HORIZONTAL, normal, outer);
        top_row.put_char(0, FRAME_TOP_LEFT, normal);
        top_row.put_char(outer - 1, FRAME_TOP_RIGHT, normal);
        assert forall|j: int| 0 <= j < outer implies #[trigger] top_row.data@[j]
            == frame_cell(outer as int, FRAME_TOP_LEFT, FRAME_TOP_RIGHT, normal, j) by {}
        lines.push(DrawLine::new(0, 0, top_row));
        let mut bottom = DrawBuffer::new(outer);
        bottom.move_char(0, FRAME_HORIZONTAL, normal, outer);
        bottom.put_char(0, FRAME_BOTTOM_LEFT, normal);
        bottom.put_char(outer - 1, FRAME_BOTTOM_RIGHT, normal);
        assert forall|j: int| 0 <= j < outer implies #[trigger] bottom.data@[j]
            == frame_cell(outer as int, FRAME_BOTTOM_LEFT, FRAME_BOTTOM_RIGHT, normal, j) by {}
        let height = self.bounds.height_clamped();
        lines.push(DrawLine::new(0, height - 1, bottom));
        let rows = self.visible_rows();
        let right: i16 = (outer - 1) as i16;
        let mut r: usize = 0;
        while r < rows
            invariant
                self.wf(),
                rows == self.spec_rows(),
                width == clamp_extent(spec_width(self.spec_list_rect())),
                outer == clamp_extent(spec_width(self.spec_bounds())),
                right == spec_width(self.spec_bounds()) - 1,
                normal == colors.normal,
                r <= rows,
                lines@.len() == 2 + 3 * r,
                lines@[0].x == 0 && lines@[0].y == 0,
                lines@[0].buf.data@.len() == outer,
                forall|j: int| 0 <= j < outer ==> #[trigger] lines@[0].buf.data@[j]
                    == frame_cell(outer as int, FRAME_TOP_LEFT, FRAME_TOP_RIGHT, normal, j),
                lines@[1].x == 0 && lines@[1].y == spec_height(self.spec_bounds()) - 1,
                lines@[1].buf.data@.len() == outer,
                forall|j: int| 0 <= j < outer ==> #[trigger] lines@[1].buf.data@[j]
                    == frame_cell(outer as int, FRAME_BOTTOM_LEFT, FRAME_BOTTOM_RIGHT, normal, j),
                forall|q: int| 0 <= q < r ==> #[trigger] self.row_drawn(lines@, state, colors, q),
            decreases rows - r,
        {
            let sum = self.top.checked_add(r);
            let n_items = state.items.len();
            let listed = match sum {
                Some(i) => i < n_items,
                None => false,
            };
            let at_cursor = match sum {
                Some(i) => i == self.cursor,
                None => false,
            };
            assert(listed == (self.spec_top() + r < state.items@.len()));
            assert(at_cursor == (self.spec_top() + r == self.spec_cursor()));
            let attr = if at_cursor { colors.selected } else { normal };
            let mut buf = DrawBuffer::new(width);
            buf.move_char(0, ' ', attr, width);
            if listed {
                let idx = self.top + r;
                let text = string_chars(&state.items[idx]);
                buf.move_chars(0, &text, attr);
                assert forall|j: int| 0 <= j < width implies #[trigger] buf.data@[j]
                    == self.spec_row_cell(state, colors, r as int, j) by {
                    assert(state.spec_items()[idx as int] == text@);
                }
            } else {
                assert forall|j: int| 0 <= j < width implies #[trigger] buf.data@[j]
                    == self.spec_row_cell(state, colors, r as int, j) by {}
            }
            let ghost row_cells = buf.data@;
            let y: i16 = (1 + r) as i16;
            let mut edge = DrawBuffer::new(1);
            edge.put_char(0, FRAME_VERTICAL, normal);
            let mut edge2 = DrawBuffer::new(1);
            edge2.put_char(0, FRAME_VERTICAL, normal);
            assert(edge.data@ =~= seq![Cell { ch: FRAME_VERTICAL, attr: normal }]);
            assert(edge2.data@ =~= seq![Cell { ch: FRAME_VERTICAL, attr: normal }]);
            let ghost old_lines = lines@;
            lines.push(DrawLine::new(0, y, edge));
            lines.push(DrawLine::new(right, y, edge2));
            lines.push(DrawLine::new(1, y, buf));
            assert(row_line(lines@, r as int, 0).y == 1 + r);
            assert(row_line(lines@, r as int, 0).x == 0);
            assert(row_line(lines@, r as int, 0).buf.data@ == seq![Cell { ch: FRAME_VERTICAL, attr: normal }]);
            assert(row_line(lines@, r as int, 1).x == right);
            assert(row_line(lines@, r as int, 1).y == 1 + r);
            assert(row_line(lines@, r as int, 1).buf.data@ == seq![Cell { ch: FRAME_VERTICAL, attr: normal }]);
            assert(row_line(lines@, r as int, 2).x == 1);
            assert(row_line(lines@, r as int, 2).y == 1 + r);
            assert(row_line(lines@, r as int, 2).buf.data@ == row_cells);
            assert forall|j: int| 0 <= j < width implies #[trigger] row_line(lines@, r as int, 2).buf.data@[j]
                == self.spec_row_cell(state, colors, r as int, j) by {
                assert(row_cells[j] == self.spec_row_cell(state, colors, r as int, j));
            }
            assert forall|j: int| 0 <= j < width implies #[trigger] row_line(lines@, r as int, 2).buf.data@[j]
                == self.spec_row_cell(state, colors, r as int, j) by {
                assert(row_cells[j] == self.spec_row_cell(state, colors, r as int, j));
            }
            assert(self.row_drawn(lines@, state, colors, r as int));
            assert forall|q: int| 0 <= q < r implies #[trigger] self.row_drawn(lines@, state, colors, q) by {
                assert(self.row_drawn(old_lines, state, colors, q));
                assert(row_line(lines@, q, 0) == row_line(old_lines, q, 0));
                assert(row_line(lines@, q, 1) == row_line(old_lines, q, 1));
                assert(row_line(lines@, q, 2) == row_line(old_lines, q, 2));
            }
            r = r + 1;
        }
        lines
    }
}

/// Builds a combo box from its bounds, id, items, choice and change command.
pub struct ComboBoxBuilder {
    bounds: Option<Rect>,
    id: u16,
    items: Vec<String>,
    selected: Option<usize>,
    on_change: u16,
}

impl ComboBoxBuilder {
    pub closed spec fn spec_bounds(&self) -> Option<Rect> {
        self.bounds
    }

    pub closed spec fn spec_id(&self) -> u16 {
        self.id
    }

    pub closed spec fn spec_items(&self) -> Seq<Seq<char>> {
        self.items@.map_values(|s: String| s@)
    }

    pub closed spec fn spec_selected(&self) -> Option<usize> {
        self.selected
    }

    pub closed spec fn spec_on_change(&self) -> u16 {
        self.on_change
    }

    pub fn new() -> (b: Self)
        ensures
            b.spec_bounds() is None,
            b.spec_id() == 0,
            b.spec_items() == Seq::<Seq<char>>::empty(),
            b.spec_selected() is None,
            b.spec_on_change() == 0,
    {
        let b = ComboBoxBuilder { bounds: None, id: 0, items: Vec::new(), selected: None, on_change: 0 };
        assert(b.spec_items() =~= Seq::<Seq<char>>::empty());
        b
    }

    pub fn bounds(self, bounds: Rect) -> (b: Self)
        ensures
            b.spec_bounds() == Some(bounds),
            b.spec_id() == self.spec_id(),
            b.spec_items() == self.spec_items(),
            b.spec_selected() == self.spec_selected(),
            b.spec_on_change() == self.spec_on_change(),
    {
        ComboBoxBuilder { bounds: Some(bounds), ..self }
    }

    pub fn id(self, id: u16) -> (b: Self)
        ensures
            b.spec_bounds() == self.spec_bounds(),
            b.spec_id() == id,
            b.spec_items() == self.spec_items(),
            b.spec_selected() == self.spec_selected(),
            b.spec_on_change() == self.spec_on_change(),
    {
        ComboBoxBuilder { id, ..self }
    }

    pub fn items(self, items: Vec<String>) -> (b: Self)
        ensures
            b.spec_bounds() == self.spec_bounds(),
            b.spec_id() == self.spec_id(),
            b.spec_items() == items@.map_values(|s: String| s@),
            b.spec_selected() == self.spec_selected(),
            b.spec_on_change() == self.spec_on_change(),
    {
        ComboBoxBuilder { items, ..self }
    }

    pub fn selected(self, index: usize) -> (b: Self)
        ensures
            b.spec_bounds() == self.spec_bounds(),
            b.spec_id() == self.spec_id(),
            b.spec_items() == self.spec_items(),
            b.spec_selected() == Some(index),
            b.spec_on_change() == self.spec_on_change(),
    {
        ComboBoxBuilder { selected: Some(index), ..self }
    }

    pub fn on_change(self, command: u16) -> (b: Self)
        ensures
            b.spec_bounds() == self.spec_bounds(),
            b.spec_id() == self.spec_id(),
            b.spec_items() == self.spec_items(),
            b.spec_selected() == self.spec_selected(),
            b.spec_on_change() == command,
    {
        ComboBoxBuilder { on_change: command, ..self }
    }

    /// The combo box: the given items with the first chosen, or the given
    /// choice when it names an item. The bounds must have been given.
    pub fn build(self) -> (c: ComboBox)
        requires
            self.spec_bounds() is Some,
        ensures
            c.wf(),
            c.spec_bounds() == self.spec_bounds()->0,
            c.spec_combo().field == self.spec_bounds()->0,
            c.spec_id() == self.spec_id(),
            c.spec_items() == self.spec_items(),
            c.spec_selected() == (match self.spec_selected() {
                Some(i) => if i < self.spec_items().len() {
                    Some(i)
                } else if self.spec_items().len() > 0 {
                    Some(0usize)
                } else {
                    None
                },
                None => if self.spec_items().len() > 0 { Some(0usize) } else { None },
            }),
            c.spec_on_change() == self.spec_on_change(),
            c.spec_view_state() == 0,
    {
        let bounds = match self.bounds {
            Some(b) => b,
            None => Rect::new(0, 0, 0, 0),
        };
        let mut combo = ComboBox::with_items(bounds, self.id, self.items);
        match self.selected {
            Some(i) => combo.set_selected(Some(i)),
            None => {},
        }
        combo.set_on_change(self.on_change);
        combo
    }

    pub fn build_boxed(self) -> (c: Box<ComboBox>)
        requires
            self.spec_bounds() is Some,
        ensures
            c.wf(),
            c.spec_bounds() == self.spec_bounds()->0,
            c.spec_id() == self.spec_id(),
            c.spec_items() == self.spec_items(),
            c.spec_on_change() == self.spec_on_change(),
    {
        Box::new(self.build())
    }
}

impl Default for ComboBoxBuilder {
    fn default() -> (b: Self)
        ensures
            b.spec_bounds() is None,
            b.spec_id() == 0,
            b.spec_items() == Seq::<Seq<char>>::empty(),
            b.spec_selected() is None,
            b.spec_on_change() == 0,
    {
        ComboBoxBuilder::new()
    }
}

} // verus!
