//! A popup menu: a framed column of menu items, one row each, under a top
//! border and over a bottom border.
//!
//! Up and Down move the highlight between selectable items, a letter jumps to
//! the item it is the accelerator of, Enter or a release of the left button
//! issues the highlighted item's command, and Esc or a click outside cancels
//! with command 0.
use vstd::prelude::*;
use crate::event::{
    spec_command, Event, EventType, KB_DOWN, KB_ENTER, KB_ESC, KB_UP, MB_LEFT_BUTTON,
};
use crate::draw::{cstr_cells, fill_cells, filled_row, put_cells, put_text, Attr, Cell, DrawBuffer, DrawLine};
use crate::geometry::{spec_contains, spec_height, spec_width, Point, Rect};
use crate::menu_data::{Menu, MenuItem};
use crate::state::SF_SHADOW;
use crate::text::{spec_to_lower, string_chars};
use crate::views::dialog::KB_ESC_ESC;
use crate::views::menu_viewer::{answers_char, next_current, prev_current, MenuViewerState};

verus! {

/// The number of characters of `t` that are shown: all but the tildes.
pub open spec fn visible_len(t: Seq<char>) -> nat
    decreases t.len(),
{
    if t.len() == 0 {
        0
    } else {
        visible_len(t.drop_last()) + if t.last() == '~' { 0nat } else { 1nat }
    }
}

/// The columns an item needs: its text, its shortcut label and a submenu arrow,
/// with padding; a separator needs only the borders.
pub open spec fn item_width(it: MenuItem) -> int {
    match it {
        MenuItem::Regular { text, shortcut, .. } => visible_len(text@) as int + (match shortcut {
            Some(s) => s@.len() as int + 2,
            None => 0int,
        }) + 6,
        MenuItem::SubMenu { text, .. } => visible_len(text@) as int + 9,
        MenuItem::Separator => 4,
    }
}

/// The width of a box holding the first `k` items: at least 10.
pub open spec fn box_width(items: Seq<MenuItem>, k: int) -> int
    decreases k,
{
    if k <= 0 {
        10
    } else {
        let w = box_width(items, k - 1);
        let iw = item_width(items[k - 1]);
        if iw > w {
            iw
        } else {
            w
        }
    }
}

/// The bounds of a box for `items` whose top-left corner is `pos`.
pub open spec fn menu_box_bounds(pos: Point, items: Seq<MenuItem>) -> Rect {
    Rect {
        a: pos,
        b: Point { x: (pos.x + box_width(items, items.len() as int)) as i16, y: (pos.y + items.len() + 2) as i16 },
    }
}

/// Whether a box for `items` at `pos` has coordinates inside `i16`.
pub open spec fn menu_box_fits(pos: Point, items: Seq<MenuItem>) -> bool {
    &&& box_width(items, items.len() as int) <= i16::MAX
    &&& pos.x + box_width(items, items.len() as int) <= i16::MAX
    &&& items.len() + 2 <= i16::MAX
    &&& pos.y + items.len() + 2 <= i16::MAX
}

/// The row of item `i` in a box with bounds `b`.
pub open spec fn item_rect(b: Rect, i: int) -> Rect {
    Rect { a: Point { x: b.a.x, y: (b.a.y + 1 + i) as i16 }, b: Point { x: b.b.x, y: (b.a.y + 2 + i) as i16 } }
}

/// The item among the first `n` whose row holds `p`.
pub open spec fn item_at(b: Rect, n: int, p: Point) -> Option<int> {
    let i = p.y - b.a.y - 1;
    if b.a.x <= p.x < b.b.x && 0 <= i < n {
        Some(i)
    } else {
        None
    }
}

/// The first item answering accelerator `c`.
pub open spec fn is_first_answering(items: Seq<MenuItem>, c: char, i: int) -> bool {
    &&& 0 <= i < items.len()
    &&& answers_char(items[i], c)
    &&& forall|j: int| 0 <= j < i ==> !answers_char(#[trigger] items[j], c)
}

/// The character typed by a printable key.
pub open spec fn typed_char(key: u16) -> char {
    (key as u8) as char
}

/// Whether `key` is a printable key other than the ones the menu moves with.
pub open spec fn is_printable_key(key: u16) -> bool {
    32 <= key < 127
}

/// The command an item issues when chosen: only enabled command items issue one.
pub open spec fn chosen_command(it: MenuItem) -> Option<u16> {
    match it {
        MenuItem::Regular { command, enabled, .. } => if enabled { Some(command) } else { None },
        _ => None,
    }
}

/// The colours of a menu: items, the highlighted item, disabled items, and
/// accelerator letters.
#[derive(Clone, Copy, Debug, PartialEq, Eq, Structural)]
pub struct MenuColors {
    pub normal: Attr,
    pub selected: Attr,
    pub disabled: Attr,
    pub shortcut: Attr,
}

/// A border row `w` wide: `l`, then `mid` repeated, then `r`, all in `attr`.
pub open spec fn frame_row(w: int, l: char, mid: char, r: char, attr: Attr) -> Seq<Cell> {
    fill_cells(
        fill_cells(filled_row(w, Cell { ch: mid, attr: attr }), 0, Cell { ch: l, attr: attr }, 1),
        w - 1,
        Cell { ch: r, attr: attr },
        1,
    )
}

/// The row of `item` in a menu `w` wide, highlighted when `selected`: a
/// separator is a divider line; an item is its text from column 2 (tildes
/// marking its accelerator), a command item's shortcut label right-aligned
/// two columns from the edge when it fits, a submenu's arrow, and side
/// borders.
pub open spec fn menu_item_row(w: int, item: MenuItem, selected: bool, c: MenuColors) -> Seq<Cell> {
    match item {
        MenuItem::Separator => frame_row(w, '\u{251c}', '\u{2500}', '\u{2524}', c.normal),
        MenuItem::Regular { text, enabled, shortcut, .. } => {
            let color = if selected { c.selected } else if enabled { c.normal } else { c.disabled };
            let accel = if selected { c.selected } else { c.shortcut };
            let base = fill_cells(filled_row(w, Cell { ch: ' ', attr: color }), 0, Cell { ch: '\u{2502}', attr: c.normal }, 1);
            let texted = put_cells(base, 2, cstr_cells(text@, color, accel, false));
            let labelled = match shortcut {
                Some(sc) => if sc@.len() + 2 <= w {
                    put_text(texted, w - sc@.len() - 2, sc@, color)
                } else {
                    texted
                },
                None => texted,
            };
            fill_cells(labelled, w - 1, Cell { ch: '\u{2502}', attr: c.normal }, 1)
        },
        MenuItem::SubMenu { text, .. } => {
            let color = if selected { c.selected } else { c.normal };
            let accel = if selected { c.selected } else { c.shortcut };
            let base = fill_cells(filled_row(w, Cell { ch: ' ', attr: color }), 0, Cell { ch: '\u{2502}', attr: c.normal }, 1);
            let texted = put_cells(base, 2, cstr_cells(text@, color, accel, false));
            let arrowed = fill_cells(texted, w - 2, Cell { ch: '\u{25ba}', attr: color }, 1);
            fill_cells(arrowed, w - 1, Cell { ch: '\u{2502}', attr: c.normal }, 1)
        },
    }
}

/// The number of item rows a box `h` high shows for `n` items.
pub open spec fn shown_items(h: int, n: int) -> int {
    if n < h - 2 { n } else { h - 2 }
}

/// Whether line `i + 1` of `lines` is the row of item `i` of a box with
/// bounds `b`.
pub open spec fn item_row_drawn(lines: Seq<DrawLine>, i: int, b: Rect, items: Seq<MenuItem>, cur: Option<usize>, c: MenuColors) -> bool {
    &&& lines[i + 1].x == b.a.x
    &&& lines[i + 1].y == b.a.y + 1 + i
    &&& lines[i + 1].buf.data@ == menu_item_row(spec_width(b), items[i], cur == Some(i as usize), c)
}

/// Whether `lines` are the drawing of a box with bounds `b`, items `items`
/// and highlighted item `cur`: nothing when smaller than 4 by 2; otherwise the
/// top border, one row per item that fits, and the bottom border under them.
pub open spec fn menu_box_drawn(b: Rect, items: Seq<MenuItem>, cur: Option<usize>, c: MenuColors, lines: Seq<DrawLine>) -> bool {
    let w = spec_width(b);
    let h = spec_height(b);
    if h < 2 || w < 4 {
        lines.len() == 0
    } else {
        let k = shown_items(h, items.len() as int);
        &&& lines.len() == k + 2
        &&& lines[0].x == b.a.x && lines[0].y == b.a.y
        &&& lines[0].buf.data@ == frame_row(w, '\u{250c}', '\u{2500}', '\u{2510}', c.normal)
        &&& forall|i: int| 0 <= i < k ==> #[trigger] item_row_drawn(lines, i, b, items, cur, c)
        &&& lines[k + 1].x == b.a.x && lines[k + 1].y == b.a.y + 1 + k
        &&& lines[k + 1].buf.data@ == frame_row(w, '\u{2514}', '\u{2500}', '\u{2518}', c.normal)
    }
}

/// A border row `w` wide at (`x`, `y`).
fn frame_line(x: i16, y: i16, w: usize, l: char, mid: char, r: char, attr: Attr) -> (line: DrawLine)
    requires
        w >= 1,
    ensures
        line.x == x,
        line.y == y,
        line.buf.data@ == frame_row(w as int, l, mid, r, attr),
{
    let mut buf = DrawBuffer::new(w);
    buf.move_char(0, mid, attr, w);
    assert(buf.data@ =~= filled_row(w as int, Cell { ch: mid, attr: attr }));
    buf.put_char(0, l, attr);
    buf.put_char(w - 1, r, attr);
    DrawLine::new(x, y, buf)
}

/// The row of `item` at (`x`, `y`), `w` wide.
fn item_line(x: i16, y: i16, w: usize, item: &MenuItem, selected: bool, c: MenuColors) -> (line: DrawLine)
    requires
        w >= 4,
    ensures
        line.x == x,
        line.y == y,
        line.buf.data@ == menu_item_row(w as int, *item, selected, c),
{
    let mut buf = DrawBuffer::new(w);
    match item {
        MenuItem::Separator => {
            return frame_line(x, y, w, '\u{251c}', '\u{2500}', '\u{2524}', c.normal);
        },
        MenuItem::Regular { text, enabled, shortcut, .. } => {
            let color = if selected { c.selected } else if *enabled { c.normal } else { c.disabled };
            let accel = if selected { c.selected } else { c.shortcut };
            buf.move_char(0, ' ', color, w);
            assert(buf.data@ =~= filled_row(w as int, Cell { ch: ' ', attr: color }));
            buf.put_char(0, '\u{2502}', c.normal);
            let chars = string_chars(text);
            buf.move_cstr(2, &chars, color, accel);
            match shortcut {
                Some(sc) => {
                    let sc_chars = string_chars(sc);
                    if sc_chars.len() <= w - 2 {
                        buf.move_chars(w - sc_chars.len() - 2, &sc_chars, color);
                    }
                },
                None => {},
            }
            buf.put_char(w - 1, '\u{2502}', c.normal);
        },
        MenuItem::SubMenu { text, .. } => {
            let color = if selected { c.selected } else { c.normal };
            let accel = if selected { c.selected } else { c.shortcut };
            buf.move_char(0, ' ', color, w);
            assert(buf.data@ =~= filled_row(w as int, Cell { ch: ' ', attr: color }));
            buf.put_char(0, '\u{2502}', c.normal);
            let chars = string_chars(text);
            buf.move_cstr(2, &chars, color, accel);
            buf.put_char(w - 2, '\u{25ba}', color);
            buf.put_char(w - 1, '\u{2502}', c.normal);
        },
    }
    DrawLine::new(x, y, buf)
}

/// The columns `visible_len` counts, extended by one character.
proof fn lemma_visible_len_push(t: Seq<char>, i: int)
    requires
        0 <= i < t.len(),
    ensures
        visible_len(t.take(i + 1)) == visible_len(t.take(i)) + if t[i] == '~' { 0nat } else { 1nat },
{
    assert(t.take(i + 1).drop_last() =~= t.take(i));
}

/// No item is wider than the box, and the box only grows.
proof fn lemma_box_width_grows(items: Seq<MenuItem>, j: int, k: int)
    requires
        0 <= j <= k <= items.len(),
    ensures
        box_width(items, j) <= box_width(items, k),
        j < k ==> item_width(items[j]) <= box_width(items, k),
        box_width(items, k) >= 10,
    decreases k,
{
    if k > 0 {
        if j < k {
            lemma_box_width_grows(items, j, k - 1);
        } else {
            lemma_box_width_grows(items, k - 1, k - 1);
        }
    }
}

pub struct MenuBox {
    bounds: Rect,
    menu_state: MenuViewerState,
    state: u16,
}

impl MenuBox {
    pub closed spec fn spec_bounds(&self) -> Rect {
        self.bounds
    }

    pub closed spec fn spec_menu_state(&self) -> MenuViewerState {
        self.menu_state
    }

    pub closed spec fn spec_state(&self) -> u16 {
        self.state
    }

    /// The items shown.
    pub open spec fn spec_items(&self) -> Seq<MenuItem> {
        self.spec_menu_state().spec_items()
    }

    /// The highlighted item.
    pub open spec fn spec_current(&self) -> Option<usize> {
        self.spec_menu_state().current
    }

    /// The highlight is on an item, or there is none, and every item row has
    /// coordinates inside `i16`.
    pub open spec fn wf(&self) -> bool {
        &&& self.spec_current() matches Some(c) ==> c < self.spec_items().len()
        &&& self.spec_items().len() + 2 <= i16::MAX
        &&& self.spec_bounds().a.y + self.spec_items().len() + 2 <= i16::MAX
    }

    /// Width needed by `menu` at the box's corner, as the box's bounds.
    fn calculate_bounds(position: Point, menu: &Menu) -> (r: Rect)
        requires
            menu_box_fits(position, menu.items@),
        ensures
            r == menu_box_bounds(position, menu.items@),
    {
        let ghost items = menu.items@;
        let mut width: usize = 10;
        let mut i: usize = 0;
        proof {
            lemma_box_width_grows(items, 0, items.len() as int);
        }
        while i < menu.items.len()
            invariant
                items == menu.items@,
                i <= items.len(),
                width == box_width(items, i as int),
                box_width(items, items.len() as int) <= i16::MAX,
            decreases menu.items.len() - i,
        {
            proof {
                lemma_box_width_grows(items, i as int, items.len() as int);
                lemma_box_width_grows(items, i as int + 1, items.len() as int);
            }
            let item_width: usize = match &menu.items[i] {
                MenuItem::Regular { text, shortcut, .. } => {
                    let t = visible_count(text);
                    let s: usize = match shortcut {
                        Some(sc) => string_chars(sc).len() + 2,
                        None => 0,
                    };
                    t + s + 6
                },
                MenuItem::SubMenu { text, .. } => visible_count(text) + 9,
                MenuItem::Separator => 4,
            };
            if item_width > width {
                width = item_width;
            }
            i = i + 1;
        }
        let w: i16 = width as i16;
        let h: i16 = (menu.items.len() + 2) as i16;
        Rect::new(position.x, position.y, position.x + w, position.y + h)
    }

    /// A box for `menu` with its top-left corner at `position`, sized to its
    /// items, shadowed, with the first item highlighted.
    pub fn new(position: Point, menu: Menu) -> (m: Self)
        requires
            menu_box_fits(position, menu.items@),
        ensures
            m.wf(),
            m.spec_bounds() == menu_box_bounds(position, menu.items@),
            m.spec_menu_state().menu == Some(menu),
            m.spec_current() == (if menu.items@.len() > 0 { Some(0usize) } else { None }),
            m.spec_state() == SF_SHADOW,
    {
        let bounds = Self::calculate_bounds(position, &menu);
        MenuBox { bounds, menu_state: MenuViewerState::with_menu(menu), state: SF_SHADOW }
    }

    pub fn bounds(&self) -> (r: Rect)
        ensures
            r == self.spec_bounds(),
    {
        self.bounds
    }

    pub fn state(&self) -> (s: u16)
        ensures
            s == self.spec_state(),
    {
        self.state
    }

    pub fn set_state(&mut self, state: u16)
        ensures
            final(self).spec_state() == state,
            final(self).spec_bounds() == old(self).spec_bounds(),
            final(self).spec_menu_state() == old(self).spec_menu_state(),
    {
        self.state = state;
    }

    pub fn menu_state(&self) -> (s: &MenuViewerState)
        ensures
            *s == self.spec_menu_state(),
    {
        &self.menu_state
    }

    pub fn menu_state_mut(&mut self) -> (s: &mut MenuViewerState)
        ensures
            *s == old(self).spec_menu_state(),
            final(self).spec_menu_state() == *final(s),
            final(self).spec_bounds() == old(self).spec_bounds(),
            final(self).spec_state() == old(self).spec_state(),
    {
        &mut self.menu_state
    }

    /// The highlighted item's index.
    pub fn current_item(&self) -> (c: Option<usize>)
        ensures
            c == self.spec_current(),
    {
        self.menu_state.current
    }

    pub fn set_current_item(&mut self, item: Option<usize>)
        ensures
            final(self).spec_current() == item,
            final(self).spec_menu_state().menu == old(self).spec_menu_state().menu,
            final(self).spec_menu_state().compact_menu == old(self).spec_menu_state().compact_menu,
            final(self).spec_bounds() == old(self).spec_bounds(),
            final(self).spec_state() == old(self).spec_state(),
    {
        self.menu_state.current = item;
    }

    /// The row of item `item_index`: the box's width, one row under the top
    /// border per earlier item.
    pub fn get_item_rect(&self, item_index: usize) -> (r: Rect)
        requires
            item_index + 2 <= i16::MAX,
            self.spec_bounds().a.y + 2 + item_index <= i16::MAX,
        ensures
            r == item_rect(self.spec_bounds(), item_index as int),
    {
        let i: i16 = item_index as i16;
        Rect::new(self.bounds.a.x, self.bounds.a.y + 1 + i, self.bounds.b.x, self.bounds.a.y + 2 + i)
    }

    /// The box's rows: the top border, one row per item while they fit
    /// above the bottom border, and the bottom border; nothing when the box
    /// is smaller than 4 columns by 2 rows. The shadow is the terminal's.
    pub fn draw(&self, colors: MenuColors) -> (lines: Vec<DrawLine>)
        requires
            self.wf(),
            spec_width(self.spec_bounds()) <= i16::MAX,
        ensures
            menu_box_drawn(self.spec_bounds(), self.spec_items(), self.spec_current(), colors, lines@),
    {
        let b = self.bounds;
        let mut lines: Vec<DrawLine> = Vec::new();
        let wi: i32 = b.b.x as i32 - b.a.x as i32;
        let hi: i32 = b.b.y as i32 - b.a.y as i32;
        if hi < 2 || wi < 4 {
            return lines;
        }
        let w: usize = wi as usize;
        let n = self.menu_state.item_count();
        let k: usize = if (n as i32) < hi - 2 { n } else { (hi - 2) as usize };
        lines.push(frame_line(b.a.x, b.a.y, w, '\u{250c}', '\u{2500}', '\u{2510}', colors.normal));
        let ghost items = self.spec_items();
        let mut i: usize = 0;
        while i < k
            invariant
                self.wf(),
                items == self.spec_items(),
                b == self.spec_bounds(),
                w == spec_width(b),
                4 <= w,
                hi == spec_height(b),
                n == items.len(),
                k == shown_items(hi as int, n as int),
                k <= n,
                i <= k,
                lines@.len() == i + 1,
                lines@[0].x == b.a.x && lines@[0].y == b.a.y,
                lines@[0].buf.data@ == frame_row(w as int, '\u{250c}', '\u{2500}', '\u{2510}', colors.normal),
                forall|j: int| 0 <= j < i ==> #[trigger] item_row_drawn(lines@, j, b, items, self.spec_current(), colors),
            decreases k - i,
        {
            let y: i16 = b.a.y + 1 + (i as i16);
            let selected = match self.menu_state.current {
                Some(c) => c == i,
                None => false,
            };
            let menu = match &self.menu_state.menu {
                Some(m) => m,
                None => {
                    return lines;
                },
            };
            assert(menu.items@ == items);
            let line = item_line(b.a.x, y, w, &menu.items[i], selected, colors);
            assert(selected == (self.spec_current() == Some(i)));
            let ghost before = lines@;
            lines.push(line);
            assert(lines@[i as int + 1] == line);
            assert(forall|j: int| 0 <= j <= i ==> lines@[j] == before[j]);
            assert forall|j: int| 0 <= j < i + 1 implies #[trigger] item_row_drawn(lines@, j, b, items, self.spec_current(), colors) by {
                if j < i {
                    assert(item_row_drawn(before, j, b, items, self.spec_current(), colors));
                    assert(lines@[j + 1] == before[j + 1]);
                } else {
                    assert(lines@[j + 1] == line);
                }
            }
            i = i + 1;
        }
        let y: i16 = b.a.y + 1 + (k as i16);
        let ghost before = lines@;
        lines.push(frame_line(b.a.x, y, w, '\u{2514}', '\u{2500}', '\u{2518}', colors.normal));
        assert(forall|j: int| 0 <= j <= k ==> lines@[j] == before[j]);
        assert(k == shown_items(spec_height(b), items.len() as int));
        assert forall|j: int| 0 <= j < k implies #[trigger] item_row_drawn(lines@, j, b, items, self.spec_current(), colors) by {
            assert(item_row_drawn(before, j, b, items, self.spec_current(), colors));
            assert(lines@[j + 1] == before[j + 1]);
        }
        lines
    }

    /// The command of the highlighted item, if it is a command item.
    pub fn get_selected_command(&self) -> (c: Option<u16>)
        ensures
            c == (match self.spec_current() {
                Some(i) => if i < self.spec_items().len() {
                    self.spec_items()[i as int].spec_command()
                } else {
                    None
                },
                None => None,
            }),
            self.spec_menu_state().menu is None ==> c is None,
    {
        match self.menu_state.get_current_item() {
            Some(item) => item.command(),
            None => None,
        }
    }

    /// The first item whose row holds `p`.
    fn item_under(&self, p: Point) -> (r: Option<usize>)
        requires
            self.wf(),
        ensures
            r == (match item_at(self.spec_bounds(), self.spec_items().len() as int, p) {
                Some(i) => Some(i as usize),
                None => None,
            }),
    {
        let n = self.menu_state.item_count();
        let mut i: usize = 0;
        while i < n
            invariant
                self.wf(),
                n == self.spec_items().len(),
                i <= n,
                forall|j: int| 0 <= j < i ==> !spec_contains(#[trigger] item_rect(self.spec_bounds(), j), p),
            decreases n - i,
        {
            let r = self.get_item_rect(i);
            if r.contains(p) {
                return Some(i);
            }
            i = i + 1;
        }
        proof {
            let k = p.y - self.spec_bounds().a.y - 1;
            if 0 <= k < n {
                assert(!spec_contains(item_rect(self.spec_bounds(), k), p));
            }
        }
        None
    }

    /// The menu moves every menu view shares: Up and Down, accelerator
    /// letters, and a left click on an item. Tells whether the event was used;
    /// a used event is cleared.
    pub fn handle_menu_event(&mut self, event: &mut Event) -> (used: bool)
        requires
            old(self).wf(),
        ensures
            final(self).wf(),
            final(self).spec_menu_state().menu == old(self).spec_menu_state().menu,
            final(self).spec_menu_state().compact_menu == old(self).spec_menu_state().compact_menu,
            final(self).spec_bounds() == old(self).spec_bounds(),
            final(self).spec_state() == old(self).spec_state(),
            used ==> *final(event) == (Event { what: EventType::Nothing, ..*old(event) }),
            !used ==> *final(event) == *old(event) && final(self).spec_current() == old(self).spec_current(),
            ({
                let e = *old(event);
                let items = old(self).spec_items();
                let cur = old(self).spec_current();
                if e.what == EventType::Keyboard {
                    if e.key_code == KB_UP {
                        used && final(self).spec_current() == prev_current(items, cur)
                    } else if e.key_code == KB_DOWN {
                        used && final(self).spec_current() == next_current(items, cur)
                    } else if e.key_code == KB_ESC || e.key_code == KB_ENTER || !is_printable_key(e.key_code) {
                        !used
                    } else {
                        &&& used <==> exists|i: int| 0 <= i < items.len() && answers_char(
                            #[trigger] items[i],
                            spec_to_lower(typed_char(e.key_code)),
                        )
                        &&& used ==> (final(self).spec_current() matches Some(i) && is_first_answering(
                            items,
                            spec_to_lower(typed_char(e.key_code)),
                            i as int,
                        ))
                    }
                } else if e.what == EventType::MouseDown && e.mouse.buttons & MB_LEFT_BUTTON != 0
                    && spec_contains(old(self).spec_bounds(), e.mouse.pos) {
                    match item_at(old(self).spec_bounds(), items.len() as int, e.mouse.pos) {
                        Some(i) => used && final(self).spec_current() == Some(i as usize),
                        None => !used,
                    }
                } else {
                    !used
                }
            }),
    {
        let _n = self.menu_state.item_count();
        proof {
            crate::views::menu_viewer::law_moves_land_on_selectable_items(
                self.spec_items(),
                self.spec_current(),
            );
        }
        if event.what == EventType::Keyboard {
            let k = event.key_code;
            if k == KB_UP {
                self.menu_state.select_prev();
                event.clear();
                return true;
            } else if k == KB_DOWN {
                self.menu_state.select_next();
                event.clear();
                return true;
            } else if k == KB_ESC || k == KB_ENTER {
                return false;
            } else if 32 <= k && k < 127 {
                let ch: char = crate::text::to_ascii_lower((k as u8) as char);
                match self.menu_state.find_item_by_char(ch) {
                    Some(idx) => {
                        proof {
                            assert(spec_to_lower(ch) == ch);
                        }
                        self.menu_state.current = Some(idx);
                        event.clear();
                        return true;
                    },
                    None => {
                        proof {
                            assert(spec_to_lower(ch) == ch);
                        }
                        return false;
                    },
                }
            } else {
                return false;
            }
        } else if event.what == EventType::MouseDown {
            if event.mouse.buttons & MB_LEFT_BUTTON != 0 {
                let pos = event.mouse.pos;
                if self.bounds.contains(pos) {
                    match self.item_under(pos) {
                        Some(i) => {
                            self.menu_state.current = Some(i);
                            event.clear();
                            return true;
                        },
                        None => {},
                    }
                }
            }
            false
        } else {
            false
        }
    }

    /// A box's answer to an event: the shared menu moves first; then Enter
    /// issues the highlighted item's command (an item that issues none just
    /// uses the key), Esc cancels with command 0, a left click outside the
    /// box cancels, a left click inside highlights the item under it, and a
    /// release issues the highlighted item's command.
    pub fn handle_event(&mut self, event: &mut Event)
        requires
            old(self).wf(),
        ensures
            final(self).wf(),
            final(self).spec_menu_state().menu == old(self).spec_menu_state().menu,
            final(self).spec_bounds() == old(self).spec_bounds(),
            final(self).spec_state() == old(self).spec_state(),
            ({
                let e = *old(event);
                let items = old(self).spec_items();
                let cur = old(self).spec_current();
                let b = old(self).spec_bounds();
                let left = e.mouse.buttons & MB_LEFT_BUTTON != 0;
                let cleared = Event { what: EventType::Nothing, ..e };
                let chosen = match cur {
                    Some(i) => chosen_command(items[i as int]),
                    None => None,
                };
                if e.what == EventType::Keyboard {
                    if e.key_code == KB_UP {
                        *final(event) == cleared && final(self).spec_current() == prev_current(items, cur)
                    } else if e.key_code == KB_DOWN {
                        *final(event) == cleared && final(self).spec_current() == next_current(items, cur)
                    } else if e.key_code == KB_ENTER {
                        &&& final(self).spec_current() == cur
                        &&& *final(event) == (match cur {
                            None => e,
                            Some(i) => match chosen_command(items[i as int]) {
                                Some(c) => spec_command(c),
                                None => cleared,
                            },
                        })
                    } else if e.key_code == KB_ESC || e.key_code == KB_ESC_ESC {
                        *final(event) == spec_command(0) && final(self).spec_current() == cur
                    } else if is_printable_key(e.key_code) && exists|i: int|
                        0 <= i < items.len() && answers_char(#[trigger] items[i], spec_to_lower(typed_char(e.key_code))) {
                        &&& *final(event) == cleared
                        &&& final(self).spec_current() matches Some(i) && is_first_answering(
                            items,
                            spec_to_lower(typed_char(e.key_code)),
                            i as int,
                        )
                    } else {
                        *final(event) == e && final(self).spec_current() == cur
                    }
                } else if e.what == EventType::MouseDown {
                    if !left {
                        *final(event) == e && final(self).spec_current() == cur
                    } else if !spec_contains(b, e.mouse.pos) {
                        *final(event) == spec_command(0) && final(self).spec_current() == cur
                    } else {
                        &&& *final(event) == cleared
                        &&& final(self).spec_current() == (match item_at(b, items.len() as int, e.mouse.pos) {
                            Some(i) => Some(i as usize),
                            None => cur,
                        })
                    }
                } else if e.what == EventType::MouseUp {
                    &&& final(self).spec_current() == cur
                    &&& *final(event) == (if left && !spec_contains(b, e.mouse.pos) {
                        spec_command(0)
                    } else {
                        match chosen {
                            Some(c) => spec_command(c),
                            None => cleared,
                        }
                    })
                } else {
                    *final(event) == e && final(self).spec_current() == cur
                }
            }),
    {
        if self.handle_menu_event(event) {
            return;
        }
        if event.what == EventType::Keyboard {
            let k = event.key_code;
            if k == KB_ENTER {
                match self.menu_state.get_current_item() {
                    Some(item) => {
                        match item {
                            MenuItem::Regular { command, enabled, .. } => {
                                if *enabled {
                                    *event = Event::command(*command);
                                } else {
                                    event.clear();
                                }
                            },
                            _ => {
                                event.clear();
                            },
                        }
                    },
                    None => {},
                }
            } else if k == KB_ESC || k == KB_ESC_ESC {
                *event = Event::command(0);
            }
        } else if event.what == EventType::MouseDown {
            if event.mouse.buttons & MB_LEFT_BUTTON != 0 {
                let pos = event.mouse.pos;
                if !self.bounds.contains(pos) {
                    *event = Event::command(0);
                    return;
                }
                match self.item_under(pos) {
                    Some(i) => {
                        self.menu_state.current = Some(i);
                    },
                    None => {},
                }
                event.clear();
            }
        } else if event.what == EventType::MouseUp {
            let pos = event.mouse.pos;
            if event.mouse.buttons & MB_LEFT_BUTTON != 0 {
                if !self.bounds.contains(pos) {
                    *event = Event::command(0);
                    return;
                }
            }
            match self.menu_state.get_current_item() {
                Some(item) => {
                    match item {
                        MenuItem::Regular { command, enabled, .. } => {
                            if *enabled {
                                *event = Event::command(*command);
                                return;
                            }
                        },
                        _ => {},
                    }
                },
                None => {},
            }
            event.clear();
        }
    }
}

/// The number of characters of `text` other than tildes.
pub(crate) fn visible_count(text: &String) -> (n: usize)
    ensures
        n == visible_len(text@),
{
    let chars = string_chars(text);
    let mut n: usize = 0;
    let mut i: usize = 0;
    while i < chars.len()
        invariant
            chars@ == text@,
            i <= chars@.len(),
            n == visible_len(chars@.take(i as int)),
            n <= i,
        decreases chars.len() - i,
    {
        proof {
            lemma_visible_len_push(chars@, i as int);
        }
        if chars[i] != '~' {
            n = n + 1;
        }
        i = i + 1;
    }
    proof {
        assert(chars@.take(chars@.len() as int) =~= chars@);
    }
    n
}

} // verus!
