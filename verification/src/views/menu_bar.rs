//! The horizontal menu bar: the titles of its menus in one row, and the
//! drop-down of the menu that is open under its title.
//!
//! A left click on a title opens that menu, or closes it when it is the one
//! open; a click elsewhere on the bar, or outside the drop-down, closes it.
//! While a menu is open, moving the mouse onto another title opens that one,
//! Left and Right open the neighbouring menus round the ends of the bar, Up,
//! Down and accelerator letters move the highlight, Enter issues the
//! highlighted item's command and Esc closes. With no menu open, Alt-F, F1
//! and the Esc-letter keys open a menu directly.
//!
//! The menu that is open is held by the drop-down while it is shown and goes
//! back to its title when it closes; `MenuBarView::menus` always lists every
//! menu.
use vstd::prelude::*;
use crate::event::{
    spec_command, Event, EventType, KB_ALT_F, KB_ALT_H, KB_DOWN, KB_ENTER, KB_ESC, KB_F1, KB_LEFT,
    KB_RIGHT, KB_UP, MB_LEFT_BUTTON,
};
use crate::draw::{cstr_cells, fill_cells, filled_row, put_cells, put_text, Attr, Cell, DrawBuffer, DrawLine};
use crate::geometry::{spec_contains, spec_width, Point, Rect};
use crate::menu_data::{Menu, MenuItem};
use crate::text::{spec_to_lower, str_chars, string_chars, string_from_chars, to_ascii_lower};
use crate::views::dialog::KB_ESC_ESC;
use crate::views::menu_box::{chosen_command, frame_row, MenuColors, is_first_answering, is_printable_key, typed_char, visible_count, visible_len};
use crate::views::menu_viewer::{any_selectable, next_current, prev_current, MenuViewerState};

verus! {

/// Esc followed by F: opens the first menu.
pub const KB_ESC_F: u16 = 0x2101;
/// Esc followed by E: opens the second menu.
pub const KB_ESC_E: u16 = 0x1201;
/// Esc followed by S: opens the third menu.
pub const KB_ESC_S: u16 = 0x1F01;
/// Esc followed by V: opens the fourth menu.
pub const KB_ESC_V: u16 = 0x2F01;
/// Esc followed by H: opens the last menu.
pub const KB_ESC_H: u16 = 0x2301;

/// A menu of the bar: its title (a tilde pair marks its accelerator) and its items.
pub struct SubMenu {
    pub name: String,
    pub menu: Menu,
}

impl SubMenu {
    pub fn new(name: &str, menu: Menu) -> (s: Self)
        ensures
            s.name@ == name@,
            s.menu == menu,
    {
        let chars = str_chars(name);
        SubMenu { name: string_from_chars(&chars), menu }
    }
}

/// What a menu bar is: its bounds, the titles and menus in order, the column
/// of each title, the menu open, the highlighted item of that menu, and the
/// state flags.
#[verifier::ext_equal]
pub struct MenuBarView {
    pub bounds: Rect,
    pub names: Seq<Seq<char>>,
    pub menus: Seq<Menu>,
    pub positions: Seq<i16>,
    pub active: Option<usize>,
    pub current: Option<usize>,
    pub state: u16,
}

pub struct MenuBar {
    bounds: Rect,
    submenus: Vec<SubMenu>,
    menu_positions: Vec<i16>,
    active_menu_idx: Option<usize>,
    menu_state: MenuViewerState,
    state: u16,
}

/// The items of the menu open, none when no menu is open.
pub open spec fn open_items(v: MenuBarView) -> Seq<MenuItem> {
    match v.active {
        Some(m) => v.menus[m as int].items@,
        None => Seq::empty(),
    }
}

/// The first selectable item of `items`.
pub open spec fn first_selectable(items: Seq<MenuItem>) -> Option<usize> {
    if any_selectable(items) {
        Some(
            choose|i: usize|
                i < items.len() && items[i as int].spec_selectable() && forall|j: int|
                    0 <= j < i ==> !(#[trigger] items[j]).spec_selectable(),
        )
    } else {
        None
    }
}

/// The bar with menu `i` open and its first selectable item highlighted.
pub open spec fn opened(v: MenuBarView, i: int) -> MenuBarView {
    MenuBarView { active: Some(i as usize), current: first_selectable(v.menus[i].items@), ..v }
}

/// The bar with no menu open.
pub open spec fn closed(v: MenuBarView) -> MenuBarView {
    MenuBarView { active: None, current: None, ..v }
}

/// Whether column `x` lies on the title of menu `i`: from its column, its
/// visible text and a space either side.
pub open spec fn on_title(v: MenuBarView, i: int, x: int) -> bool {
    v.positions[i] <= x < v.positions[i] + visible_len(v.names[i]) + 2
}

/// Menu `i` is the first menu other than `skip` whose title holds column `x`.
pub open spec fn is_first_title(v: MenuBarView, x: int, skip: Option<usize>, i: int) -> bool {
    &&& 0 <= i < v.names.len()
    &&& skip != Some(i as usize)
    &&& on_title(v, i, x)
    &&& forall|j: int| 0 <= j < i && skip != Some(j as usize) ==> !#[trigger] on_title(v, j, x)
}

/// The first menu other than `skip` whose title holds column `x`.
pub open spec fn title_at(v: MenuBarView, x: int, skip: Option<usize>) -> Option<usize> {
    if exists|i: int| is_first_title(v, x, skip, i) {
        Some((choose|i: int| is_first_title(v, x, skip, i)) as usize)
    } else {
        None
    }
}

/// The item of the open menu whose row of its drop-down holds `p`: rows
/// start two below the bar, and each reaches 20 columns from the title's
/// column; only points inside the bar's bounds count.
pub open spec fn dropdown_item_at(v: MenuBarView, p: Point) -> Option<usize> {
    match v.active {
        Some(m) => {
            let row = p.y - v.bounds.a.y - 2;
            if spec_contains(v.bounds, p) && 0 <= row < v.menus[m as int].items@.len()
                && v.positions[m as int] <= p.x < v.positions[m as int] + 20 {
                Some(row as usize)
            } else {
                None
            }
        },
        None => None,
    }
}

/// The menu a hot key opens when no menu is open, among `n` menus.
pub open spec fn hotkey_menu(key: u16, n: int) -> Option<usize> {
    if (key == KB_ALT_F || key == KB_ESC_F || key == KB_F1) && n > 0 {
        Some(0)
    } else if key == KB_ESC_E && n > 1 {
        Some(1)
    } else if key == KB_ESC_S && n > 2 {
        Some(2)
    } else if key == KB_ESC_V && n > 3 {
        Some(3)
    } else if (key == KB_ALT_H || key == KB_ESC_H) && n > 1 {
        Some((n - 1) as usize)
    } else {
        None
    }
}

/// The first item of `items` answering accelerator `c`.
pub open spec fn first_answering(items: Seq<MenuItem>, c: char) -> Option<usize> {
    if exists|i: int| is_first_answering(items, c, i) {
        Some((choose|i: int| is_first_answering(items, c, i)) as usize)
    } else {
        None
    }
}

/// The command of the highlighted item of the open menu, if it issues one.
pub open spec fn bar_chosen(v: MenuBarView) -> Option<u16> {
    match v.current {
        Some(c) => if c < open_items(v).len() {
            chosen_command(open_items(v)[c as int])
        } else {
            None
        },
        None => None,
    }
}

/// A command item issues its command and closes the menu; otherwise the
/// event is used up and the bar stays as it is.
pub open spec fn issue(v: MenuBarView, e: Event) -> (MenuBarView, Event) {
    match bar_chosen(v) {
        Some(c) => (closed(v), spec_command(c)),
        None => (v, Event { what: EventType::Nothing, ..e }),
    }
}

/// The bar's answer to an event: its state after it and what is left of the
/// event.
pub open spec fn menu_bar_step(v: MenuBarView, e: Event) -> (MenuBarView, Event) {
    let n = v.names.len() as int;
    let cleared = Event { what: EventType::Nothing, ..e };
    let p = e.mouse.pos;
    if e.what == EventType::MouseDown {
        if e.mouse.buttons & MB_LEFT_BUTTON == 0 {
            (v, e)
        } else if p.y == v.bounds.a.y && title_at(v, p.x as int, None) is Some {
            let i = title_at(v, p.x as int, None)->0;
            if v.active == Some(i) {
                (closed(v), cleared)
            } else {
                (opened(v, i as int), cleared)
            }
        } else if p.y == v.bounds.a.y && v.active is Some {
            (closed(v), cleared)
        } else if v.active is Some {
            match dropdown_item_at(v, p) {
                Some(k) => issue(MenuBarView { current: Some(k), ..v }, e),
                None => (closed(v), cleared),
            }
        } else {
            (v, e)
        }
    } else if e.what == EventType::MouseMove {
        match v.active {
            Some(m) => if p.y == v.bounds.a.y && title_at(v, p.x as int, Some(m)) is Some {
                (opened(v, title_at(v, p.x as int, Some(m))->0 as int), e)
            } else {
                (v, e)
            },
            None => (v, e),
        }
    } else if e.what == EventType::Keyboard {
        let k = e.key_code;
        match v.active {
            None => match hotkey_menu(k, n) {
                Some(i) => (opened(v, i as int), cleared),
                None => (v, e),
            },
            Some(m) => if k == KB_ESC || k == KB_ESC_ESC {
                (closed(v), cleared)
            } else if k == KB_LEFT {
                (opened(v, if m > 0 { m - 1 } else { n - 1 }), cleared)
            } else if k == KB_RIGHT {
                (opened(v, (m + 1) % n), cleared)
            } else if k == KB_ENTER {
                issue(v, e)
            } else if k == KB_UP {
                (MenuBarView { current: prev_current(open_items(v), v.current), ..v }, cleared)
            } else if k == KB_DOWN {
                (MenuBarView { current: next_current(open_items(v), v.current), ..v }, cleared)
            } else if is_printable_key(k) && first_answering(open_items(v), spec_to_lower(typed_char(k))) is Some {
                (MenuBarView { current: first_answering(open_items(v), spec_to_lower(typed_char(k))), ..v }, cleared)
            } else {
                (v, e)
            },
        }
    } else {
        (v, e)
    }
}

/// The first selectable item, told by its position.
proof fn lemma_first_selectable(items: Seq<MenuItem>, r: Option<usize>)
    requires
        r matches Some(i) ==> i < items.len() && items[i as int].spec_selectable()
            && forall|j: int| 0 <= j < i ==> !(#[trigger] items[j]).spec_selectable(),
        r is None ==> !any_selectable(items),
    ensures
        r == first_selectable(items),
{
    if let Some(i) = r {
        assert(items[i as int].spec_selectable());
        let k = choose|k: usize|
            k < items.len() && items[k as int].spec_selectable() && forall|j: int|
                0 <= j < k ==> !(#[trigger] items[j]).spec_selectable();
        if k < i {
            assert(!items[k as int].spec_selectable());
        } else if k > i {
            assert(!items[i as int].spec_selectable());
        }
    }
}

/// The first title holding a column, told by its position.
proof fn lemma_first_title(v: MenuBarView, x: int, skip: Option<usize>, i: int)
    requires
        is_first_title(v, x, skip, i),
    ensures
        title_at(v, x, skip) == Some(i as usize),
{
    let k = choose|k: int| is_first_title(v, x, skip, k);
    if k < i {
        assert(!on_title(v, k, x));
    } else if k > i {
        assert(!on_title(v, i, x));
    }
}

/// The first item answering an accelerator, told by its position.
proof fn lemma_first_answering(items: Seq<MenuItem>, c: char, i: int)
    requires
        is_first_answering(items, c, i),
    ensures
        first_answering(items, c) == Some(i as usize),
{
    let k = choose|k: int| is_first_answering(items, c, k);
    if k < i {
        assert(!crate::views::menu_viewer::answers_char(items[k], c));
    } else if k > i {
        assert(!crate::views::menu_viewer::answers_char(items[i], c));
    }
}

/// The column of the title of menu `i`: the bar starts one column in, and
/// each title takes its visible text and a space either side.
pub open spec fn title_col(names: Seq<Seq<char>>, i: int) -> int
    decreases i,
{
    if i <= 0 {
        1
    } else {
        title_col(names, i - 1) + visible_len(names[i - 1]) + 2
    }
}

/// The columns drawing gives the titles.
pub open spec fn bar_positions(v: MenuBarView) -> Seq<i16> {
    Seq::new(v.names.len(), |i: int| title_col(v.names, i) as i16)
}

/// The colours of title `i`: highlighted when its menu is open.
pub open spec fn title_attr(v: MenuBarView, c: MenuColors, i: int) -> Attr {
    if v.active == Some(i as usize) {
        c.selected
    } else {
        c.normal
    }
}

/// The colour of the accelerator letters of title `i`.
pub open spec fn title_accel_attr(v: MenuBarView, c: MenuColors, i: int) -> Attr {
    if v.active == Some(i as usize) {
        c.selected
    } else {
        c.shortcut
    }
}

/// The bar's row with the first `k` titles drawn on a blank row: each title
/// is a space, its text (tildes marking its accelerator) and a space,
/// cells past the bar's end dropped.
pub open spec fn bar_row_upto(v: MenuBarView, c: MenuColors, k: int) -> Seq<Cell>
    decreases k,
{
    if k <= 0 {
        filled_row(spec_width(v.bounds) as int, Cell { ch: ' ', attr: c.normal })
    } else {
        let i = k - 1;
        let x = title_col(v.names, i);
        let a = title_attr(v, c, i);
        fill_cells(
            put_cells(
                fill_cells(bar_row_upto(v, c, i), x, Cell { ch: ' ', attr: a }, 1),
                x + 1,
                cstr_cells(v.names[i], a, title_accel_attr(v, c, i), false),
            ),
            x + 1 + visible_len(v.names[i]),
            Cell { ch: ' ', attr: a },
            1,
        )
    }
}

/// The columns item texts need in a drop-down, over the first `k` items: at
/// least 12, a submenu's text with room for its arrow.
pub open spec fn text_width_upto(items: Seq<MenuItem>, k: int) -> int
    decreases k,
{
    if k <= 0 {
        12
    } else {
        let prev = text_width_upto(items, k - 1);
        let need = match items[k - 1] {
            MenuItem::Regular { text, .. } => visible_len(text@) as int,
            MenuItem::SubMenu { text, .. } => visible_len(text@) as int + 3,
            MenuItem::Separator => 0int,
        };
        if need > prev {
            need
        } else {
            prev
        }
    }
}

/// The columns the shortcut labels need, over the first `k` items.
pub open spec fn shortcut_width_upto(items: Seq<MenuItem>, k: int) -> int
    decreases k,
{
    if k <= 0 {
        0
    } else {
        let prev = shortcut_width_upto(items, k - 1);
        let need = match items[k - 1] {
            MenuItem::Regular { shortcut, .. } => match shortcut {
                Some(sc) => sc@.len() as int,
                None => 0int,
            },
            _ => 0int,
        };
        if need > prev {
            need
        } else {
            prev
        }
    }
}

/// The width of the drop-down of `items`: the texts and borders, and the
/// shortcut labels with a gap when there are any.
pub open spec fn dropdown_width(items: Seq<MenuItem>) -> int {
    let t = text_width_upto(items, items.len() as int);
    let s = shortcut_width_upto(items, items.len() as int);
    if s > 0 {
        t + 2 + s + 2
    } else {
        t + 2
    }
}

/// The row of `item` in a drop-down `w` wide, highlighted when `selected`:
/// a separator is a divider; a command item shows its text from column 1
/// (its accelerator in the accelerator colour) and its shortcut label ending
/// one column from the edge; a submenu shows its text and an arrow.
pub open spec fn dropdown_item_row(w: int, item: MenuItem, selected: bool, c: MenuColors) -> Seq<Cell> {
    match item {
        MenuItem::Separator => frame_row(w, '\u{251c}', '\u{2500}', '\u{2524}', c.normal),
        MenuItem::Regular { text, enabled, shortcut, .. } => {
            let attr = if selected && enabled { c.selected } else if !enabled { c.disabled } else { c.normal };
            let accel = if selected && enabled { c.selected } else if !enabled { c.disabled } else { c.shortcut };
            let base = fill_cells(filled_row(w, Cell { ch: ' ', attr: attr }), 0, Cell { ch: '\u{2502}', attr: c.normal }, 1);
            let texted = put_cells(base, 1, cstr_cells(text@, attr, accel, false));
            let labelled = match shortcut {
                Some(sc) => put_text(texted, if sc@.len() + 1 <= w { w - sc@.len() - 1 } else { 0 }, sc@, attr),
                None => texted,
            };
            fill_cells(labelled, w - 1, Cell { ch: '\u{2502}', attr: c.normal }, 1)
        },
        MenuItem::SubMenu { text, .. } => {
            let attr = if selected { c.selected } else { c.normal };
            let base = fill_cells(filled_row(w, Cell { ch: ' ', attr: attr }), 0, Cell { ch: '\u{2502}', attr: c.normal }, 1);
            let texted = put_cells(base, 1, cstr_cells(text@, attr, attr, false));
            let arrowed = fill_cells(texted, w - 2, Cell { ch: '\u{25ba}', attr: attr }, 1);
            fill_cells(arrowed, w - 1, Cell { ch: '\u{2502}', attr: c.normal }, 1)
        },
    }
}

/// Whether line `i + 1` of `lines` is the row of item `i` of the drop-down
/// of menu `m`.
pub open spec fn dropdown_row_drawn(v: MenuBarView, m: int, c: MenuColors, lines: Seq<DrawLine>, i: int) -> bool {
    let items = v.menus[m].items@;
    &&& lines[i + 1].x == v.positions[m]
    &&& lines[i + 1].y == v.bounds.a.y + 2 + i
    &&& lines[i + 1].buf.data@ == dropdown_item_row(dropdown_width(items), items[i], v.current == Some(i as usize), c)
}

/// Whether `lines` are the drop-down of menu `m`: under the bar from its
/// title's column, a top border, a row per item and a bottom border;
/// nothing for a menu the bar does not have.
pub open spec fn dropdown_drawn(v: MenuBarView, m: int, c: MenuColors, lines: Seq<DrawLine>) -> bool {
    if !(0 <= m < v.names.len()) {
        lines.len() == 0
    } else {
        let items = v.menus[m].items@;
        let w = dropdown_width(items);
        let n = items.len() as int;
        &&& lines.len() == n + 2
        &&& lines[0].x == v.positions[m] && lines[0].y == v.bounds.a.y + 1
        &&& lines[0].buf.data@ == frame_row(w, '\u{250c}', '\u{2500}', '\u{2510}', c.normal)
        &&& forall|i: int| 0 <= i < n ==> #[trigger] dropdown_row_drawn(v, m, c, lines, i)
        &&& lines[n + 1].x == v.positions[m] && lines[n + 1].y == v.bounds.a.y + 2 + n
        &&& lines[n + 1].buf.data@ == frame_row(w, '\u{2514}', '\u{2500}', '\u{2518}', c.normal)
    }
}

/// The widths only grow with more items.
proof fn lemma_widths_grow(items: Seq<MenuItem>, j: int, k: int)
    requires
        0 <= j <= k <= items.len(),
    ensures
        text_width_upto(items, j) <= text_width_upto(items, k),
        shortcut_width_upto(items, j) <= shortcut_width_upto(items, k),
        text_width_upto(items, k) >= 12,
        shortcut_width_upto(items, k) >= 0,
    decreases k,
{
    if k > 0 {
        if j < k {
            lemma_widths_grow(items, j, k - 1);
        } else {
            lemma_widths_grow(items, k - 1, k - 1);
        }
    }
}

/// A border row `w` wide at (`x`, `y`).
fn border_line(x: i16, y: i16, w: usize, l: char, mid: char, r: char, attr: Attr) -> (line: DrawLine)
    requires
        w >= 1,
    ensures
        line.x == x,
        line.y == y,
        line.buf.data@ == frame_row(w as int, l, mid, r, attr),
{
    let mut buf = DrawBuffer::new(w);
    buf.move_char(0, mid, attr, w);
    assert(buf.data@ =~= filled_row(w as int, Cell { ch: mid, attr: attr }));
    buf.put_char(0, l, attr);
    buf.put_char(w - 1, r, attr);
    DrawLine::new(x, y, buf)
}

/// The width of the drop-down of `items`.
fn compute_dropdown_width(items: &Vec<MenuItem>) -> (w: usize)
    requires
        dropdown_width(items@) <= usize::MAX,
    ensures
        w == dropdown_width(items@),
{
    let ghost all = items@;
    let mut t: usize = 12;
    let mut sw: usize = 0;
    let mut i: usize = 0;
    proof {
        lemma_widths_grow(all, 0, all.len() as int);
    }
    while i < items.len()
        invariant
            all == items@,
            i <= all.len(),
            t == text_width_upto(all, i as int),
            sw == shortcut_width_upto(all, i as int),
            dropdown_width(all) <= usize::MAX,
        decreases items.len() - i,
    {
        proof {
            lemma_widths_grow(all, i as int + 1, all.len() as int);
        }
        match &items[i] {
            MenuItem::Regular { text, shortcut, .. } => {
                let n = visible_count(text);
                if n > t {
                    t = n;
                }
                match shortcut {
                    Some(sc) => {
                        let l = string_chars(sc).len();
                        if l > sw {
                            sw = l;
                        }
                    },
                    None => {},
                }
            },
            MenuItem::SubMenu { text, .. } => {
                let n = visible_count(text);
                if n + 3 > t {
                    t = n + 3;
                }
            },
            MenuItem::Separator => {},
        }
        i = i + 1;
    }
    if sw > 0 {
        t + 2 + sw + 2
    } else {
        t + 2
    }
}

/// The row of `item` in a drop-down `w` wide at (`x`, `y`).
fn dropdown_item_line(x: i16, y: i16, w: usize, item: &MenuItem, selected: bool, c: MenuColors) -> (line: DrawLine)
    requires
        w >= 4,
    ensures
        line.x == x,
        line.y == y,
        line.buf.data@ == dropdown_item_row(w as int, *item, selected, c),
{
    let mut buf = DrawBuffer::new(w);
    match item {
        MenuItem::Separator => {
            return border_line(x, y, w, '\u{251c}', '\u{2500}', '\u{2524}', c.normal);
        },
        MenuItem::Regular { text, enabled, shortcut, .. } => {
            let attr = if selected && *enabled { c.selected } else if !*enabled { c.disabled } else { c.normal };
            let accel = if selected && *enabled { c.selected } else if !*enabled { c.disabled } else { c.shortcut };
            buf.move_char(0, ' ', attr, w);
            assert(buf.data@ =~= filled_row(w as int, Cell { ch: ' ', attr: attr }));
            buf.put_char(0, '\u{2502}', c.normal);
            let chars = string_chars(text);
            buf.move_cstr(1, &chars, attr, accel);
            match shortcut {
                Some(sc) => {
                    let sc_chars = string_chars(sc);
                    let sx: usize = if sc_chars.len() < w { w - sc_chars.len() - 1 } else { 0 };
                    buf.move_chars(sx, &sc_chars, attr);
                },
                None => {},
            }
            buf.put_char(w - 1, '\u{2502}', c.normal);
        },
        MenuItem::SubMenu { text, .. } => {
            let attr = if selected { c.selected } else { c.normal };
            buf.move_char(0, ' ', attr, w);
            assert(buf.data@ =~= filled_row(w as int, Cell { ch: ' ', attr: attr }));
            buf.put_char(0, '\u{2502}', c.normal);
            let chars = string_chars(text);
            buf.move_cstr(1, &chars, attr, attr);
            buf.put_char(w - 2, '\u{25ba}', attr);
            buf.put_char(w - 1, '\u{2502}', c.normal);
        },
    }
    DrawLine::new(x, y, buf)
}

/// Titles further right start further right.
proof fn lemma_title_col_grows(names: Seq<Seq<char>>, i: int, k: int)
    requires
        0 <= i <= k,
    ensures
        1 <= title_col(names, i) <= title_col(names, k),
    decreases k,
{
    if k > 0 {
        if i < k {
            lemma_title_col_grows(names, i, k - 1);
        } else {
            lemma_title_col_grows(names, k - 1, k - 1);
        }
    }
}

/// With a menu open, Left and then Right bring back the menu that was open,
/// round either end of the bar.
pub proof fn law_right_undoes_left(v: MenuBarView, e: Event)
    requires
        v.active matches Some(m) && m < v.names.len(),
        v.menus.len() == v.names.len(),
        v.names.len() <= usize::MAX,
        e.what == EventType::Keyboard,
        e.key_code == KB_LEFT,
    ensures
        menu_bar_step(menu_bar_step(v, e).0, Event { key_code: KB_RIGHT, ..e }).0.active == v.active,
{
    let n = v.names.len() as int;
    let m = v.active->0 as int;
    let prev = if m > 0 { m - 1 } else { n - 1 };
    assert(menu_bar_step(v, e).0 == opened(v, prev));
    if m > 0 {
        vstd::arithmetic::div_mod::lemma_small_mod(m as nat, n as nat);
    } else {
        vstd::arithmetic::div_mod::lemma_mod_self_0(n);
    }
    assert((prev + 1) % n == m);
    let v1 = opened(v, prev);
    let e2 = Event { key_code: KB_RIGHT, ..e };
    assert(v1.active == Some(prev as usize));
    assert(v1.names.len() == n);
    assert(menu_bar_step(v1, e2).0 == opened(v1, (prev + 1) % n));
}

/// No event changes the bar's titles, menus, title columns or bounds: the
/// menu open goes back to its title whole.
pub proof fn law_events_keep_the_menus(v: MenuBarView, e: Event)
    ensures
        menu_bar_step(v, e).0.names == v.names,
        menu_bar_step(v, e).0.menus == v.menus,
        menu_bar_step(v, e).0.positions == v.positions,
        menu_bar_step(v, e).0.bounds == v.bounds,
        menu_bar_step(v, e).0.state == v.state,
{
}

impl View for MenuBar {
    type V = MenuBarView;

    closed spec fn view(&self) -> MenuBarView {
        MenuBarView {
            bounds: self.bounds,
            names: Seq::new(self.submenus@.len(), |j: int| self.submenus@[j].name@),
            menus: Seq::new(
                self.submenus@.len(),
                |j: int|
                    if self.active_menu_idx matches Some(m) && m == j {
                        self.menu_state.menu->0
                    } else {
                        self.submenus@[j].menu
                    },
            ),
            positions: self.menu_positions@,
            active: self.active_menu_idx,
            current: self.menu_state.current,
            state: self.state,
        }
    }
}

impl MenuBar {
    /// A title's column for each menu, the open menu among them holding its
    /// items in the drop-down, and a highlight on one of its items or none.
    pub closed spec fn wf(&self) -> bool {
        &&& self.menu_positions@.len() == self.submenus@.len()
        &&& !self.menu_state.compact_menu
        &&& match self.active_menu_idx {
            Some(m) => {
                &&& m < self.submenus@.len()
                &&& self.menu_state.menu is Some
                &&& self.menu_state.current matches Some(c) ==> c < self.menu_state.spec_items().len()
            },
            None => self.menu_state.menu is None && self.menu_state.current is None,
        }
    }

    /// What holds of the view of a well-formed bar.
    pub proof fn lemma_wf_view(&self)
        requires
            self.wf(),
        ensures
            self@.names.len() == self@.menus.len(),
            self@.positions.len() == self@.names.len(),
            self@.active matches Some(m) ==> m < self@.names.len(),
            self@.active is None ==> self@.current is None,
            self@.current matches Some(c) ==> c < open_items(self@).len(),
    {
    }

    /// An empty bar with no menu open.
    pub fn new(bounds: Rect) -> (b: Self)
        ensures
            b.wf(),
            b@ == (MenuBarView {
                bounds,
                names: Seq::empty(),
                menus: Seq::empty(),
                positions: Seq::empty(),
                active: None,
                current: None,
                state: 0,
            }),
    {
        let b = MenuBar {
            bounds,
            submenus: Vec::new(),
            menu_positions: Vec::new(),
            active_menu_idx: None,
            menu_state: MenuViewerState::new(),
            state: 0,
        };
        assert(b@ =~= (MenuBarView {
            bounds,
            names: Seq::empty(),
            menus: Seq::empty(),
            positions: Seq::empty(),
            active: None,
            current: None,
            state: 0,
        }));
        b
    }

    /// Adds a menu at the right end of the bar; its title's column is 0
    /// until the bar is drawn.
    pub fn add_submenu(&mut self, submenu: SubMenu)
        requires
            old(self).wf(),
        ensures
            final(self).wf(),
            final(self)@ == (MenuBarView {
                names: old(self)@.names.push(submenu.name@),
                menus: old(self)@.menus.push(submenu.menu),
                positions: old(self)@.positions.push(0),
                ..old(self)@
            }),
    {
        let ghost s = submenu;
        self.submenus.push(submenu);
        self.menu_positions.push(0);
        assert(self@.names =~= old(self)@.names.push(s.name@));
        assert forall|j: int| 0 <= j < self@.menus.len() implies #[trigger] self@.menus[j] == old(self)@.menus.push(s.menu)[j] by {
            if j < old(self)@.menus.len() {
                assert(self.submenus@[j] == old(self).submenus@[j]);
            } else {
                assert(self.submenus@[j] == s);
            }
        }
        assert(self@.menus =~= old(self)@.menus.push(s.menu));
        assert(self@ =~= (MenuBarView {
            names: old(self)@.names.push(s.name@),
            menus: old(self)@.menus.push(s.menu),
            positions: old(self)@.positions.push(0),
            ..old(self)@
        }));
    }

    /// Gives the open menu back to its title and closes the drop-down.
    fn close_menu(&mut self)
        requires
            old(self).wf(),
        ensures
            final(self).wf(),
            final(self)@ == closed(old(self)@),
    {
        match self.active_menu_idx {
            Some(j) => {
                let taken = self.menu_state.menu.take();
                match taken {
                    Some(m) => {
                        let sub = self.submenus.remove(j);
                        let SubMenu { name, menu: _shown } = sub;
                        self.submenus.insert(j, SubMenu { name, menu: m });
                    },
                    None => {},
                }
            },
            None => {},
        }
        self.active_menu_idx = None;
        self.menu_state = MenuViewerState::new();
        proof {
            assert forall|k: int| 0 <= k < self@.menus.len() implies #[trigger] self@.menus[k] == old(self)@.menus[k] by {
                assert(self.submenus@[k].menu == old(self)@.menus[k]);
            }
            assert forall|k: int| 0 <= k < self@.names.len() implies #[trigger] self@.names[k] == old(self)@.names[k] by {
                assert(self.submenus@[k].name == old(self).submenus@[k].name);
            }
            assert(self@ =~= closed(old(self)@));
        }
    }

    /// Opens menu `i` with its first selectable item highlighted, closing
    /// the one that was open.
    fn open_menu(&mut self, i: usize)
        requires
            old(self).wf(),
            i < old(self)@.names.len(),
        ensures
            final(self).wf(),
            final(self)@ == opened(old(self)@, i as int),
    {
        self.close_menu();
        let ghost mid = self@;
        let ghost mid_subs = self.submenus@;
        assert(forall|k: int| 0 <= k < mid_subs.len() ==> #[trigger] mid_subs[k].menu == mid.menus[k]);
        let sub = self.submenus.remove(i);
        let SubMenu { name, menu } = sub;
        self.submenus.insert(i, SubMenu { name, menu: Menu { items: Vec::new() } });
        let ghost items = menu.items@;
        self.menu_state.set_menu(menu);
        self.active_menu_idx = Some(i);
        proof {
            lemma_first_selectable(items, self.menu_state.current);
            assert forall|k: int| 0 <= k < self@.menus.len() implies #[trigger] self@.menus[k] == old(self)@.menus[k] by {
                if k != i {
                    assert(self.submenus@[k] == mid_subs[k]);
                } else {
                    assert(sub == mid_subs[k]);
                }
            }
            assert forall|k: int| 0 <= k < self@.names.len() implies #[trigger] self@.names[k] == old(self)@.names[k] by {
                if k != i {
                    assert(self.submenus@[k] == mid_subs[k]);
                } else {
                    assert(sub == mid_subs[k]);
                }
            }
            assert(self@ =~= opened(old(self)@, i as int));
        }
    }

    /// The first menu other than `skip` whose title holds column `x`.
    fn find_title(&self, x: i16, skip: Option<usize>) -> (r: Option<usize>)
        requires
            self.wf(),
        ensures
            r == title_at(self@, x as int, skip),
    {
        let n = self.submenus.len();
        let mut i: usize = 0;
        while i < n
            invariant
                self.wf(),
                n == self@.names.len(),
                i <= n,
                forall|j: int| 0 <= j < i && skip != Some(j as usize) ==> !#[trigger] on_title(self@, j, x as int),
            decreases n - i,
        {
            let skipped = match skip {
                Some(s) => s == i,
                None => false,
            };
            if !skipped {
                let w = visible_count(&self.submenus[i].name);
                let px: i32 = self.menu_positions[i] as i32;
                let d: i32 = x as i32 - px;
                assert(self@.names[i as int] == self.submenus@[i as int].name@);
                if d >= 0 && (d < 2 || ((d - 2) as usize) < w) {
                    proof {
                        assert(on_title(self@, i as int, x as int));
                        assert(is_first_title(self@, x as int, skip, i as int));
                        lemma_first_title(self@, x as int, skip, i as int);
                    }
                    return Some(i);
                }
                assert(!on_title(self@, i as int, x as int));
            }
            i = i + 1;
        }
        proof {
            if exists|k: int| is_first_title(self@, x as int, skip, k) {
                let k = choose|k: int| is_first_title(self@, x as int, skip, k);
                assert(on_title(self@, k, x as int));
            }
        }
        None
    }

    /// The item of the open menu whose drop-down row holds `p`.
    fn dropdown_row(&self, p: Point) -> (r: Option<usize>)
        requires
            self.wf(),
        ensures
            r == dropdown_item_at(self@, p),
    {
        if !self.bounds.contains(p) {
            return None;
        }
        match self.active_menu_idx {
            Some(m) => {
                let n = self.menu_state.item_count();
                assert(self.menu_state.spec_items() == self@.menus[m as int].items@);
                let row: i32 = p.y as i32 - self.bounds.a.y as i32 - 2;
                let mx: i32 = self.menu_positions[m] as i32;
                if 0 <= row && (row as usize) < n && mx <= p.x as i32 && (p.x as i32) < mx + 20 {
                    Some(row as usize)
                } else {
                    None
                }
            },
            None => None,
        }
    }

    /// The command of the highlighted item, if it issues one.
    fn current_command(&self) -> (r: Option<u16>)
        requires
            self.wf(),
        ensures
            r == bar_chosen(self@),
    {
        proof {
            if let Some(m) = self.active_menu_idx {
                assert(self.menu_state.spec_items() == open_items(self@));
            }
        }
        match self.menu_state.get_current_item() {
            Some(item) => match item {
                MenuItem::Regular { command, enabled, .. } => if *enabled {
                    Some(*command)
                } else {
                    None
                },
                _ => None,
            },
            None => None,
        }
    }

    /// Issues the highlighted item's command, closing the menu, when it is a
    /// command item; otherwise uses up the event.
    fn issue_current(&mut self, event: &mut Event)
        requires
            old(self).wf(),
        ensures
            final(self).wf(),
            (final(self)@, *final(event)) == issue(old(self)@, *old(event)),
    {
        match self.current_command() {
            Some(c) => {
                self.close_menu();
                *event = Event::command(c);
            },
            None => {
                event.clear();
            },
        }
    }

    /// The bar's answer to an event; see the module's description.
    pub fn handle_event(&mut self, event: &mut Event)
        requires
            old(self).wf(),
        ensures
            final(self).wf(),
            (final(self)@, *final(event)) == menu_bar_step(old(self)@, *old(event)),
    {
        let ghost v = self@;
        let ghost e = *event;
        let _item_count = self.menu_state.item_count();
        proof {
            self.lemma_wf_view();
            crate::views::menu_viewer::law_moves_land_on_selectable_items(self.menu_state.spec_items(), self.menu_state.current);
        }
        if event.what == EventType::MouseDown {
            if event.mouse.buttons & MB_LEFT_BUTTON == 0 {
                return;
            }
            let p = event.mouse.pos;
            if p.y == self.bounds.a.y {
                match self.find_title(p.x, None) {
                    Some(i) => {
                        let is_open = match self.active_menu_idx {
                            Some(m) => m == i,
                            None => false,
                        };
                        if is_open {
                            self.close_menu();
                        } else {
                            self.open_menu(i);
                        }
                        event.clear();
                        return;
                    },
                    None => {},
                }
                if self.active_menu_idx.is_some() {
                    self.close_menu();
                    event.clear();
                    return;
                }
            }
            if self.active_menu_idx.is_some() {
                match self.dropdown_row(p) {
                    Some(k) => {
                        assert(self.menu_state.spec_items() == open_items(v));
                        self.menu_state.current = Some(k);
                        proof {
                            assert(self@ =~= (MenuBarView { current: Some(k), ..v }));
                        }
                        self.issue_current(event);
                    },
                    None => {
                        self.close_menu();
                        event.clear();
                    },
                }
            }
        } else if event.what == EventType::MouseMove {
            match self.active_menu_idx {
                Some(m) => {
                    let p = event.mouse.pos;
                    if p.y == self.bounds.a.y {
                        match self.find_title(p.x, Some(m)) {
                            Some(i) => {
                                self.open_menu(i);
                            },
                            None => {},
                        }
                    }
                },
                None => {},
            }
        } else if event.what == EventType::Keyboard {
            let k = event.key_code;
            let n = self.submenus.len();
            match self.active_menu_idx {
                None => {
                    let hot: Option<usize> = if (k == KB_ALT_F || k == KB_ESC_F || k == KB_F1) && n > 0 {
                        Some(0)
                    } else if k == KB_ESC_E && n > 1 {
                        Some(1)
                    } else if k == KB_ESC_S && n > 2 {
                        Some(2)
                    } else if k == KB_ESC_V && n > 3 {
                        Some(3)
                    } else if (k == KB_ALT_H || k == KB_ESC_H) && n > 1 {
                        Some(n - 1)
                    } else {
                        None
                    };
                    match hot {
                        Some(i) => {
                            self.open_menu(i);
                            event.clear();
                        },
                        None => {},
                    }
                },
                Some(m) => {
                    if k == KB_ESC || k == KB_ESC_ESC {
                        self.close_menu();
                        event.clear();
                    } else if k == KB_LEFT {
                        let prev = if m > 0 { m - 1 } else { n - 1 };
                        self.open_menu(prev);
                        event.clear();
                    } else if k == KB_RIGHT {
                        self.open_menu((m + 1) % n);
                        event.clear();
                    } else if k == KB_ENTER {
                        self.issue_current(event);
                    } else if k == KB_UP {
                        self.menu_state.select_prev();
                        proof {
                            assert(self@ =~= (MenuBarView { current: prev_current(open_items(v), v.current), ..v }));
                        }
                        event.clear();
                    } else if k == KB_DOWN {
                        self.menu_state.select_next();
                        proof {
                            assert(self@ =~= (MenuBarView { current: next_current(open_items(v), v.current), ..v }));
                        }
                        event.clear();
                    } else if 32 <= k && k < 127 {
                        let ch: char = to_ascii_lower((k as u8) as char);
                        proof {
                            assert(self.menu_state.spec_items() == open_items(v));
                        }
                        match self.menu_state.find_item_by_char(ch) {
                            Some(idx) => {
                                proof {
                                    assert(spec_to_lower(ch) == ch);
                                    lemma_first_answering(open_items(v), ch, idx as int);
                                }
                                self.menu_state.current = Some(idx);
                                proof {
                                    assert(self@ =~= (MenuBarView { current: Some(idx), ..v }));
                                }
                                event.clear();
                            },
                            None => {
                                proof {
                                    if exists|i: int| is_first_answering(open_items(v), ch, i) {
                                        let i = choose|i: int| is_first_answering(open_items(v), ch, i);
                                        assert(crate::views::menu_viewer::answers_char(open_items(v)[i], ch));
                                    }
                                }
                            },
                        }
                    }
                },
            }
        }
    }

    /// The drop-down of menu `menu_idx`, under the bar from its title's
    /// column. The shadow is the terminal's.
    fn draw_dropdown(&self, menu_idx: usize, colors: MenuColors) -> (lines: Vec<DrawLine>)
        requires
            self.wf(),
            menu_idx < self@.names.len() ==> dropdown_width(self@.menus[menu_idx as int].items@) <= usize::MAX,
            menu_idx < self@.names.len() ==> self@.bounds.a.y + self@.menus[menu_idx as int].items@.len() + 2 <= i16::MAX,
            menu_idx < self@.names.len() ==> self@.menus[menu_idx as int].items@.len() <= i16::MAX,
        ensures
            dropdown_drawn(self@, menu_idx as int, colors, lines@),
    {
        let mut lines: Vec<DrawLine> = Vec::new();
        if menu_idx >= self.submenus.len() || menu_idx >= self.menu_positions.len() {
            return lines;
        }
        let from_state = match self.active_menu_idx {
            Some(m) => m == menu_idx,
            None => false,
        };
        let menu: &Menu = if from_state {
            match &self.menu_state.menu {
                Some(mm) => mm,
                None => &self.submenus[menu_idx].menu,
            }
        } else {
            &self.submenus[menu_idx].menu
        };
        let ghost v = self@;
        let ghost items = menu.items@;
        assert(*menu == v.menus[menu_idx as int]);
        let menu_x = self.menu_positions[menu_idx];
        let menu_y: i16 = self.bounds.a.y + 1;
        let w = compute_dropdown_width(&menu.items);
        proof {
            lemma_widths_grow(items, 0, items.len() as int);
        }
        lines.push(border_line(menu_x, menu_y, w, '\u{250c}', '\u{2500}', '\u{2510}', colors.normal));
        let n = menu.items.len();
        let mut i: usize = 0;
        while i < n
            invariant
                self.wf(),
                v == self@,
                items == menu.items@,
                items == v.menus[menu_idx as int].items@,
                menu_idx < v.names.len(),
                n == items.len(),
                w == dropdown_width(items),
                w >= 14,
                menu_x == v.positions[menu_idx as int],
                menu_y == v.bounds.a.y + 1,
                v.bounds.a.y + items.len() + 2 <= i16::MAX,
                items.len() <= i16::MAX,
                i <= n,
                lines@.len() == i + 1,
                lines@[0].x == menu_x && lines@[0].y == menu_y,
                lines@[0].buf.data@ == frame_row(w as int, '\u{250c}', '\u{2500}', '\u{2510}', colors.normal),
                forall|j: int| 0 <= j < i ==> #[trigger] dropdown_row_drawn(v, menu_idx as int, colors, lines@, j),
            decreases n - i,
        {
            let y: i16 = menu_y + 1 + (i as i16);
            let selected = match self.menu_state.current {
                Some(c) => c == i,
                None => false,
            };
            let line = dropdown_item_line(menu_x, y, w, &menu.items[i], selected, colors);
            let ghost before = lines@;
            lines.push(line);
            assert forall|j: int| 0 <= j < i + 1 implies #[trigger] dropdown_row_drawn(v, menu_idx as int, colors, lines@, j) by {
                if j < i {
                    assert(dropdown_row_drawn(v, menu_idx as int, colors, before, j));
                    assert(lines@[j + 1] == before[j + 1]);
                } else {
                    assert(lines@[j + 1] == line);
                }
            }
            i = i + 1;
        }
        let y: i16 = menu_y + 1 + (n as i16);
        let ghost before = lines@;
        lines.push(border_line(menu_x, y, w, '\u{2514}', '\u{2500}', '\u{2518}', colors.normal));
        assert forall|j: int| 0 <= j < n implies #[trigger] dropdown_row_drawn(v, menu_idx as int, colors, lines@, j) by {
            assert(dropdown_row_drawn(v, menu_idx as int, colors, before, j));
            assert(lines@[j + 1] == before[j + 1]);
        }
        lines
    }

    /// Draws the bar and, under the title of the menu open, its drop-down;
    /// records each title's column on the way. The first line is the bar's
    /// row; the drop-down's lines follow.
    pub fn draw(&mut self, colors: MenuColors) -> (lines: Vec<DrawLine>)
        requires
            old(self).wf(),
            spec_width(old(self)@.bounds) >= 0,
            title_col(old(self)@.names, old(self)@.names.len() as int) <= i16::MAX,
            old(self)@.active matches Some(m) ==> {
                let items = old(self)@.menus[m as int].items@;
                &&& dropdown_width(items) <= usize::MAX
                &&& old(self)@.bounds.a.y + items.len() + 2 <= i16::MAX
                &&& items.len() <= i16::MAX
            },
        ensures
            final(self).wf(),
            final(self)@ == (MenuBarView { positions: bar_positions(old(self)@), ..old(self)@ }),
            lines@.len() >= 1,
            lines@[0].x == old(self)@.bounds.a.x,
            lines@[0].y == old(self)@.bounds.a.y,
            lines@[0].buf.data@ == bar_row_upto(old(self)@, colors, old(self)@.names.len() as int),
            match old(self)@.active {
                Some(m) => dropdown_drawn(final(self)@, m as int, colors, lines@.skip(1)),
                None => lines@.len() == 1,
            },
    {
        let ghost v = self@;
        let b = self.bounds;
        let wi: i32 = b.b.x as i32 - b.a.x as i32;
        let width: usize = wi as usize;
        let mut buf = DrawBuffer::new(width);
        buf.move_char(0, ' ', colors.normal, width);
        assert(buf.data@ =~= filled_row(spec_width(b) as int, Cell { ch: ' ', attr: colors.normal }));
        let n = self.submenus.len();
        let mut x: usize = 1;
        let mut i: usize = 0;
        proof {
            lemma_title_col_grows(v.names, 0, n as int);
        }
        while i < n
            invariant
                self.wf(),
                n == v.names.len(),
                i <= n,
                self.bounds == v.bounds,
                self.active_menu_idx == v.active,
                self@.names == v.names,
                self@.menus == v.menus,
                self@.current == v.current,
                self@.state == v.state,
                self.menu_positions@.len() == n,
                forall|j: int| 0 <= j < i ==> self.menu_positions@[j] == title_col(v.names, j) as i16,
                x == title_col(v.names, i as int),
                title_col(v.names, n as int) <= i16::MAX,
                buf.data@ == bar_row_upto(v, colors, i as int),
            decreases n - i,
        {
            proof {
                lemma_title_col_grows(v.names, i as int + 1, n as int);
            }
            self.menu_positions.set(i, x as i16);
            let here = match self.active_menu_idx {
                Some(m) => m == i,
                None => false,
            };
            let a = if here { colors.selected } else { colors.normal };
            let sa = if here { colors.selected } else { colors.shortcut };
            assert(a == title_attr(v, colors, i as int));
            assert(sa == title_accel_attr(v, colors, i as int));
            assert(self.submenus@[i as int].name@ == v.names[i as int]);
            buf.put_char(x, ' ', a);
            let chars = string_chars(&self.submenus[i].name);
            buf.move_cstr(x + 1, &chars, a, sa);
            let vis = visible_count(&self.submenus[i].name);
            buf.put_char(x + 1 + vis, ' ', a);
            x = x + vis + 2;
            i = i + 1;
        }
        proof {
            assert(self@.positions =~= bar_positions(v));
            assert(self@ =~= (MenuBarView { positions: bar_positions(v), ..v }));
        }
        let mut lines: Vec<DrawLine> = Vec::new();
        lines.push(DrawLine::new(b.a.x, b.a.y, buf));
        match self.active_menu_idx {
            Some(m) => {
                let mut drop = self.draw_dropdown(m, colors);
                let ghost d = drop@;
                lines.append(&mut drop);
                assert(lines@.skip(1) =~= d);
            },
            None => {},
        }
        lines
    }

    /// The row of item `item_index` of the open menu's drop-down: from its
    /// title's column, 20 columns wide, two rows under the bar and one row
    /// per earlier item; an empty rectangle at the origin with no menu open.
    pub fn get_item_rect(&self, item_index: usize) -> (r: Rect)
        requires
            self.wf(),
            self@.active matches Some(m) ==> {
                &&& self@.bounds.a.y + 3 + item_index <= i16::MAX
                &&& self@.positions[m as int] + 20 <= i16::MAX
            },
        ensures
            r == (match self@.active {
                Some(m) => Rect {
                    a: Point { x: self@.positions[m as int], y: (self@.bounds.a.y + 2 + item_index) as i16 },
                    b: Point { x: (self@.positions[m as int] + 20) as i16, y: (self@.bounds.a.y + 3 + item_index) as i16 },
                },
                None => Rect { a: Point { x: 0, y: 0 }, b: Point { x: 0, y: 0 } },
            }),
    {
        match self.active_menu_idx {
            Some(m) => {
                let menu_x = self.menu_positions[m];
                let top: i32 = self.bounds.a.y as i32 + 2 + item_index as i32;
                Rect::new(menu_x, top as i16, menu_x + 20, (top + 1) as i16)
            },
            None => Rect::new(0, 0, 0, 0),
        }
    }

    pub fn bounds(&self) -> (r: Rect)
        ensures
            r == self@.bounds,
    {
        self.bounds
    }

    pub fn set_bounds(&mut self, bounds: Rect)
        requires
            old(self).wf(),
        ensures
            final(self).wf(),
            final(self)@ == (MenuBarView { bounds, ..old(self)@ }),
    {
        self.bounds = bounds;
        assert(self@ =~= (MenuBarView { bounds, ..old(self)@ }));
    }

    pub fn state(&self) -> (s: u16)
        ensures
            s == self@.state,
    {
        self.state
    }

    pub fn set_state(&mut self, state: u16)
        requires
            old(self).wf(),
        ensures
            final(self).wf(),
            final(self)@ == (MenuBarView { state, ..old(self)@ }),
    {
        self.state = state;
        assert(self@ =~= (MenuBarView { state, ..old(self)@ }));
    }

    /// The menu open, if any.
    pub fn active_menu(&self) -> (r: Option<usize>)
        ensures
            r == self@.active,
    {
        self.active_menu_idx
    }

    /// The highlighted item of the open menu, if any.
    pub fn current_item(&self) -> (r: Option<usize>)
        ensures
            r == self@.current,
    {
        self.menu_state.current
    }

    /// The number of menus.
    pub fn submenu_count(&self) -> (n: usize)
        ensures
            n == self@.names.len(),
    {
        self.submenus.len()
    }
}

} // verus!
