//! Vertical or horizontal scroll bar with a movable indicator.
use vstd::prelude::*;
use crate::draw::{Attr, Cell, DrawBuffer, DrawLine};
use crate::event::{Event, EventType, KB_DOWN, KB_END, KB_HOME, KB_LEFT, KB_PGDN, KB_PGUP, KB_RIGHT, KB_UP};
use crate::geometry::{clamp_extent, spec_height, spec_width, Point, Rect};

verus! {

/// Part codes of a scroll bar.
pub const SB_INDICATOR: i16 = 0;
pub const SB_UP_ARROW: i16 = 1;
pub const SB_DOWN_ARROW: i16 = 2;
pub const SB_PAGE_UP: i16 = 3;
pub const SB_PAGE_DOWN: i16 = 4;

/// Glyphs of a vertical bar: indicator, up arrow, down arrow, page areas.
pub const VSCROLL_CHARS: [char; 5] = ['\u{2588}', '\u{25b2}', '\u{25bc}', '\u{2591}', '\u{2591}'];
/// Glyphs of a horizontal bar: indicator, left arrow, right arrow, page areas.
pub const HSCROLL_CHARS: [char; 5] = ['\u{2588}', '\u{25c4}', '\u{25ba}', '\u{2591}', '\u{2591}'];

pub struct ScrollBar {
    bounds: Rect,
    value: i32,
    min_val: i32,
    max_val: i32,
    pg_step: i32,
    ar_step: i32,
    is_vertical: bool,
}

pub open spec fn imax(a: int, b: int) -> int {
    if a >= b { a } else { b }
}

pub open spec fn imin(a: int, b: int) -> int {
    if a <= b { a } else { b }
}

/// `v` clamped below by `lo`, then above by `hi` (so `hi` wins if `hi < lo`).
pub open spec fn clamp_lo_hi(v: int, lo: int, hi: int) -> int {
    imin(imax(v, lo), hi)
}

impl ScrollBar {
    pub closed spec fn spec_bounds(&self) -> Rect {
        self.bounds
    }

    pub closed spec fn spec_value(&self) -> int {
        self.value as int
    }

    pub closed spec fn spec_min(&self) -> int {
        self.min_val as int
    }

    pub closed spec fn spec_max(&self) -> int {
        self.max_val as int
    }

    pub closed spec fn spec_pg_step(&self) -> int {
        self.pg_step as int
    }

    pub closed spec fn spec_ar_step(&self) -> int {
        self.ar_step as int
    }

    pub closed spec fn spec_vertical(&self) -> bool {
        self.is_vertical
    }

    /// Cells of the track between the two arrows, at least one.
    pub closed spec fn spec_size(&self) -> int {
        if self.is_vertical {
            imax(spec_height(self.bounds) - 2, 1)
        } else {
            imax(spec_width(self.bounds) - 2, 1)
        }
    }

    /// Offset of the indicator along the track.
    pub closed spec fn spec_pos(&self) -> int {
        let s = self.spec_size();
        let range = self.max_val - self.min_val + 1;
        if range <= 0 || s <= 0 || self.value <= self.min_val {
            0
        } else {
            imin((self.value - self.min_val) * s / range, s - 1)
        }
    }

    pub fn new_vertical(bounds: Rect) -> (sb: Self)
        ensures
            sb.spec_bounds() == bounds,
            sb.spec_value() == 0,
            sb.spec_min() == 0,
            sb.spec_max() == 0,
            sb.spec_pg_step() == 1,
            sb.spec_ar_step() == 1,
            sb.spec_vertical(),
    {
        ScrollBar { bounds, value: 0, min_val: 0, max_val: 0, pg_step: 1, ar_step: 1, is_vertical: true }
    }

    pub fn new_horizontal(bounds: Rect) -> (sb: Self)
        ensures
            sb.spec_bounds() == bounds,
            sb.spec_value() == 0,
            sb.spec_min() == 0,
            sb.spec_max() == 0,
            sb.spec_pg_step() == 1,
            sb.spec_ar_step() == 1,
            !sb.spec_vertical(),
    {
        ScrollBar { bounds, value: 0, min_val: 0, max_val: 0, pg_step: 1, ar_step: 1, is_vertical: false }
    }

    /// Set value, range and steps; a maximum below the minimum is raised to it.
    pub fn set_params(&mut self, value: i32, min_val: i32, max_val: i32, pg_step: i32, ar_step: i32)
        ensures
            final(self).spec_min() == min_val,
            final(self).spec_max() == imax(max_val as int, min_val as int),
            final(self).spec_value() == clamp_lo_hi(value as int, min_val as int, imax(max_val as int, min_val as int)),
            final(self).spec_pg_step() == pg_step,
            final(self).spec_ar_step() == ar_step,
            final(self).spec_bounds() == old(self).spec_bounds(),
            final(self).spec_vertical() == old(self).spec_vertical(),
    {
        self.min_val = min_val;
        self.max_val = if max_val >= min_val { max_val } else { min_val };
        let v = if value >= self.min_val { value } else { self.min_val };
        self.value = if v <= self.max_val { v } else { self.max_val };
        self.pg_step = pg_step;
        self.ar_step = ar_step;
    }

    /// Set the value, clamped to the current range.
    pub fn set_value(&mut self, value: i32)
        ensures
            final(self).spec_value() == clamp_lo_hi(value as int, old(self).spec_min(), old(self).spec_max()),
            final(self).spec_min() == old(self).spec_min(),
            final(self).spec_max() == old(self).spec_max(),
            final(self).spec_pg_step() == old(self).spec_pg_step(),
            final(self).spec_ar_step() == old(self).spec_ar_step(),
            final(self).spec_bounds() == old(self).spec_bounds(),
            final(self).spec_vertical() == old(self).spec_vertical(),
    {
        let v = if value >= self.min_val { value } else { self.min_val };
        self.value = if v <= self.max_val { v } else { self.max_val };
    }

    /// Set the range as given and clamp the value into it.
    pub fn set_range(&mut self, min_val: i32, max_val: i32)
        ensures
            final(self).spec_min() == min_val,
            final(self).spec_max() == max_val,
            final(self).spec_value() == clamp_lo_hi(old(self).spec_value(), min_val as int, max_val as int),
            final(self).spec_pg_step() == old(self).spec_pg_step(),
            final(self).spec_ar_step() == old(self).spec_ar_step(),
            final(self).spec_bounds() == old(self).spec_bounds(),
            final(self).spec_vertical() == old(self).spec_vertical(),
    {
        self.min_val = min_val;
        self.max_val = max_val;
        let v = if self.value >= min_val { self.value } else { min_val };
        self.value = if v <= max_val { v } else { max_val };
    }

    pub fn get_value(&self) -> (v: i32)
        ensures
            v == self.spec_value(),
    {
        self.value
    }

    pub fn bounds(&self) -> (r: Rect)
        ensures
            r == self.spec_bounds(),
    {
        self.bounds
    }

    pub fn set_bounds(&mut self, bounds: Rect)
        ensures
            final(self).spec_bounds() == bounds,
            final(self).spec_value() == old(self).spec_value(),
            final(self).spec_min() == old(self).spec_min(),
            final(self).spec_max() == old(self).spec_max(),
            final(self).spec_pg_step() == old(self).spec_pg_step(),
            final(self).spec_ar_step() == old(self).spec_ar_step(),
            final(self).spec_vertical() == old(self).spec_vertical(),
    {
        self.bounds = bounds;
    }

    /// Cells of the track between the arrows.
    fn get_size(&self) -> (s: i32)
        ensures
            s == self.spec_size(),
    {
        let extent: i32 = if self.is_vertical {
            self.bounds.b.y as i32 - self.bounds.a.y as i32 - 2
        } else {
            self.bounds.b.x as i32 - self.bounds.a.x as i32 - 2
        };
        if extent >= 1 { extent } else { 1 }
    }

    /// Offset of the indicator along the track.
    fn get_pos(&self) -> (p: i32)
        ensures
            p == self.spec_pos(),
            0 <= p,
    {
        let s = self.get_size() as i64;
        let range: i64 = self.max_val as i64 - self.min_val as i64 + 1;
        if range <= 0 || s <= 0 || self.value <= self.min_val {
            0
        } else {
            let offset: i64 = self.value as i64 - self.min_val as i64;
            assert(0 < offset * s <= 0x1_0000_0000 * 0x1_0000) by (nonlinear_arith)
                requires 0 < offset <= 0x1_0000_0000, 0 < s <= 0x1_0000;
            let q: i64 = offset * s / range;
            let ghost n: int = (offset * s) as int;
            let ghost d: int = range as int;
            assert(n / d >= 0) by (nonlinear_arith) requires n > 0, d >= 1;
            let r = if q <= s - 1 { q } else { s - 1 };
            r as i32
        }
    }

    /// Which part of the bar lies under `p`.
    fn get_part_at(&self, p: Point) -> (part: i16)
        ensures
            ({
                let along = if self.spec_vertical() { p.y - self.spec_bounds().a.y } else { p.x - self.spec_bounds().a.x };
                let len = if self.spec_vertical() { spec_height(self.spec_bounds()) } else { spec_width(self.spec_bounds()) };
                part == (if along == 0 {
                    SB_UP_ARROW
                } else if along == len - 1 {
                    SB_DOWN_ARROW
                } else if along - 1 == self.spec_pos() {
                    SB_INDICATOR
                } else if along - 1 < self.spec_pos() {
                    SB_PAGE_UP
                } else {
                    SB_PAGE_DOWN
                })
            }),
    {
        let along: i32 = if self.is_vertical {
            p.y as i32 - self.bounds.a.y as i32
        } else {
            p.x as i32 - self.bounds.a.x as i32
        };
        let len: i32 = if self.is_vertical {
            self.bounds.b.y as i32 - self.bounds.a.y as i32
        } else {
            self.bounds.b.x as i32 - self.bounds.a.x as i32
        };
        if along == 0 {
            SB_UP_ARROW
        } else if along == len - 1 {
            SB_DOWN_ARROW
        } else {
            let pos = self.get_pos();
            if along - 1 == pos {
                SB_INDICATOR
            } else if along - 1 < pos {
                SB_PAGE_UP
            } else {
                SB_PAGE_DOWN
            }
        }
    }

    /// How far one click on `part` moves the value.
    fn scroll_step(&self, part: i16) -> (d: i32)
        requires
            part == SB_UP_ARROW ==> self.spec_ar_step() > i32::MIN,
            part == SB_PAGE_UP ==> self.spec_pg_step() > i32::MIN,
        ensures
            d == (if part == SB_UP_ARROW {
                -self.spec_ar_step()
            } else if part == SB_DOWN_ARROW {
                self.spec_ar_step()
            } else if part == SB_PAGE_UP {
                -self.spec_pg_step()
            } else if part == SB_PAGE_DOWN {
                self.spec_pg_step()
            } else {
                0
            }),
    {
        if part == SB_UP_ARROW {
            -self.ar_step
        } else if part == SB_DOWN_ARROW {
            self.ar_step
        } else if part == SB_PAGE_UP {
            -self.pg_step
        } else if part == SB_PAGE_DOWN {
            self.pg_step
        } else {
            0
        }
    }
}


/// Cell `i` of a bar of length `len` whose indicator sits at `pos`.
pub open spec fn bar_cell(chars: Seq<char>, i: int, len: int, pos: int, page: Attr, indicator: Attr) -> Cell {
    Cell {
        ch: if i == 0 {
            chars[1]
        } else if i == len - 1 {
            chars[2]
        } else if i - 1 == pos {
            chars[0]
        } else {
            chars[3]
        },
        attr: if i - 1 == pos { indicator } else { page },
    }
}

/// The value a key press leads to, or `None` when the key is not for this bar.
pub open spec fn key_target(sb: ScrollBar, key: u16) -> Option<int> {
    let v = sb.spec_value();
    let lo = sb.spec_min();
    let hi = sb.spec_max();
    if key == KB_HOME {
        Some(lo)
    } else if key == KB_END {
        Some(hi)
    } else if sb.spec_vertical() {
        if key == KB_UP {
            Some(imax(v - sb.spec_ar_step(), lo))
        } else if key == KB_DOWN {
            Some(imin(v + sb.spec_ar_step(), hi))
        } else if key == KB_PGUP {
            Some(imax(v - sb.spec_pg_step(), lo))
        } else if key == KB_PGDN {
            Some(imin(v + sb.spec_pg_step(), hi))
        } else {
            None
        }
    } else {
        if key == KB_LEFT {
            Some(imax(v - sb.spec_ar_step(), lo))
        } else if key == KB_RIGHT {
            Some(imin(v + sb.spec_ar_step(), hi))
        } else {
            None
        }
    }
}

/// The step arithmetic of a key stays inside `i32`.
pub open spec fn key_fits(sb: ScrollBar, key: u16) -> bool {
    let v = sb.spec_value();
    &&& (key == KB_UP || key == KB_LEFT ==> i32::MIN <= v - sb.spec_ar_step() <= i32::MAX)
    &&& (key == KB_DOWN || key == KB_RIGHT ==> i32::MIN <= v + sb.spec_ar_step() <= i32::MAX)
    &&& (key == KB_PGUP ==> i32::MIN <= v - sb.spec_pg_step() <= i32::MAX)
    &&& (key == KB_PGDN ==> i32::MIN <= v + sb.spec_pg_step() <= i32::MAX)
}

/// Glyph `k` of the bar's character set.
fn bar_char(vertical: bool, k: usize) -> (c: char)
    requires
        k < 5,
    ensures
        c == (if vertical { VSCROLL_CHARS@[k as int] } else { HSCROLL_CHARS@[k as int] }),
{
    if vertical { VSCROLL_CHARS[k] } else { HSCROLL_CHARS[k] }
}

impl ScrollBar {
    /// Apply an arrow, page, Home or End key; other events pass untouched.
    pub fn handle_event(&mut self, event: &mut Event)
        requires
            old(event).what == EventType::Keyboard ==> key_fits(*old(self), old(event).key_code),
        ensures
            ({
                let e = *old(event);
                let t = key_target(*old(self), e.key_code);
                if e.what == EventType::Keyboard && t is Some {
                    &&& final(self).spec_value() == t->0
                    &&& *final(event) == (Event { what: EventType::Nothing, ..e })
                } else {
                    &&& final(self).spec_value() == old(self).spec_value()
                    &&& *final(event) == e
                }
            }),
            final(self).spec_min() == old(self).spec_min(),
            final(self).spec_max() == old(self).spec_max(),
            final(self).spec_pg_step() == old(self).spec_pg_step(),
            final(self).spec_ar_step() == old(self).spec_ar_step(),
            final(self).spec_bounds() == old(self).spec_bounds(),
            final(self).spec_vertical() == old(self).spec_vertical(),
    {
        if event.what != EventType::Keyboard {
            return;
        }
        let key = event.key_code;
        let v = self.value;
        if key == KB_HOME {
            self.value = self.min_val;
        } else if key == KB_END {
            self.value = self.max_val;
        } else if (self.is_vertical && key == KB_UP) || (!self.is_vertical && key == KB_LEFT) {
            let n = v - self.ar_step;
            self.value = if n >= self.min_val { n } else { self.min_val };
        } else if (self.is_vertical && key == KB_DOWN) || (!self.is_vertical && key == KB_RIGHT) {
            let n = v + self.ar_step;
            self.value = if n <= self.max_val { n } else { self.max_val };
        } else if self.is_vertical && key == KB_PGUP {
            let n = v - self.pg_step;
            self.value = if n >= self.min_val { n } else { self.min_val };
        } else if self.is_vertical && key == KB_PGDN {
            let n = v + self.pg_step;
            self.value = if n <= self.max_val { n } else { self.max_val };
        } else {
            return;
        }
        event.clear();
    }

    /// The number of lines `draw` gives: one per row when vertical, one when
    /// horizontal.
    pub open spec fn spec_line_count(&self) -> int {
        if self.spec_vertical() {
            imax(spec_height(self.spec_bounds()), 0)
        } else {
            1
        }
    }

    /// Whether `l` is line `k` of the bar as `draw` gives it.
    pub open spec fn draws_line(&self, page_attr: Attr, indicator_attr: Attr, k: int, l: DrawLine) -> bool {
        if self.spec_vertical() {
            &&& l.x == self.spec_bounds().a.x
            &&& l.y == self.spec_bounds().a.y + k
            &&& l.buf.data@ == seq![bar_cell(VSCROLL_CHARS@, k, spec_height(self.spec_bounds()), self.spec_pos(), page_attr, indicator_attr)]
        } else {
            &&& k == 0
            &&& l.x == self.spec_bounds().a.x
            &&& l.y == self.spec_bounds().a.y
            &&& l.buf.data@.len() == imax(spec_width(self.spec_bounds()), 0)
            &&& forall|x: int| 0 <= x < imax(spec_width(self.spec_bounds()), 0) ==> #[trigger] l.buf.data@[x]
                == bar_cell(HSCROLL_CHARS@, x, spec_width(self.spec_bounds()), self.spec_pos(), page_attr, indicator_attr)
        }
    }

    /// The rows the bar occupies: one cell per row when vertical, one row when
    /// horizontal, arrows at the ends and the indicator at its position.
    pub fn draw(&self, page_attr: Attr, indicator_attr: Attr) -> (lines: Vec<DrawLine>)
        ensures
            self.spec_vertical() ==> lines@.len() == imax(spec_height(self.spec_bounds()), 0),
            self.spec_vertical() ==> forall|y: int| 0 <= y < lines@.len() ==> {
                &&& #[trigger] lines@[y].x == self.spec_bounds().a.x
                &&& lines@[y].y == self.spec_bounds().a.y + y
                &&& lines@[y].buf.data@ == seq![bar_cell(VSCROLL_CHARS@, y, spec_height(self.spec_bounds()), self.spec_pos(), page_attr, indicator_attr)]
            },
            !self.spec_vertical() ==> lines@.len() == 1,
            !self.spec_vertical() ==> lines@[0].x == self.spec_bounds().a.x && lines@[0].y == self.spec_bounds().a.y,
            !self.spec_vertical() ==> lines@[0].buf.data@.len() == imax(spec_width(self.spec_bounds()), 0),
            !self.spec_vertical() ==> forall|x: int| 0 <= x < imax(spec_width(self.spec_bounds()), 0) ==> #[trigger] lines@[0].buf.data@[x]
                == bar_cell(HSCROLL_CHARS@, x, spec_width(self.spec_bounds()), self.spec_pos(), page_attr, indicator_attr),
            lines@.len() == self.spec_line_count(),
            forall|k: int| 0 <= k < lines@.len() ==> self.draws_line(page_attr, indicator_attr, k, #[trigger] lines@[k]),
    {
        let pos = self.get_pos();
        let mut lines: Vec<DrawLine> = Vec::new();
        if self.is_vertical {
            let height: i32 = self.bounds.b.y as i32 - self.bounds.a.y as i32;
            let mut y: i32 = 0;
            while y < height
                invariant
                    0 <= y,
                    y <= height || y == 0,
                    height == spec_height(self.spec_bounds()),
                    pos == self.spec_pos(),
                    self.spec_vertical(),
                    lines@.len() == y,
                    forall|k: int| 0 <= k < y ==> {
                        &&& #[trigger] lines@[k].x == self.spec_bounds().a.x
                        &&& lines@[k].y == self.spec_bounds().a.y + k
                        &&& lines@[k].buf.data@ == seq![bar_cell(VSCROLL_CHARS@, k, height as int, pos as int, page_attr, indicator_attr)]
                    },
                decreases height - y,
            {
                let ch = if y == 0 {
                    bar_char(true, 1)
                } else if y == height - 1 {
                    bar_char(true, 2)
                } else if y - 1 == pos {
                    bar_char(true, 0)
                } else {
                    bar_char(true, 3)
                };
                let attr = if y - 1 == pos { indicator_attr } else { page_attr };
                let mut buf = DrawBuffer::new(1);
                buf.put_char(0, ch, attr);
                assert(buf.data@ =~= seq![bar_cell(VSCROLL_CHARS@, y as int, height as int, pos as int, page_attr, indicator_attr)]);
                let row: i16 = (self.bounds.a.y as i32 + y) as i16;
                lines.push(DrawLine::new(self.bounds.a.x, row, buf));
                y = y + 1;
            }
        } else {
            let width: i32 = self.bounds.b.x as i32 - self.bounds.a.x as i32;
            let w: usize = if width > 0 { width as usize } else { 0 };
            let mut buf = DrawBuffer::new(w);
            let mut x: usize = 0;
            while x < w
                invariant
                    x <= w,
                    w == imax(width as int, 0),
                    width == spec_width(self.spec_bounds()),
                    pos == self.spec_pos(),
                    !self.spec_vertical(),
                    buf.data@.len() == w,
                    forall|k: int| 0 <= k < x ==> #[trigger] buf.data@[k]
                        == bar_cell(HSCROLL_CHARS@, k, width as int, pos as int, page_attr, indicator_attr),
                decreases w - x,
            {
                let xi = x as i32;
                let ch = if xi == 0 {
                    bar_char(false, 1)
                } else if xi == width - 1 {
                    bar_char(false, 2)
                } else if xi - 1 == pos {
                    bar_char(false, 0)
                } else {
                    bar_char(false, 3)
                };
                let attr = if xi - 1 == pos { indicator_attr } else { page_attr };
                buf.put_char(x, ch, attr);
                x = x + 1;
            }
            lines.push(DrawLine::new(self.bounds.a.x, self.bounds.a.y, buf));
        }
        lines
    }
}


/// The keys of a scroll bar, in terms of its bounds and value: Home goes to
/// the minimum and End to the maximum whatever the value; a step back (Up,
/// Left, Page Up) never raises the value and a step forward (Down, Right,
/// Page Down) never lowers it, while the value stays within the bar's range;
/// an arrow moves by the arrow step when that stays within the range.
pub proof fn law_scroll_keys_move_toward_their_end(sb: ScrollBar, key: u16)
    ensures
        key_target(sb, KB_HOME) == Some(sb.spec_min()),
        key_target(sb, KB_END) == Some(sb.spec_max()),
        sb.spec_vertical() && sb.spec_min() <= sb.spec_value() - sb.spec_ar_step() ==> key_target(sb, KB_UP) == Some(
            sb.spec_value() - sb.spec_ar_step(),
        ),
        sb.spec_vertical() && sb.spec_value() + sb.spec_ar_step() <= sb.spec_max() ==> key_target(sb, KB_DOWN) == Some(
            sb.spec_value() + sb.spec_ar_step(),
        ),
        !sb.spec_vertical() && sb.spec_min() <= sb.spec_value() - sb.spec_ar_step() ==> key_target(sb, KB_LEFT) == Some(
            sb.spec_value() - sb.spec_ar_step(),
        ),
        !sb.spec_vertical() && sb.spec_value() + sb.spec_ar_step() <= sb.spec_max() ==> key_target(sb, KB_RIGHT) == Some(
            sb.spec_value() + sb.spec_ar_step(),
        ),
        sb.spec_min() <= sb.spec_value() <= sb.spec_max() && sb.spec_ar_step() >= 0 && sb.spec_pg_step() >= 0
            ==> {
            &&& (key == KB_UP || key == KB_LEFT || key == KB_PGUP) ==> (match key_target(sb, key) {
                Some(t) => sb.spec_min() <= t <= sb.spec_value(),
                None => true,
            })
            &&& (key == KB_DOWN || key == KB_RIGHT || key == KB_PGDN) ==> (match key_target(sb, key) {
                Some(t) => sb.spec_value() <= t <= sb.spec_max(),
                None => true,
            })
        },
{
}

} // verus!
