//! Shows the lines of one help topic, scrolled by the arrow and page keys.
use vstd::prelude::*;
use crate::draw::{put_text, Attr, Cell, DrawBuffer, DrawLine};
use crate::event::{Event, EventType, KB_DOWN, KB_END, KB_HOME, KB_PGDN, KB_PGUP, KB_UP};
use crate::geometry::{spec_height, spec_width, Point, Rect};
use crate::state::SF_FOCUSED;
use crate::text::string_chars;
use crate::views::help_file::{see_also_lines, strings_view, title_line, HelpTopic};
use crate::views::scrollbar::{clamp_lo_hi, imax, ScrollBar};

verus! {

broadcast use vstd::string::group_string_axioms;

/// Black on white: the text of a focused viewer.
pub const HELP_FOCUSED_ATTR: u8 = 0xF0;
/// Black on light grey: the text of an unfocused viewer.
pub const HELP_NORMAL_ATTR: u8 = 0x70;

pub struct HelpViewer {
    bounds: Rect,
    state: u16,
    delta: Point,
    limit: Point,
    vscrollbar: Option<Box<ScrollBar>>,
    lines: Vec<String>,
    current_topic: Option<String>,
}

/// `v` pulled up to 0, then down to `hi` (`hi` wins when below 0).
pub open spec fn clamp_scroll(v: int, hi: int) -> int {
    let lo = if v < 0 { 0 } else { v };
    if lo > hi { hi } else { lo }
}

/// The lowest scroll row for `n` lines in a view `height` rows high.
pub open spec fn max_scroll(n: int, height: int) -> i16 {
    if height >= 0 && n > height { ((n as i16) as int - height) as i16 } else { 0 }
}

impl HelpViewer {
    pub closed spec fn spec_bounds(&self) -> Rect {
        self.bounds
    }

    pub closed spec fn spec_state(&self) -> u16 {
        self.state
    }

    pub closed spec fn spec_delta(&self) -> Point {
        self.delta
    }

    pub closed spec fn spec_limit(&self) -> Point {
        self.limit
    }

    pub closed spec fn spec_bar(&self) -> Option<ScrollBar> {
        match self.vscrollbar {
            Some(b) => Some(*b),
            None => None,
        }
    }

    pub closed spec fn spec_lines(&self) -> Seq<Seq<char>> {
        strings_view(self.lines@)
    }

    pub closed spec fn spec_topic(&self) -> Option<Seq<char>> {
        match self.current_topic {
            Some(t) => Some(t@),
            None => None,
        }
    }

    /// The bar, if any, shows the vertical scroll row.
    pub open spec fn bar_in_step(&self) -> bool {
        self.spec_bar() matches Some(b) ==> {
            &&& b.spec_min() == 0
            &&& b.spec_max() == imax(self.spec_limit().y as int, 0)
            &&& b.spec_value() == clamp_lo_hi(self.spec_delta().y as int, 0, imax(self.spec_limit().y as int, 0))
            &&& b.spec_pg_step() == spec_height(self.spec_bounds()) - 1
            &&& b.spec_ar_step() == 1
        }
    }

    /// An empty viewer without a scroll bar.
    pub fn new(bounds: Rect) -> (v: Self)
        ensures
            v.spec_bounds() == bounds,
            v.spec_state() == 0,
            v.spec_delta() == (Point { x: 0, y: 0 }),
            v.spec_limit() == (Point { x: 0, y: 0 }),
            v.spec_bar() is None,
            v.spec_lines() == Seq::<Seq<char>>::empty(),
            v.spec_topic() is None,
    {
        let v = HelpViewer {
            bounds,
            state: 0,
            delta: Point::new(0, 0),
            limit: Point::new(0, 0),
            vscrollbar: None,
            lines: Vec::new(),
            current_topic: None,
        };
        assert(v.spec_lines() =~= Seq::<Seq<char>>::empty());
        v
    }

    /// The viewer with a vertical scroll bar down its right column.
    pub fn with_scrollbar(self) -> (v: Self)
        requires
            self.spec_bounds().b.x > i16::MIN,
        ensures
            v.spec_bar() matches Some(b) && b.spec_vertical() && b.spec_bounds() == (Rect {
                a: Point { x: (self.spec_bounds().b.x - 1) as i16, y: self.spec_bounds().a.y },
                b: self.spec_bounds().b,
            }),
            v.spec_bounds() == self.spec_bounds(),
            v.spec_state() == self.spec_state(),
            v.spec_delta() == self.spec_delta(),
            v.spec_limit() == self.spec_limit(),
            v.spec_lines() == self.spec_lines(),
            v.spec_topic() == self.spec_topic(),
    {
        let b = self.bounds;
        let sb = ScrollBar::new_vertical(Rect::new(b.b.x - 1, b.a.y, b.b.x, b.b.y));
        HelpViewer { vscrollbar: Some(Box::new(sb)), ..self }
    }

    pub fn has_scrollbar(&self) -> (b: bool)
        ensures
            b == self.spec_bar() is Some,
    {
        self.vscrollbar.is_some()
    }

    pub fn line_count(&self) -> (n: usize)
        ensures
            n == self.spec_lines().len(),
    {
        self.lines.len()
    }

    /// Put the scroll row into the bar.
    fn update_scrollbar(&mut self)
        ensures
            final(self).bar_in_step(),
            final(self).spec_bar() is Some == old(self).spec_bar() is Some,
            old(self).spec_bar() matches Some(b) ==> final(self).spec_bar()->0.spec_bounds() == b.spec_bounds()
                && final(self).spec_bar()->0.spec_vertical() == b.spec_vertical(),
            final(self).spec_bounds() == old(self).spec_bounds(),
            final(self).spec_state() == old(self).spec_state(),
            final(self).spec_delta() == old(self).spec_delta(),
            final(self).spec_limit() == old(self).spec_limit(),
            final(self).spec_lines() == old(self).spec_lines(),
            final(self).spec_topic() == old(self).spec_topic(),
    {
        let size: i32 = self.bounds.b.y as i32 - self.bounds.a.y as i32;
        let dy = self.delta.y as i32;
        let ly = self.limit.y as i32;
        match &mut self.vscrollbar {
            Some(sb) => sb.set_params(dy, 0, ly, size - 1, 1),
            None => {},
        }
    }

    /// The scroll limits for the current lines: the width across, and down as
    /// far as the last line reaching the bottom row.
    fn update_limit(&mut self)
        requires
            i16::MIN <= spec_width(old(self).spec_bounds()) <= i16::MAX,
        ensures
            final(self).spec_limit() == (Point {
                x: spec_width(old(self).spec_bounds()) as i16,
                y: max_scroll(old(self).spec_lines().len() as int, spec_height(old(self).spec_bounds())),
            }),
            final(self).spec_bounds() == old(self).spec_bounds(),
            final(self).spec_state() == old(self).spec_state(),
            final(self).spec_delta() == old(self).spec_delta(),
            final(self).spec_bar() == old(self).spec_bar(),
            final(self).spec_lines() == old(self).spec_lines(),
            final(self).spec_topic() == old(self).spec_topic(),
    {
        let height: i32 = self.bounds.b.y as i32 - self.bounds.a.y as i32;
        let n = self.lines.len();
        let max_y: i16 = if height >= 0 && n > height as usize {
            ((n as i16) as i32 - height) as i16
        } else {
            0
        };
        self.limit = Point::new(self.bounds.width(), max_y);
    }

    /// Show `topic`: its formatted lines, scrolled to the top.
    pub fn set_topic(&mut self, topic: &HelpTopic)
        requires
            i16::MIN <= spec_width(old(self).spec_bounds()) <= i16::MAX,
        ensures
            final(self).spec_lines() == seq![title_line(topic.title@), Seq::<char>::empty()] + topic.spec_content()
                + see_also_lines(topic.spec_links()),
            final(self).spec_topic() == Some(topic.id@),
            final(self).spec_delta() == (Point { x: 0, y: 0 }),
            final(self).spec_limit() == (Point {
                x: spec_width(old(self).spec_bounds()) as i16,
                y: max_scroll(final(self).spec_lines().len() as int, spec_height(old(self).spec_bounds())),
            }),
            final(self).bar_in_step(),
            final(self).spec_bar() is Some == old(self).spec_bar() is Some,
            final(self).spec_bounds() == old(self).spec_bounds(),
            final(self).spec_state() == old(self).spec_state(),
    {
        self.lines = topic.get_formatted_content();
        self.current_topic = Some(topic.id.clone());
        self.update_limit();
        self.delta = Point::new(0, 0);
        self.update_scrollbar();
    }

    /// The id of the topic shown, if any.
    pub fn current_topic(&self) -> (t: Option<&str>)
        ensures
            match self.spec_topic() {
                Some(id) => t matches Some(s) && s@ == id,
                None => t is None,
            },
    {
        match &self.current_topic {
            Some(s) => Some(s.as_str()),
            None => None,
        }
    }

    /// Show nothing.
    pub fn clear(&mut self)
        ensures
            final(self).spec_lines() == Seq::<Seq<char>>::empty(),
            final(self).spec_topic() is None,
            final(self).spec_delta() == (Point { x: 0, y: 0 }),
            final(self).spec_limit() == (Point { x: 0, y: 0 }),
            final(self).bar_in_step(),
            final(self).spec_bar() is Some == old(self).spec_bar() is Some,
            final(self).spec_bounds() == old(self).spec_bounds(),
            final(self).spec_state() == old(self).spec_state(),
    {
        self.lines = Vec::new();
        self.current_topic = None;
        self.limit = Point::new(0, 0);
        self.delta = Point::new(0, 0);
        self.update_scrollbar();
        assert(self.spec_lines() =~= Seq::<Seq<char>>::empty());
    }

    /// Scroll by `(dx, dy)`, kept between zero and the limits.
    fn scroll_by(&mut self, dx: i32, dy: i32)
        ensures
            final(self).spec_delta() == (Point {
                x: clamp_scroll(old(self).spec_delta().x + dx, old(self).spec_limit().x as int) as i16,
                y: clamp_scroll(old(self).spec_delta().y + dy, old(self).spec_limit().y as int) as i16,
            }),
            final(self).bar_in_step(),
            final(self).spec_bar() is Some == old(self).spec_bar() is Some,
            final(self).spec_bounds() == old(self).spec_bounds(),
            final(self).spec_state() == old(self).spec_state(),
            final(self).spec_limit() == old(self).spec_limit(),
            final(self).spec_lines() == old(self).spec_lines(),
            final(self).spec_topic() == old(self).spec_topic(),
    {
        let nx: i64 = self.delta.x as i64 + dx as i64;
        let lx = if nx < 0 { 0 } else { nx };
        let new_x: i64 = if lx > self.limit.x as i64 { self.limit.x as i64 } else { lx };
        let ny: i64 = self.delta.y as i64 + dy as i64;
        let ly = if ny < 0 { 0 } else { ny };
        let new_y: i64 = if ly > self.limit.y as i64 { self.limit.y as i64 } else { ly };
        self.delta = Point::new(new_x as i16, new_y as i16);
        self.update_scrollbar();
    }

    pub fn bounds(&self) -> (r: Rect)
        ensures
            r == self.spec_bounds(),
    {
        self.bounds
    }

    pub fn can_focus(&self) -> (b: bool)
        ensures
            b,
    {
        true
    }

    pub fn state(&self) -> (s: u16)
        ensures
            s == self.spec_state(),
    {
        self.state
    }

    pub fn set_state(&mut self, state: u16)
        ensures
            final(self).spec_state() == state,
            final(self).spec_bounds() == old(self).spec_bounds(),
            final(self).spec_delta() == old(self).spec_delta(),
            final(self).spec_limit() == old(self).spec_limit(),
            final(self).spec_bar() == old(self).spec_bar(),
            final(self).spec_lines() == old(self).spec_lines(),
            final(self).spec_topic() == old(self).spec_topic(),
    {
        self.state = state;
    }

    /// Move the viewer; the scroll bar follows down its right column.
    pub fn set_bounds(&mut self, bounds: Rect)
        requires
            bounds.b.x > i16::MIN,
            i16::MIN <= spec_width(bounds) <= i16::MAX,
        ensures
            final(self).spec_bounds() == bounds,
            final(self).spec_bar() matches Some(b) ==> b.spec_bounds() == (Rect {
                a: Point { x: (bounds.b.x - 1) as i16, y: bounds.a.y },
                b: bounds.b,
            }),
            final(self).spec_bar() is Some == old(self).spec_bar() is Some,
            final(self).spec_limit() == (Point {
                x: spec_width(bounds) as i16,
                y: max_scroll(old(self).spec_lines().len() as int, spec_height(bounds)),
            }),
            final(self).bar_in_step(),
            final(self).spec_delta() == old(self).spec_delta(),
            final(self).spec_state() == old(self).spec_state(),
            final(self).spec_lines() == old(self).spec_lines(),
            final(self).spec_topic() == old(self).spec_topic(),
    {
        self.bounds = bounds;
        match &mut self.vscrollbar {
            Some(sb) => sb.set_bounds(Rect::new(bounds.b.x - 1, bounds.a.y, bounds.b.x, bounds.b.y)),
            None => {},
        }
        self.update_limit();
        self.update_scrollbar();
    }

    /// Up and Down scroll one line, Page Up and Page Down one page less a line,
    /// Home and End jump to the top and bottom; other events pass untouched.
    pub fn handle_event(&mut self, event: &mut Event)
        ensures
            final(self).spec_bounds() == old(self).spec_bounds(),
            final(self).spec_state() == old(self).spec_state(),
            final(self).spec_limit() == old(self).spec_limit(),
            final(self).spec_lines() == old(self).spec_lines(),
            final(self).spec_topic() == old(self).spec_topic(),
            final(self).spec_bar() is Some == old(self).spec_bar() is Some,
            ({
                let e = *old(event);
                let page = spec_height(old(self).spec_bounds()) - 1;
                let d = old(self).spec_delta();
                let lim = old(self).spec_limit();
                let moved = |dy: int| Point { x: clamp_scroll(d.x as int, lim.x as int) as i16, y: clamp_scroll(d.y + dy, lim.y as int) as i16 };
                if e.what == EventType::Keyboard && (e.key_code == KB_UP || e.key_code == KB_DOWN || e.key_code == KB_PGUP
                    || e.key_code == KB_PGDN || e.key_code == KB_HOME || e.key_code == KB_END) {
                    &&& *final(event) == (Event { what: EventType::Nothing, ..e })
                    &&& final(self).bar_in_step()
                    &&& final(self).spec_delta() == (
                        if e.key_code == KB_UP { moved(-1) }
                        else if e.key_code == KB_DOWN { moved(1) }
                        else if e.key_code == KB_PGUP { moved(-page) }
                        else if e.key_code == KB_PGDN { moved(page) }
                        else if e.key_code == KB_HOME { Point { x: 0, y: 0 } }
                        else { Point { x: 0, y: lim.y } })
                } else {
                    *final(event) == e && final(self).spec_delta() == d && final(self).spec_bar() == old(self).spec_bar()
                }
            }),
    {
        if event.what != EventType::Keyboard {
            return;
        }
        let page: i32 = self.bounds.b.y as i32 - self.bounds.a.y as i32 - 1;
        let k = event.key_code;
        if k == KB_UP {
            self.scroll_by(0, -1);
        } else if k == KB_DOWN {
            self.scroll_by(0, 1);
        } else if k == KB_PGUP {
            self.scroll_by(0, -page);
        } else if k == KB_PGDN {
            self.scroll_by(0, page);
        } else if k == KB_HOME {
            self.delta = Point::new(0, 0);
            self.update_scrollbar();
        } else if k == KB_END {
            self.delta = Point::new(0, self.limit.y);
            self.update_scrollbar();
        } else {
            return;
        }
        event.clear();
    }

    /// The colour of the text.
    pub open spec fn spec_text_attr(&self) -> Attr {
        Attr { value: if self.spec_state() & SF_FOCUSED != 0 { HELP_FOCUSED_ATTR } else { HELP_NORMAL_ATTR } }
    }

    /// The text of row `row`: the line scrolled there, or nothing past the end.
    pub open spec fn spec_row_text(&self, row: int) -> Seq<char> {
        let idx = ((self.spec_delta().y as usize) as int) + row;
        if idx < self.spec_lines().len() { self.spec_lines()[idx] } else { seq![] }
    }

    /// Draw the visible lines, one per row of the bounds, then the scroll bar.
    pub fn draw(&self) -> (lines: Vec<DrawLine>)
        requires
            0 <= spec_height(self.spec_bounds()) <= i16::MAX,
            (if self.spec_bar() is Some { 1int } else { 0int }) <= spec_width(self.spec_bounds()) <= i16::MAX,
        ensures
            lines@.len() >= spec_height(self.spec_bounds()),
            forall|r: int| 0 <= r < spec_height(self.spec_bounds()) ==> {
                let w = spec_width(self.spec_bounds()) - (if self.spec_bar() is Some { 1int } else { 0int });
                &&& #[trigger] lines@[r].x == self.spec_bounds().a.x
                &&& lines@[r].y == self.spec_bounds().a.y + r
                &&& lines@[r].buf.data@ == put_text(
                    Seq::new(w as nat, |j: int| Cell { ch: ' ', attr: self.spec_text_attr() }),
                    0,
                    self.spec_row_text(r),
                    self.spec_text_attr(),
                )
            },
    {
        let height = (self.bounds.b.y as i32 - self.bounds.a.y as i32) as usize;
        let full = (self.bounds.b.x as i32 - self.bounds.a.x as i32) as usize;
        let width = if self.vscrollbar.is_some() { full - 1 } else { full };
        let attr = Attr::from_u8(if self.state & SF_FOCUSED != 0 { HELP_FOCUSED_ATTR } else { HELP_NORMAL_ATTR });
        let start = self.delta.y as usize;
        let mut lines: Vec<DrawLine> = Vec::new();
        let mut row: usize = 0;
        while row < height
            invariant
                height == spec_height(self.spec_bounds()),
                width == spec_width(self.spec_bounds()) - (if self.spec_bar() is Some { 1int } else { 0int }),
                start == (self.spec_delta().y as usize),
                attr == self.spec_text_attr(),
                height <= i16::MAX,
                row <= height,
                lines@.len() == row,
                forall|r: int| 0 <= r < row ==> {
                    &&& #[trigger] lines@[r].x == self.spec_bounds().a.x
                    &&& lines@[r].y == self.spec_bounds().a.y + r
                    &&& lines@[r].buf.data@ == put_text(
                        Seq::new(width as nat, |j: int| Cell { ch: ' ', attr: self.spec_text_attr() }),
                        0,
                        self.spec_row_text(r),
                        self.spec_text_attr(),
                    )
                },
            decreases height - row,
        {
            let idx: u128 = start as u128 + row as u128;
            let text: Vec<char> = if idx < self.lines.len() as u128 {
                string_chars(&self.lines[idx as usize])
            } else {
                Vec::new()
            };
            assert(text@ == self.spec_row_text(row as int));
            let mut buf = DrawBuffer::new(width);
            buf.move_char(0, ' ', attr, width);
            assert(buf.data@ =~= Seq::new(width as nat, |j: int| Cell { ch: ' ', attr: self.spec_text_attr() }));
            buf.move_chars(0, &text, attr);
            let ghost cells = buf.data@;
            let y: i16 = (self.bounds.a.y as i32 + row as i32) as i16;
            lines.push(DrawLine::new(self.bounds.a.x, y, buf));
            assert(lines@[row as int].buf.data@ == cells);
            row = row + 1;
        }
        match &self.vscrollbar {
            Some(sb) => {
                let mut bar_lines = sb.draw(Attr::from_u8(HELP_NORMAL_ATTR), Attr::from_u8(HELP_FOCUSED_ATTR));
                let ghost before = lines@;
                lines.append(&mut bar_lines);
                assert forall|r: int| 0 <= r < height implies lines@[r] == before[r] by {}
            },
            None => {},
        }
        lines
    }
}

} // verus!
