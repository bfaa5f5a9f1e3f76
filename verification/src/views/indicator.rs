//! The line and column indicator of an editor window, with a modified mark.
use vstd::prelude::*;
use crate::draw::{put_text, Attr, Cell, DrawBuffer, DrawLine};
use crate::geometry::{spec_width, Point, Rect};
use crate::text::{extend_chars, signed_decimal, signed_decimal_chars};

verus! {

/// Colours of the indicator: saved and modified text.
#[derive(Clone, Copy, Debug, PartialEq, Eq, Structural)]
pub struct IndicatorColors {
    pub normal: Attr,
    pub modified: Attr,
}

pub struct Indicator {
    bounds: Rect,
    location: Point,
    modified: bool,
}

/// The text shown: ` line:column `, with ` * ` closing it when modified.
pub open spec fn indicator_text(location: Point, modified: bool) -> Seq<char> {
    seq![' '] + signed_decimal(location.y as int) + seq![':'] + signed_decimal(location.x as int)
        + (if modified { seq![' ', '*', ' '] } else { seq![' '] })
}

impl Indicator {
    pub closed spec fn spec_bounds(&self) -> Rect {
        self.bounds
    }

    /// The position shown, line in `y` and column in `x`, both counted from 1.
    pub closed spec fn spec_location(&self) -> Point {
        self.location
    }

    pub closed spec fn spec_modified(&self) -> bool {
        self.modified
    }

    /// An indicator at line 1, column 1, unmodified.
    pub fn new(bounds: Rect) -> (i: Self)
        ensures
            i.spec_bounds() == bounds,
            i.spec_location() == (Point { x: 1, y: 1 }),
            !i.spec_modified(),
    {
        Indicator { bounds, location: Point::new(1, 1), modified: false }
    }

    pub fn set_value(&mut self, location: Point, modified: bool)
        ensures
            final(self).spec_bounds() == old(self).spec_bounds(),
            final(self).spec_location() == location,
            final(self).spec_modified() == modified,
    {
        self.location = location;
        self.modified = modified;
    }

    pub fn bounds(&self) -> (r: Rect)
        ensures
            r == self.spec_bounds(),
    {
        self.bounds
    }

    pub fn set_bounds(&mut self, bounds: Rect)
        ensures
            final(self).spec_bounds() == bounds,
            final(self).spec_location() == old(self).spec_location(),
            final(self).spec_modified() == old(self).spec_modified(),
    {
        self.bounds = bounds;
    }

    /// The text shown.
    pub fn text(&self) -> (t: Vec<char>)
        ensures
            t@ == indicator_text(self.spec_location(), self.spec_modified()),
    {
        let mut t: Vec<char> = vec![' '];
        let line = signed_decimal_chars(self.location.y as i64);
        extend_chars(&mut t, &line);
        t.push(':');
        let col = signed_decimal_chars(self.location.x as i64);
        extend_chars(&mut t, &col);
        let tail: Vec<char> = if self.modified { vec![' ', '*', ' '] } else { vec![' '] };
        extend_chars(&mut t, &tail);
        assert(t@ =~= indicator_text(self.spec_location(), self.spec_modified()));
        t
    }

    /// Draw the text right-aligned on the first row, in the modified colour when modified.
    pub fn draw(&self, colors: IndicatorColors) -> (line: DrawLine)
        requires
            0 <= spec_width(self.spec_bounds()) <= i16::MAX,
        ensures
            ({
                let w = spec_width(self.spec_bounds());
                let text = indicator_text(self.spec_location(), self.spec_modified());
                let color = if self.spec_modified() { colors.modified } else { colors.normal };
                let shown = if text.len() < w { text.len() as int } else { w };
                &&& line.x == self.spec_bounds().a.x
                &&& line.y == self.spec_bounds().a.y
                &&& line.buf.data@ == put_text(Seq::new(w as nat, |j: int| Cell { ch: ' ', attr: color }), w - shown, text, color)
            }),
    {
        let width = self.bounds.width() as usize;
        let text = self.text();
        let color = if self.modified { colors.modified } else { colors.normal };
        let text_len = if text.len() < width { text.len() } else { width };
        let start = width - text_len;
        let mut buf = DrawBuffer::new(width);
        buf.move_char(0, ' ', color, width);
        assert(buf.data@ =~= Seq::new(width as nat, |j: int| Cell { ch: ' ', attr: color }));
        buf.move_chars(start, &text, color);
        DrawLine::new(self.bounds.a.x, self.bounds.a.y, buf)
    }
}

/// Builds an indicator from its bounds.
pub struct IndicatorBuilder {
    bounds: Option<Rect>,
}

impl IndicatorBuilder {
    pub closed spec fn spec_bounds(&self) -> Option<Rect> {
        self.bounds
    }

    pub fn new() -> (b: Self)
        ensures
            b.spec_bounds() is None,
    {
        IndicatorBuilder { bounds: None }
    }

    pub fn bounds(self, bounds: Rect) -> (b: Self)
        ensures
            b.spec_bounds() == Some(bounds),
    {
        IndicatorBuilder { bounds: Some(bounds) }
    }

    /// The indicator; the bounds must have been given.
    pub fn build(self) -> (i: Indicator)
        requires
            self.spec_bounds() is Some,
        ensures
            i.spec_bounds() == self.spec_bounds()->0,
            i.spec_location() == (Point { x: 1, y: 1 }),
            !i.spec_modified(),
    {
        match self.bounds {
            Some(b) => Indicator::new(b),
            None => Indicator::new(Rect::new(0, 0, 0, 0)),
        }
    }

    pub fn build_boxed(self) -> (i: Box<Indicator>)
        requires
            self.spec_bounds() is Some,
        ensures
            i.spec_bounds() == self.spec_bounds()->0,
            i.spec_location() == (Point { x: 1, y: 1 }),
            !i.spec_modified(),
    {
        Box::new(self.build())
    }
}

impl Default for IndicatorBuilder {
    fn default() -> (b: Self)
        ensures
            b.spec_bounds() is None,
    {
        IndicatorBuilder::new()
    }
}

} // verus!
