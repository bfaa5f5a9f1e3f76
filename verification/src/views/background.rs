//! The pattern that fills the desktop behind the windows.
use vstd::prelude::*;
use crate::draw::{Attr, Cell, DrawBuffer, DrawLine};
use crate::geometry::{clamp_extent, spec_height, spec_width, Rect};
use crate::state::{GF_GROW_HI_X, GF_GROW_HI_Y};

verus! {

/// The character the background is filled with unless another is chosen.
pub const DEFAULT_PATTERN: char = '\u{2591}';

pub struct Background {
    bounds: Rect,
    grow_mode: u8,
    pattern: char,
    attr: Attr,
}

impl Background {
    pub closed spec fn spec_bounds(&self) -> Rect {
        self.bounds
    }

    pub closed spec fn spec_grow_mode(&self) -> u8 {
        self.grow_mode
    }

    pub closed spec fn spec_pattern(&self) -> char {
        self.pattern
    }

    pub closed spec fn spec_attr(&self) -> Attr {
        self.attr
    }

    /// A background of `pattern` in `attr`, growing with its owner to the right and down.
    pub fn new(bounds: Rect, pattern: char, attr: Attr) -> (b: Self)
        ensures
            b.spec_bounds() == bounds,
            b.spec_grow_mode() == GF_GROW_HI_X | GF_GROW_HI_Y,
            b.spec_pattern() == pattern,
            b.spec_attr() == attr,
    {
        Background { bounds, grow_mode: GF_GROW_HI_X | GF_GROW_HI_Y, pattern, attr }
    }

    pub fn bounds(&self) -> (r: Rect)
        ensures
            r == self.spec_bounds(),
    {
        self.bounds
    }

    pub fn set_bounds(&mut self, bounds: Rect)
        ensures
            final(self).spec_bounds() == bounds,
            final(self).spec_grow_mode() == old(self).spec_grow_mode(),
            final(self).spec_pattern() == old(self).spec_pattern(),
            final(self).spec_attr() == old(self).spec_attr(),
    {
        self.bounds = bounds;
    }

    pub fn grow_mode(&self) -> (g: u8)
        ensures
            g == self.spec_grow_mode(),
    {
        self.grow_mode
    }

    /// Every row of the bounds, filled with the pattern.
    pub fn draw(&self) -> (lines: Vec<DrawLine>)
        ensures
            lines@.len() == (if spec_height(self.spec_bounds()) > 0 { spec_height(self.spec_bounds()) } else { 0 }),
            forall|i: int| 0 <= i < lines@.len() ==> {
                &&& #[trigger] lines@[i].x == self.spec_bounds().a.x
                &&& lines@[i].y == self.spec_bounds().a.y + i
                &&& lines@[i].buf.data@ == Seq::new(
                    clamp_extent(spec_width(self.spec_bounds())) as nat,
                    |j: int| Cell { ch: self.spec_pattern(), attr: self.spec_attr() },
                )
            },
    {
        let width = self.bounds.width_clamped() as usize;
        let mut lines: Vec<DrawLine> = Vec::new();
        let mut y: i16 = self.bounds.a.y;
        if self.bounds.b.y <= y {
            return lines;
        }
        while y < self.bounds.b.y
            invariant
                self.spec_bounds().a.y <= y <= self.spec_bounds().b.y,
                width == clamp_extent(spec_width(self.spec_bounds())),
                lines@.len() == y - self.spec_bounds().a.y,
                forall|i: int| 0 <= i < lines@.len() ==> {
                    &&& #[trigger] lines@[i].x == self.spec_bounds().a.x
                    &&& lines@[i].y == self.spec_bounds().a.y + i
                    &&& lines@[i].buf.data@ == Seq::new(
                        width as nat,
                        |j: int| Cell { ch: self.spec_pattern(), attr: self.spec_attr() },
                    )
                },
            decreases self.spec_bounds().b.y - y,
        {
            let mut buf = DrawBuffer::new(width);
            buf.move_char(0, self.pattern, self.attr, width);
            assert(buf.data@ =~= Seq::new(width as nat, |j: int| Cell { ch: self.spec_pattern(), attr: self.spec_attr() }));
            let ghost cells = buf.data@;
            lines.push(DrawLine::new(self.bounds.a.x, y, buf));
            assert(lines@[lines@.len() - 1].buf.data@ == cells);
            y = y + 1;
        }
        assert forall|i: int| 0 <= i < lines@.len() implies #[trigger] lines@[i].buf.data@ == Seq::new(
            clamp_extent(spec_width(self.spec_bounds())) as nat,
            |j: int| Cell { ch: self.spec_pattern(), attr: self.spec_attr() },
        ) by {
            assert(lines@[i].x == self.spec_bounds().a.x);
            assert(lines@[i].buf.data@ =~= Seq::new(
                clamp_extent(spec_width(self.spec_bounds())) as nat,
                |j: int| Cell { ch: self.spec_pattern(), attr: self.spec_attr() },
            ));
        }
        lines
    }
}

/// Builds a background from its bounds, pattern and attribute.
pub struct BackgroundBuilder {
    bounds: Option<Rect>,
    pattern: char,
    attr: Option<Attr>,
}

impl BackgroundBuilder {
    pub closed spec fn spec_bounds(&self) -> Option<Rect> {
        self.bounds
    }

    pub closed spec fn spec_pattern(&self) -> char {
        self.pattern
    }

    pub closed spec fn spec_attr(&self) -> Option<Attr> {
        self.attr
    }

    /// A builder with the light shade as pattern.
    pub fn new() -> (b: Self)
        ensures
            b.spec_bounds() is None,
            b.spec_pattern() == DEFAULT_PATTERN,
            b.spec_attr() is None,
    {
        BackgroundBuilder { bounds: None, pattern: DEFAULT_PATTERN, attr: None }
    }

    pub fn bounds(self, bounds: Rect) -> (b: Self)
        ensures
            b.spec_bounds() == Some(bounds),
            b.spec_pattern() == self.spec_pattern(),
            b.spec_attr() == self.spec_attr(),
    {
        BackgroundBuilder { bounds: Some(bounds), ..self }
    }

    pub fn pattern(self, pattern: char) -> (b: Self)
        ensures
            b.spec_bounds() == self.spec_bounds(),
            b.spec_pattern() == pattern,
            b.spec_attr() == self.spec_attr(),
    {
        BackgroundBuilder { pattern, ..self }
    }

    pub fn attr(self, attr: Attr) -> (b: Self)
        ensures
            b.spec_bounds() == self.spec_bounds(),
            b.spec_pattern() == self.spec_pattern(),
            b.spec_attr() == Some(attr),
    {
        BackgroundBuilder { attr: Some(attr), ..self }
    }

    /// The background; bounds and attribute must have been given.
    pub fn build(self) -> (b: Background)
        requires
            self.spec_bounds() is Some,
            self.spec_attr() is Some,
        ensures
            b.spec_bounds() == self.spec_bounds()->0,
            b.spec_pattern() == self.spec_pattern(),
            b.spec_attr() == self.spec_attr()->0,
            b.spec_grow_mode() == GF_GROW_HI_X | GF_GROW_HI_Y,
    {
        let bounds = match self.bounds {
            Some(b) => b,
            None => Rect::new(0, 0, 0, 0),
        };
        let attr = match self.attr {
            Some(a) => a,
            None => Attr::from_u8(0),
        };
        Background::new(bounds, self.pattern, attr)
    }

    pub fn build_boxed(self) -> (b: Box<Background>)
        requires
            self.spec_bounds() is Some,
            self.spec_attr() is Some,
        ensures
            b.spec_bounds() == self.spec_bounds()->0,
            b.spec_pattern() == self.spec_pattern(),
            b.spec_attr() == self.spec_attr()->0,
    {
        Box::new(self.build())
    }
}

impl Default for BackgroundBuilder {
    fn default() -> (b: Self)
        ensures
            b.spec_bounds() is None,
            b.spec_pattern() == DEFAULT_PATTERN,
            b.spec_attr() is None,
    {
        BackgroundBuilder::new()
    }
}

} // verus!
