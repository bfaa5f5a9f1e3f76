//! Screen coordinates: points and half-open rectangles.
use vstd::prelude::*;

verus! {

/// A cell position on the screen, column `x` and row `y`.
#[derive(Clone, Copy, Debug, PartialEq, Eq, Structural)]
pub struct Point {
    pub x: i16,
    pub y: i16,
}

impl Point {
    pub fn new(x: i16, y: i16) -> (p: Point)
        ensures
            p.x == x,
            p.y == y,
    {
        Point { x, y }
    }

    pub fn zero() -> (p: Point)
        ensures
            p.x == 0,
            p.y == 0,
    {
        Point { x: 0, y: 0 }
    }
}

/// A rectangle covering the cells `a.x <= x < b.x`, `a.y <= y < b.y`.
#[derive(Clone, Copy, Debug, PartialEq, Eq, Structural)]
pub struct Rect {
    pub a: Point,
    pub b: Point,
}

/// Width of a rectangle as a mathematical integer.
pub open spec fn spec_width(r: Rect) -> int {
    r.b.x - r.a.x
}

/// Height of a rectangle as a mathematical integer.
pub open spec fn spec_height(r: Rect) -> int {
    r.b.y - r.a.y
}

/// An integer clamped into `0..=i16::MAX`.
pub open spec fn clamp_extent(v: int) -> int {
    if v < 0 {
        0
    } else if v > i16::MAX {
        i16::MAX as int
    } else {
        v
    }
}

/// Whether `p` lies on one of the cells of `r`.
pub open spec fn spec_contains(r: Rect, p: Point) -> bool {
    r.a.x <= p.x < r.b.x && r.a.y <= p.y < r.b.y
}

/// Whether `p`, taken in the rectangle's own space (its top-left corner at the
/// origin), lies on one of its cells.
pub open spec fn spec_in_extent(r: Rect, p: Point) -> bool {
    0 <= p.x < spec_width(r) && 0 <= p.y < spec_height(r)
}

/// Whether two rectangles share a cell.
pub open spec fn spec_intersects(r: Rect, o: Rect) -> bool {
    r.a.x < o.b.x && o.a.x < r.b.x && r.a.y < o.b.y && o.a.y < r.b.y
}

impl Rect {
    pub fn new(ax: i16, ay: i16, bx: i16, by: i16) -> (r: Rect)
        ensures
            r.a.x == ax,
            r.a.y == ay,
            r.b.x == bx,
            r.b.y == by,
    {
        Rect { a: Point { x: ax, y: ay }, b: Point { x: bx, y: by } }
    }

    /// Signed width, `b.x - a.x`.
    pub fn width(&self) -> (w: i16)
        requires
            i16::MIN <= spec_width(*self) <= i16::MAX,
        ensures
            w == spec_width(*self),
    {
        self.b.x - self.a.x
    }

    /// Signed height, `b.y - a.y`.
    pub fn height(&self) -> (h: i16)
        requires
            i16::MIN <= spec_height(*self) <= i16::MAX,
        ensures
            h == spec_height(*self),
    {
        self.b.y - self.a.y
    }

    /// Width never below zero nor above `i16::MAX`.
    pub fn width_clamped(&self) -> (w: i16)
        ensures
            w == clamp_extent(spec_width(*self)),
            w >= 0,
    {
        let w: i32 = self.b.x as i32 - self.a.x as i32;
        if w < 0 {
            0
        } else if w > 32767 {
            32767
        } else {
            w as i16
        }
    }

    /// Height never below zero nor above `i16::MAX`.
    pub fn height_clamped(&self) -> (h: i16)
        ensures
            h == clamp_extent(spec_height(*self)),
            h >= 0,
    {
        let h: i32 = self.b.y as i32 - self.a.y as i32;
        if h < 0 {
            0
        } else if h > 32767 {
            32767
        } else {
            h as i16
        }
    }

    pub fn contains(&self, p: Point) -> (c: bool)
        ensures
            c == spec_contains(*self, p),
    {
        self.a.x <= p.x && p.x < self.b.x && self.a.y <= p.y && p.y < self.b.y
    }

    /// Whether `p`, taken in the rectangle's own space, lies on one of its cells.
    pub fn extent_contains(&self, p: Point) -> (c: bool)
        ensures
            c == spec_in_extent(*self, p),
    {
        let w: i32 = self.b.x as i32 - self.a.x as i32;
        let h: i32 = self.b.y as i32 - self.a.y as i32;
        0 <= p.x && (p.x as i32) < w && 0 <= p.y && (p.y as i32) < h
    }

    /// Whether the two rectangles share a cell.
    pub fn intersects(&self, other: &Rect) -> (c: bool)
        ensures
            c == spec_intersects(*self, *other),
    {
        self.a.x < other.b.x && other.a.x < self.b.x && self.a.y < other.b.y && other.a.y < self.b.y
    }

    /// Whether the rectangle covers no cell.
    pub fn is_empty(&self) -> (e: bool)
        ensures
            e == (spec_width(*self) <= 0 || spec_height(*self) <= 0),
    {
        self.b.x <= self.a.x || self.b.y <= self.a.y
    }
}

} // verus!
