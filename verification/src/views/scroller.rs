//! A view scrolled over a larger content, with optional scroll bars kept in step.
use vstd::prelude::*;
use crate::draw::{Attr, DrawLine};
use crate::event::{Event, EventType};
use crate::geometry::{spec_height, spec_width, Point, Rect};
use crate::views::scrollbar::{clamp_lo_hi, imax, key_fits, key_target, ScrollBar};

verus! {

/// The value a bar takes from event `e`, and the event it leaves.
pub open spec fn bar_step(sb: ScrollBar, e: Event) -> (int, Event) {
    let t = key_target(sb, e.key_code);
    if e.what == EventType::Keyboard && t is Some {
        (t->0, Event { what: EventType::Nothing, ..e })
    } else {
        (sb.spec_value(), e)
    }
}

/// `v` clamped into `0..=limit`.
pub open spec fn clamp_delta(v: int, limit: int) -> int {
    if v < 0 { 0 } else if v > limit { limit } else { v }
}

pub struct Scroller {
    bounds: Rect,
    delta: Point,
    limit: Point,
    h_scrollbar: Option<Box<ScrollBar>>,
    v_scrollbar: Option<Box<ScrollBar>>,
}

/// The bar, if there is one.
pub open spec fn opt_bar(b: Option<Box<ScrollBar>>) -> Option<ScrollBar> {
    match b {
        Some(bar) => Some(*bar),
        None => None,
    }
}

/// `bar` shows `value` of `0..=limit`, a page being `page` cells.
pub open spec fn bar_shows(bar: Option<ScrollBar>, value: int, limit: int, page: int) -> bool {
    bar matches Some(b) ==> {
        &&& b.spec_min() == 0
        &&& b.spec_max() == imax(limit, 0)
        &&& b.spec_value() == clamp_lo_hi(value, 0, imax(limit, 0))
        &&& b.spec_pg_step() == page
        &&& b.spec_ar_step() == 1
    }
}

impl Scroller {
    pub closed spec fn spec_bounds(&self) -> Rect {
        self.bounds
    }

    /// How far the content is scrolled.
    pub closed spec fn spec_delta(&self) -> Point {
        self.delta
    }

    /// The largest scroll offset.
    pub closed spec fn spec_limit(&self) -> Point {
        self.limit
    }

    pub closed spec fn spec_h(&self) -> Option<ScrollBar> {
        opt_bar(self.h_scrollbar)
    }

    pub closed spec fn spec_v(&self) -> Option<ScrollBar> {
        opt_bar(self.v_scrollbar)
    }

    /// Both bars show the offsets and limits, a page being the width or height.
    pub open spec fn bars_in_step(&self) -> bool {
        &&& bar_shows(self.spec_h(), self.spec_delta().x as int, self.spec_limit().x as int, spec_width(self.spec_bounds()))
        &&& bar_shows(self.spec_v(), self.spec_delta().y as int, self.spec_limit().y as int, spec_height(self.spec_bounds()))
    }

    /// Put the offsets and limits into the bars.
    fn update_scrollbars(&mut self)
        ensures
            final(self).spec_bounds() == old(self).spec_bounds(),
            final(self).spec_delta() == old(self).spec_delta(),
            final(self).spec_limit() == old(self).spec_limit(),
            final(self).spec_h() is Some == old(self).spec_h() is Some,
            final(self).spec_v() is Some == old(self).spec_v() is Some,
            final(self).bars_in_step(),
            old(self).spec_h() matches Some(b) ==> final(self).spec_h()->0.spec_bounds() == b.spec_bounds()
                && final(self).spec_h()->0.spec_vertical() == b.spec_vertical(),
            old(self).spec_v() matches Some(b) ==> final(self).spec_v()->0.spec_bounds() == b.spec_bounds()
                && final(self).spec_v()->0.spec_vertical() == b.spec_vertical(),
    {
        let width: i32 = self.bounds.b.x as i32 - self.bounds.a.x as i32;
        let height: i32 = self.bounds.b.y as i32 - self.bounds.a.y as i32;
        let dx = self.delta.x as i32;
        let lx = self.limit.x as i32;
        let dy = self.delta.y as i32;
        let ly = self.limit.y as i32;
        match &mut self.h_scrollbar {
            Some(bar) => bar.set_params(dx, 0, lx, width, 1),
            None => {},
        }
        match &mut self.v_scrollbar {
            Some(bar) => bar.set_params(dy, 0, ly, height, 1),
            None => {},
        }
    }

    /// A scroller over nothing yet, with the given bars.
    pub fn new(bounds: Rect, h_scrollbar: Option<Box<ScrollBar>>, v_scrollbar: Option<Box<ScrollBar>>) -> (s: Self)
        ensures
            s.spec_bounds() == bounds,
            s.spec_delta() == (Point { x: 0, y: 0 }),
            s.spec_limit() == (Point { x: 0, y: 0 }),
            s.spec_h() is Some == h_scrollbar is Some,
            s.spec_v() is Some == v_scrollbar is Some,
            s.bars_in_step(),
    {
        let mut s = Scroller { bounds, delta: Point::zero(), limit: Point::zero(), h_scrollbar, v_scrollbar };
        s.update_scrollbars();
        s
    }

    /// Scroll to `(x, y)`, kept inside `0..=limit`.
    pub fn scroll_to(&mut self, x: i16, y: i16)
        requires
            old(self).spec_limit().x >= 0,
            old(self).spec_limit().y >= 0,
        ensures
            final(self).spec_delta().x == clamp_delta(x as int, old(self).spec_limit().x as int),
            final(self).spec_delta().y == clamp_delta(y as int, old(self).spec_limit().y as int),
            final(self).spec_limit() == old(self).spec_limit(),
            final(self).spec_bounds() == old(self).spec_bounds(),
            final(self).spec_h() is Some == old(self).spec_h() is Some,
            final(self).spec_v() is Some == old(self).spec_v() is Some,
            final(self).bars_in_step(),
    {
        let cx = if x < 0 { 0 } else { x };
        self.delta.x = if cx > self.limit.x { self.limit.x } else { cx };
        let cy = if y < 0 { 0 } else { y };
        self.delta.y = if cy > self.limit.y { self.limit.y } else { cy };
        self.update_scrollbars();
    }

    /// Set the largest offsets (negative ones count as zero), pulling the
    /// offsets back inside.
    pub fn set_limit(&mut self, x: i16, y: i16)
        ensures
            final(self).spec_limit().x == (if x < 0 { 0 } else { x as int }),
            final(self).spec_limit().y == (if y < 0 { 0 } else { y as int }),
            final(self).spec_delta().x == (if old(self).spec_delta().x < final(self).spec_limit().x {
                old(self).spec_delta().x
            } else {
                final(self).spec_limit().x
            }),
            final(self).spec_delta().y == (if old(self).spec_delta().y < final(self).spec_limit().y {
                old(self).spec_delta().y
            } else {
                final(self).spec_limit().y
            }),
            final(self).spec_bounds() == old(self).spec_bounds(),
            final(self).spec_h() is Some == old(self).spec_h() is Some,
            final(self).spec_v() is Some == old(self).spec_v() is Some,
            final(self).bars_in_step(),
    {
        self.limit.x = if x < 0 { 0 } else { x };
        self.limit.y = if y < 0 { 0 } else { y };
        self.delta.x = if self.delta.x < self.limit.x { self.delta.x } else { self.limit.x };
        self.delta.y = if self.delta.y < self.limit.y { self.delta.y } else { self.limit.y };
        self.update_scrollbars();
    }

    pub fn get_delta(&self) -> (d: Point)
        ensures
            d == self.spec_delta(),
    {
        self.delta
    }

    pub fn get_limit(&self) -> (l: Point)
        ensures
            l == self.spec_limit(),
    {
        self.limit
    }

    pub fn bounds(&self) -> (r: Rect)
        ensures
            r == self.spec_bounds(),
    {
        self.bounds
    }

    /// Move the scroller; the horizontal bar goes along its bottom row and the
    /// vertical bar down its right column.
    pub fn set_bounds(&mut self, bounds: Rect)
        requires
            bounds.b.x > i16::MIN,
            bounds.b.y > i16::MIN,
        ensures
            final(self).spec_bounds() == bounds,
            final(self).spec_delta() == old(self).spec_delta(),
            final(self).spec_limit() == old(self).spec_limit(),
            final(self).spec_h() is Some == old(self).spec_h() is Some,
            final(self).spec_v() is Some == old(self).spec_v() is Some,
            final(self).spec_h() matches Some(b) ==> b.spec_bounds() == (Rect { a: Point { x: bounds.a.x, y: (bounds.b.y - 1) as i16 }, b: Point { x: (bounds.b.x - 1) as i16, y: bounds.b.y } }),
            final(self).spec_v() matches Some(b) ==> b.spec_bounds() == (Rect { a: Point { x: (bounds.b.x - 1) as i16, y: bounds.a.y }, b: Point { x: bounds.b.x, y: (bounds.b.y - 1) as i16 } }),
            final(self).bars_in_step(),
    {
        self.bounds = bounds;
        match &mut self.h_scrollbar {
            Some(bar) => bar.set_bounds(Rect::new(bounds.a.x, bounds.b.y - 1, bounds.b.x - 1, bounds.b.y)),
            None => {},
        }
        match &mut self.v_scrollbar {
            Some(bar) => bar.set_bounds(Rect::new(bounds.b.x - 1, bounds.a.y, bounds.b.x, bounds.b.y - 1)),
            None => {},
        }
        self.update_scrollbars();
    }

    /// Let the bars take the event, then follow their values; an event that
    /// moved the offsets is cleared.
    pub fn handle_scrollbar_events(&mut self, event: &mut Event)
        requires
            old(self).spec_h() matches Some(b) ==> (old(event).what == EventType::Keyboard ==> key_fits(b, old(event).key_code)),
            old(self).spec_v() matches Some(b) ==> ({
                let e1 = match old(self).spec_h() {
                    Some(h) => bar_step(h, *old(event)).1,
                    None => *old(event),
                };
                e1.what == EventType::Keyboard ==> key_fits(b, e1.key_code)
            }),
        ensures
            ({
                let e0 = *old(event);
                let e1 = match old(self).spec_h() { Some(h) => bar_step(h, e0).1, None => e0 };
                let e2 = match old(self).spec_v() { Some(v) => bar_step(v, e1).1, None => e1 };
                let dx = match old(self).spec_h() { Some(h) => bar_step(h, e0).0 as i16, None => old(self).spec_delta().x };
                let dy = match old(self).spec_v() { Some(v) => bar_step(v, e1).0 as i16, None => old(self).spec_delta().y };
                &&& final(self).spec_delta() == (Point { x: dx, y: dy })
                &&& *final(event) == (if final(self).spec_delta() != old(self).spec_delta() {
                    Event { what: EventType::Nothing, ..e2 }
                } else {
                    e2
                })
            }),
            final(self).spec_limit() == old(self).spec_limit(),
            final(self).spec_bounds() == old(self).spec_bounds(),
            final(self).spec_h() is Some == old(self).spec_h() is Some,
            final(self).spec_v() is Some == old(self).spec_v() is Some,
    {
        let old_delta = self.delta;
        match &mut self.h_scrollbar {
            Some(bar) => {
                bar.handle_event(event);
                self.delta.x = bar.get_value() as i16;
            },
            None => {},
        }
        match &mut self.v_scrollbar {
            Some(bar) => {
                bar.handle_event(event);
                self.delta.y = bar.get_value() as i16;
            },
            None => {},
        }
        if old_delta.x != self.delta.x || old_delta.y != self.delta.y {
            event.clear();
        }
    }

    /// The lines of the bars, horizontal first.
    pub fn draw_scrollbars(&self, page_attr: Attr, indicator_attr: Attr) -> (lines: Vec<DrawLine>)
        ensures
            ({
                let hn = match self.spec_h() {
                    Some(b) => b.spec_line_count(),
                    None => 0,
                };
                let vn = match self.spec_v() {
                    Some(b) => b.spec_line_count(),
                    None => 0,
                };
                &&& lines@.len() == hn + vn
                &&& self.spec_h() matches Some(b) ==> forall|k: int| 0 <= k < hn ==> b.draws_line(
                    page_attr,
                    indicator_attr,
                    k,
                    #[trigger] lines@[k],
                )
                &&& self.spec_v() matches Some(b) ==> forall|k: int| hn <= k < hn + vn ==> b.draws_line(
                    page_attr,
                    indicator_attr,
                    k - hn,
                    #[trigger] lines@[k],
                )
            }),
    {
        let mut lines: Vec<DrawLine> = Vec::new();
        match &self.h_scrollbar {
            Some(bar) => {
                let mut l = bar.draw(page_attr, indicator_attr);
                lines.append(&mut l);
            },
            None => {},
        }
        let ghost first = lines@;
        match &self.v_scrollbar {
            Some(bar) => {
                let mut l = bar.draw(page_attr, indicator_attr);
                let ghost lv = l@;
                lines.append(&mut l);
                assert forall|k: int| first.len() <= k < lines@.len() implies bar.draws_line(
                    page_attr,
                    indicator_attr,
                    k - first.len(),
                    #[trigger] lines@[k],
                ) by {
                    assert(lines@[k] == lv[k - first.len()]);
                }
            },
            None => {},
        }
        lines
    }
}

} // verus!
