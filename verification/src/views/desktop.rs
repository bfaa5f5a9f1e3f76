//! The desktop: the area behind the windows. It holds a background, always
//! the bottom child, and the windows above it in stacking order, the top
//! window last. Window indices given to the desktop leave the background out:
//! window 0 is the child just above it.
use vstd::prelude::*;
use crate::draw::Attr;
use crate::event::{Event, EventType};
use crate::geometry::{spec_contains, spec_height, spec_width, Point, Rect};
use crate::state::{OF_CENTER_X, OF_CENTER_Y, OF_TOP_SELECT, SF_CLOSED, SF_FOCUSED, SF_MODAL};
use crate::views::background::{Background, DEFAULT_PATTERN};
use crate::views::group::{
    all_unfocused, focus_only, lemma_next_can_focus_range, meeting_upto, next_can_focus, topmost_under,
    with_focus, ChildInfo, Group,
};
use crate::views::handle::ViewId;

verus! {

/// The colour of the desktop's background pattern.
pub const DESKTOP_ATTR: u8 = 0x71;

/// Half of `v`, rounded toward zero.
pub open spec fn half_toward_zero(v: int) -> int {
    if v >= 0 {
        v / 2
    } else {
        -((-v) / 2)
    }
}

/// `(lo, hi)` moved to the middle of a span of `outer` cells, keeping its size.
pub open spec fn centered_span(lo: int, hi: int, outer: int) -> (int, int) {
    let c = half_toward_zero(outer - (hi - lo));
    (c, c + (hi - lo))
}

/// Whether centering `(lo, hi)` in `outer` cells stays inside `i16` at every step.
pub open spec fn span_fits(lo: int, hi: int, outer: int) -> bool {
    &&& i16::MIN <= hi - lo <= i16::MAX
    &&& i16::MIN <= outer <= i16::MAX
    &&& i16::MIN <= outer - (hi - lo) <= i16::MAX
    &&& i16::MIN <= centered_span(lo, hi, outer).1 <= i16::MAX
}

/// `r` centered in the desktop bounds `desk` along the axes `options` asks for.
pub open spec fn centered_bounds(r: Rect, desk: Rect, options: u16) -> Rect {
    let x = if options & OF_CENTER_X != 0 {
        centered_span(r.a.x as int, r.b.x as int, spec_width(desk))
    } else {
        (r.a.x as int, r.b.x as int)
    };
    let y = if options & OF_CENTER_Y != 0 {
        centered_span(r.a.y as int, r.b.y as int, spec_height(desk))
    } else {
        (r.a.y as int, r.b.y as int)
    };
    Rect { a: Point { x: x.0 as i16, y: y.0 as i16 }, b: Point { x: x.1 as i16, y: y.1 as i16 } }
}

/// Whether centering `r` in `desk` as `options` asks stays inside `i16`.
pub open spec fn center_fits(r: Rect, desk: Rect, options: u16) -> bool {
    &&& options & OF_CENTER_X != 0 ==> span_fits(r.a.x as int, r.b.x as int, spec_width(desk))
    &&& options & OF_CENTER_Y != 0 ==> span_fits(r.a.y as int, r.b.y as int, spec_height(desk))
}

/// Whether a view asks to be centered.
pub open spec fn wants_centering(options: u16) -> bool {
    options & OF_CENTER_X != 0 || options & OF_CENTER_Y != 0
}

/// Whether a child has asked to be closed.
pub open spec fn is_closed(c: ChildInfo) -> bool {
    c.state & SF_CLOSED != 0
}

/// The ids of the children of `s` that have not asked to be closed, in order.
pub open spec fn open_ids(s: Seq<ChildInfo>) -> Seq<ViewId>
    decreases s.len(),
{
    if s.len() == 0 {
        Seq::empty()
    } else if is_closed(s[0]) {
        open_ids(s.drop_first())
    } else {
        seq![s[0].id] + open_ids(s.drop_first())
    }
}

/// The children of `s` that have not asked to be closed, in order.
pub open spec fn open_children(s: Seq<ChildInfo>) -> Seq<ChildInfo>
    decreases s.len(),
{
    if s.len() == 0 {
        Seq::empty()
    } else if is_closed(s[0]) {
        open_children(s.drop_first())
    } else {
        seq![s[0]] + open_children(s.drop_first())
    }
}

proof fn lemma_open_children_ids(s: Seq<ChildInfo>)
    ensures
        ids(open_children(s)) == open_ids(s),
    decreases s.len(),
{
    if s.len() > 0 {
        lemma_open_children_ids(s.drop_first());
        assert(ids(seq![s[0]] + open_children(s.drop_first())) =~= seq![s[0].id] + ids(open_children(s.drop_first())));
    }
}

/// Setting then clearing the focused flag, or clearing it twice, is clearing it once.
proof fn lemma_focus_twice(c: ChildInfo)
    ensures
        with_focus(with_focus(c, true), false) == with_focus(c, false),
        with_focus(with_focus(c, false), false) == with_focus(c, false),
{
    let st = c.state;
    assert((st | 0x40u16) & !0x40u16 == st & !0x40u16) by (bit_vector);
    assert((st & !0x40u16) & !0x40u16 == st & !0x40u16) by (bit_vector);
}

/// The ids of the children, in order.
pub open spec fn ids(s: Seq<ChildInfo>) -> Seq<ViewId> {
    s.map_values(|c: ChildInfo| c.id)
}

/// The redraws owed to moved windows among children `1..k`: each moved
/// child's exposed area, and the window index to redraw from.
pub open spec fn moved_upto(unions: Seq<Option<Rect>>, k: int) -> Seq<(Rect, usize)>
    decreases k,
{
    if k <= 1 {
        Seq::empty()
    } else {
        moved_upto(unions, k - 1) + match unions[k - 1] {
            Some(r) => seq![(r, (k - 2) as usize)],
            None => Seq::<(Rect, usize)>::empty(),
        }
    }
}

/// The topmost window (not the background) under `p`.
pub open spec fn window_under(s: Seq<ChildInfo>, p: Point) -> Option<int> {
    match topmost_under(s, p, s.len() as int) {
        Some(i) => if i >= 1 {
            Some(i)
        } else {
            None
        },
        None => None,
    }
}

/// Setting or clearing the focused flag leaves the closed flag alone.
proof fn lemma_focus_keeps_closed(c: ChildInfo)
    ensures
        is_closed(with_focus(c, true)) == is_closed(c),
        is_closed(with_focus(c, false)) == is_closed(c),
{
    let st = c.state;
    assert((st | 0x40u16) & 0x2000u16 != 0 <==> st & 0x2000u16 != 0) by (bit_vector);
    assert((st & !0x40u16) & 0x2000u16 != 0 <==> st & 0x2000u16 != 0) by (bit_vector);
}

/// `topmost_under` finds a child below `n` that holds the point.
proof fn lemma_topmost_under_range(s: Seq<ChildInfo>, p: Point, n: int)
    requires
        n <= s.len(),
    ensures
        topmost_under(s, p, n) matches Some(i) ==> 0 <= i < n && spec_contains(s[i].bounds, p),
        topmost_under(s, p, n) is None ==> forall|j: int| 0 <= j < n ==> !spec_contains(#[trigger] s[j].bounds, p),
    decreases n,
{
    if n > 0 {
        lemma_topmost_under_range(s, p, n - 1);
    }
}

/// Cycling the windows one way and then back restores the stacking order and
/// the focus: when the top window may be selected by moving it, moving it to
/// the bottom of the windows and then bringing the bottom window to the top
/// gives the children and the focus index that were there before.
pub proof fn law_select_prev_undoes_select_next(s: Seq<ChildInfo>, f: int)
    requires
        s.len() > 2,
        s[s.len() - 1].options & OF_TOP_SELECT != 0,
        0 <= f < s.len(),
    ensures
        ({
            let n = s.len() as int;
            let t = s.remove(n - 1).insert(1, s[n - 1]);
            let g = if f == n - 1 {
                1
            } else if f >= 1 && f < n - 1 {
                f + 1
            } else {
                f
            };
            &&& t.len() == n
            &&& t[1].options & OF_TOP_SELECT != 0
            &&& t.remove(1).push(t[1]) == s
            &&& (if g == 1 {
                n - 1
            } else if g > 1 {
                g - 1
            } else {
                g
            }) == f
        }),
{
    let n = s.len() as int;
    let t = s.remove(n - 1).insert(1, s[n - 1]);
    assert(t.remove(1).push(t[1]) =~= s);
}

/// Where an event goes after the desktop has looked at it.
#[derive(Clone, Copy, Debug, PartialEq, Eq, Structural)]
pub enum DesktopRoute {
    /// Only to the modal window, the child at this index.
    Modal(usize),
    /// To the children, as the group routes it.
    Children,
}

pub struct Desktop {
    bounds: Rect,
    background: Background,
    children: Group,
}

impl Desktop {
    pub closed spec fn spec_bounds(&self) -> Rect {
        self.bounds
    }

    pub closed spec fn spec_group(&self) -> Group {
        self.children
    }

    pub closed spec fn spec_background(&self) -> Background {
        self.background
    }

    /// Every child, the background first.
    pub open spec fn spec_children(&self) -> Seq<ChildInfo> {
        self.spec_group().spec_children()
    }

    /// The group is well formed and holds the background.
    pub open spec fn wf(&self) -> bool {
        &&& self.spec_group().wf()
        &&& self.spec_children().len() >= 1
    }

    /// A desktop over `bounds` holding only its background, which covers it.
    pub fn new(bounds: Rect) -> (d: Self)
        requires
            i16::MIN <= spec_width(bounds) <= i16::MAX,
            i16::MIN <= spec_height(bounds) <= i16::MAX,
        ensures
            d.wf(),
            d.spec_bounds() == bounds,
            d.spec_group().spec_bounds() == bounds,
            d.spec_group().spec_focused() == 0,
            d.spec_background().spec_pattern() == DEFAULT_PATTERN,
            d.spec_background().spec_attr() == (Attr { value: DESKTOP_ATTR }),
            d.spec_background().spec_bounds() == d.spec_children()[0].bounds,
            d.spec_children().len() == 1,
            d.spec_children()[0] == (ChildInfo {
                id: ViewId { value: 1 },
                bounds: Rect {
                    a: Point { x: 0, y: 0 },
                    b: Point { x: spec_width(bounds) as i16, y: spec_height(bounds) as i16 },
                },
                can_focus: false,
                state: 0,
                options: 0,
                grow_mode: 0,
                label_link: None,
            }),
    {
        let mut children = Group::new(bounds);
        let w = bounds.width();
        let h = bounds.height();
        let background_bounds = Rect::new(0, 0, w, h);
        let background = Background::new(background_bounds, DEFAULT_PATTERN, Attr::from_u8(DESKTOP_ATTR));
        children.add_boxed(ChildInfo::new(background_bounds, false));
        Desktop { bounds, background, children }
    }

    /// The pattern drawn under the windows.
    pub fn background(&self) -> (b: &Background)
        ensures
            *b == self.spec_background(),
    {
        &self.background
    }

    /// The bounds `r` gets when a view with `options` is placed on the desktop.
    fn center_view(&self, r: Rect, options: u16) -> (c: Rect)
        requires
            center_fits(r, self.spec_bounds(), options),
        ensures
            c == centered_bounds(r, self.spec_bounds(), options),
    {
        let mut c = r;
        if options & OF_CENTER_X != 0 {
            let (lo, hi) = center_span(r.a.x, r.b.x, self.bounds.a.x, self.bounds.b.x);
            c.a.x = lo;
            c.b.x = hi;
        }
        if options & OF_CENTER_Y != 0 {
            let (lo, hi) = center_span(r.a.y, r.b.y, self.bounds.a.y, self.bounds.b.y);
            c.a.y = lo;
            c.b.y = hi;
        }
        c
    }

    /// Add a window on top, centered first if its options ask for it, and
    /// give it the focus if it takes focus. Returns its id.
    pub fn add(&mut self, view: ChildInfo) -> (id: ViewId)
        requires
            old(self).wf(),
            old(self).spec_group().spec_next_id() < u16::MAX,
            center_fits(view.bounds, old(self).spec_bounds(), view.options),
        ensures
            final(self).wf(),
            final(self).spec_bounds() == old(self).spec_bounds(),
            id.value == old(self).spec_group().spec_next_id(),
            ({
                let s = old(self).spec_children();
                let placed = ChildInfo {
                    id: id,
                    bounds: if wants_centering(view.options) {
                        centered_bounds(view.bounds, old(self).spec_bounds(), view.options)
                    } else {
                        view.bounds
                    },
                    ..view
                };
                if view.can_focus {
                    &&& final(self).spec_children() == focus_only(all_unfocused(s.push(placed)), s.len() as int)
                    &&& final(self).spec_group().spec_focused() == s.len()
                } else {
                    &&& final(self).spec_children() == s.push(placed)
                    &&& final(self).spec_group().spec_focused() == old(self).spec_group().spec_focused()
                }
            }),
    {
        let mut v = view;
        if view.options & OF_CENTER_X != 0 || view.options & OF_CENTER_Y != 0 {
            v.bounds = self.center_view(view.bounds, view.options);
        }
        let id = self.children.add_boxed(v);
        let n = self.children.len();
        let last = n - 1;
        if self.children.child_at(last).can_focus {
            self.children.clear_all_focus();
            self.children.set_focus_to(last);
        }
        id
    }

    /// The number of windows, the background left out.
    pub fn child_count(&self) -> (n: usize)
        requires
            self.wf(),
        ensures
            n == self.spec_children().len() - 1,
    {
        self.children.len() - 1
    }

    /// Window `index`.
    pub fn child_at(&self, index: usize) -> (c: &ChildInfo)
        requires
            index + 1 < self.spec_children().len(),
        ensures
            *c == self.spec_children()[index + 1],
    {
        let _n = self.children.len();
        self.children.child_at(index + 1)
    }

    /// Remove window `index`, if there is one.
    pub fn remove_child(&mut self, index: usize)
        requires
            old(self).wf(),
            index < usize::MAX,
        ensures
            final(self).wf(),
            final(self).spec_bounds() == old(self).spec_bounds(),
            index + 1 >= old(self).spec_children().len() ==> final(self).spec_children() == old(self).spec_children(),
            index + 1 < old(self).spec_children().len() ==> ids(final(self).spec_children()) == ids(
                old(self).spec_children().remove(index + 1),
            ),
    {
        self.children.remove(index + 1);
        proof {
            if index + 1 < old(self).spec_children().len() {
                assert(ids(self.spec_children()) =~= ids(old(self).spec_children().remove(index + 1)));
            }
        }
    }

    /// The children to redraw over `rect` after a window moved: the
    /// background, then the children from window `start_from_window` on
    /// whose bounds meet `rect`.
    pub fn draw_under_rect(&self, rect: Rect, start_from_window: usize) -> (plan: Vec<usize>)
        requires
            start_from_window < usize::MAX,
        ensures
            plan@ == seq![0usize] + meeting_upto(
                self.spec_children(),
                rect,
                start_from_window + 1,
                self.spec_children().len() as int,
            ),
    {
        let sub = self.children.draw_sub_views(start_from_window + 1, rect);
        let mut plan: Vec<usize> = Vec::new();
        plan.push(0);
        let mut i: usize = 0;
        while i < sub.len()
            invariant
                i <= sub@.len(),
                plan@ == seq![0usize] + sub@.take(i as int),
            decreases sub.len() - i,
        {
            plan.push(sub[i]);
            i = i + 1;
            assert(sub@.take(i as int) =~= sub@.take(i - 1).push(sub@[i - 1]));
        }
        assert(sub@.take(sub@.len() as int) =~= sub@);
        plan
    }

    /// The redraws owed to windows that moved: for each child (the
    /// background left out) whose entry in `unions` holds the area it
    /// covered before and after the move, that area and the window index to
    /// redraw from, bottom first.
    pub fn handle_moved_windows(&self, unions: &Vec<Option<Rect>>) -> (redraws: Vec<(Rect, usize)>)
        requires
            unions@.len() == self.spec_children().len(),
        ensures
            redraws@ == moved_upto(unions@, unions@.len() as int),
    {
        let n = self.children.len();
        let mut redraws: Vec<(Rect, usize)> = Vec::new();
        if n <= 1 {
            return redraws;
        }
        let mut i: usize = 1;
        while i < n
            invariant
                n == unions@.len(),
                1 <= i <= n,
                redraws@ == moved_upto(unions@, i as int),
            decreases n - i,
        {
            match unions[i] {
                Some(r) => {
                    redraws.push((r, i - 1));
                },
                None => {},
            }
            i = i + 1;
        }
        redraws
    }

    pub fn get_bounds(&self) -> (r: Rect)
        ensures
            r == self.spec_bounds(),
    {
        self.bounds
    }

    /// With two windows or more: the top window, if it may be selected by
    /// moving it, goes to the bottom of the windows.
    pub fn select_next(&mut self)
        requires
            old(self).wf(),
        ensures
            final(self).wf(),
            final(self).spec_bounds() == old(self).spec_bounds(),
            ({
                let s = old(self).spec_children();
                let n = s.len();
                let f = old(self).spec_group().spec_focused();
                if n > 2 && s[n - 1].options & OF_TOP_SELECT != 0 {
                    &&& final(self).spec_children() == s.remove(n - 1).insert(1, s[n - 1])
                    &&& final(self).spec_group().spec_focused() == (if f == n - 1 {
                        1
                    } else if f >= 1 && f < n - 1 {
                        f + 1
                    } else {
                        f
                    })
                } else {
                    &&& final(self).spec_children() == s
                    &&& final(self).spec_group().spec_focused() == f
                }
            }),
    {
        let n = self.children.len();
        if n <= 2 {
            return;
        }
        let top = n - 1;
        if self.children.child_at(top).options & OF_TOP_SELECT != 0 {
            self.children.send_to_back(top);
        }
    }

    /// With two windows or more: the bottom window, if it may be selected by
    /// moving it, comes to the top.
    pub fn select_prev(&mut self)
        requires
            old(self).wf(),
        ensures
            final(self).wf(),
            final(self).spec_bounds() == old(self).spec_bounds(),
            ({
                let s = old(self).spec_children();
                let n = s.len();
                let f = old(self).spec_group().spec_focused();
                if n > 2 && s[1].options & OF_TOP_SELECT != 0 {
                    &&& final(self).spec_children() == s.remove(1).push(s[1])
                    &&& final(self).spec_group().spec_focused() == (if f == 1 {
                        n - 1
                    } else if f > 1 {
                        f - 1
                    } else {
                        f
                    })
                } else {
                    &&& final(self).spec_children() == s
                    &&& final(self).spec_group().spec_focused() == f
                }
            }),
    {
        let n = self.children.len();
        if n <= 2 {
            return;
        }
        if self.children.child_at(1).options & OF_TOP_SELECT != 0 {
            self.children.bring_to_front(1);
        }
    }

    /// Replace what the desktop knows of window `index`, keeping its id;
    /// false when there is no such window.
    pub fn window_at_mut(&mut self, index: usize, info: ChildInfo) -> (found: bool)
        requires
            old(self).wf(),
            index < usize::MAX,
        ensures
            final(self).wf(),
            final(self).spec_bounds() == old(self).spec_bounds(),
            found == (index + 1 < old(self).spec_children().len()),
            found ==> final(self).spec_children() == old(self).spec_children().update(
                index + 1,
                ChildInfo { id: old(self).spec_children()[index + 1].id, ..info },
            ),
            !found ==> final(self).spec_children() == old(self).spec_children(),
    {
        let internal = index + 1;
        if internal < self.children.len() {
            self.children.child_at_mut(internal, info);
            true
        } else {
            false
        }
    }

    /// Remove every window that asked to be closed; the background stays.
    /// Tells whether any window went.
    pub fn remove_closed_windows(&mut self) -> (removed: bool)
        requires
            old(self).wf(),
        ensures
            final(self).wf(),
            final(self).spec_bounds() == old(self).spec_bounds(),
            removed == exists|i: int| 1 <= i < old(self).spec_children().len() && is_closed(
                #[trigger] old(self).spec_children()[i],
            ),
            ids(final(self).spec_children()) == seq![old(self).spec_children()[0].id] + open_ids(
                old(self).spec_children().skip(1),
            ),
            all_unfocused(final(self).spec_children()) == all_unfocused(
                seq![old(self).spec_children()[0]] + open_children(old(self).spec_children().skip(1)),
            ),
    {
        let ghost s = self.spec_children();
        let n = self.children.len();
        let mut removed = false;
        let mut i: usize = n;
        proof {
            lemma_open_children_ids(s.skip(n as int));
        }
        while i > 1
            invariant
                self.wf(),
                self.spec_bounds() == old(self).spec_bounds(),
                s == old(self).spec_children(),
                n == s.len(),
                1 <= i <= n,
                self.spec_children().len() == i + open_ids(s.skip(i as int)).len(),
                forall|j: int| 0 <= j < i ==> (#[trigger] self.spec_children()[j]).id == s[j].id
                    && is_closed(self.spec_children()[j]) == is_closed(s[j]),
                forall|j: int| i <= j < self.spec_children().len() ==> (#[trigger] self.spec_children()[j]).id
                    == open_ids(s.skip(i as int))[j - i],
                removed == exists|k: int| i <= k < n && is_closed(#[trigger] s[k]),
                open_children(s.skip(i as int)).len() == open_ids(s.skip(i as int)).len(),
                forall|j: int| 0 <= j < i ==> with_focus(#[trigger] self.spec_children()[j], false) == with_focus(s[j], false),
                forall|j: int| i <= j < self.spec_children().len() ==> with_focus(#[trigger] self.spec_children()[j], false)
                    == with_focus(open_children(s.skip(i as int))[j - i], false),
            decreases i,
        {
            i = i - 1;
            let ghost cur = self.spec_children();
            proof {
                assert(s.skip(i as int).drop_first() =~= s.skip(i + 1));
                assert(s.skip(i as int)[0] == s[i as int]);
                lemma_open_children_ids(s.skip(i as int));
            }
            let st = self.children.child_at(i).state;
            if st & SF_CLOSED != 0 {
                let ghost f0 = self.spec_group().spec_focused();
                self.children.remove(i);
                removed = true;
                proof {
                    let r = cur.remove(i as int);
                    let f1 = Group::focus_after_remove(f0, i as int);
                    if f0 == i {
                        let start = if f1 < r.len() - 1 { f1 } else { r.len() - 1 };
                        lemma_next_can_focus_range(r, start, 0, r.len() as int);
                        match next_can_focus(r, start, 0, r.len() as int) {
                            Some(k) => {
                                lemma_focus_keeps_closed(r[k]);
                            },
                            None => {},
                        }
                    }
                    assert forall|j: int| 0 <= j < self.spec_children().len() implies is_closed(
                        #[trigger] self.spec_children()[j],
                    ) == is_closed(r[j]) && self.spec_children()[j].id == r[j].id && with_focus(self.spec_children()[j], false)
                        == with_focus(r[j], false) by {
                        lemma_focus_twice(r[j]);
                    }
                }
            }
        }
        proof {
            assert(ids(self.spec_children()) =~= seq![s[0].id] + open_ids(s.skip(1)));
            assert(all_unfocused(self.spec_children()) =~= all_unfocused(seq![s[0]] + open_children(s.skip(1))));
        }
        removed
    }

    /// Look at an event before the children get it. With a modal window on
    /// top, the event goes to it alone. Otherwise a press of a mouse button
    /// over a window below the top one brings that window to the top when it
    /// may be selected by moving it, and the event goes to the children.
    pub fn handle_event(&mut self, event: &Event) -> (route: DesktopRoute)
        requires
            old(self).wf(),
        ensures
            final(self).wf(),
            final(self).spec_bounds() == old(self).spec_bounds(),
            ({
                let s = old(self).spec_children();
                let n = s.len();
                let f = old(self).spec_group().spec_focused();
                let modal = n > 1 && s[n - 1].state & SF_MODAL != 0;
                if modal {
                    &&& route == DesktopRoute::Modal((n - 1) as usize)
                    &&& final(self).spec_children() == s
                    &&& final(self).spec_group().spec_focused() == f
                } else {
                    &&& route == DesktopRoute::Children
                    &&& if event.what == EventType::MouseDown && (window_under(s, event.mouse.pos) matches Some(w)
                        && w != n - 1 && s[w].options & OF_TOP_SELECT != 0) {
                        let w = window_under(s, event.mouse.pos)->0;
                        &&& final(self).spec_children() == s.remove(w).push(s[w])
                        &&& final(self).spec_group().spec_focused() == (if f == w {
                            n - 1
                        } else if f > w {
                            f - 1
                        } else {
                            f
                        })
                    } else {
                        &&& final(self).spec_children() == s
                        &&& final(self).spec_group().spec_focused() == f
                    }
                }
            }),
    {
        let n = self.children.len();
        let has_modal = n > 1 && self.children.child_at(n - 1).state & SF_MODAL != 0;
        if has_modal {
            return DesktopRoute::Modal(n - 1);
        }
        if event.what == EventType::MouseDown {
            let p = event.mouse.pos;
            let ghost s = self.spec_children();
            proof {
                lemma_topmost_under_range(s, p, 1);
                lemma_topmost_under_range(s, p, n as int);
            }
            let mut clicked: Option<usize> = None;
            let mut i: usize = n;
            while i > 1
                invariant_except_break
                    1 <= i <= n,
                    clicked is None,
                    topmost_under(s, p, n as int) == topmost_under(s, p, i as int),
                invariant
                    s == self.spec_children(),
                    n == s.len(),
                    n >= 1,
                    topmost_under(s, p, 1) matches Some(k) ==> k == 0,
                ensures
                    clicked == (match window_under(s, p) {
                        Some(w) => Some(w as usize),
                        None => None,
                    }),
                decreases i,
            {
                i = i - 1;
                if self.children.child_at(i).bounds.contains(p) {
                    clicked = Some(i);
                    break;
                }
            }
            match clicked {
                Some(w) => {
                    if w != n - 1 && self.children.child_at(w).options & OF_TOP_SELECT != 0 {
                        self.children.bring_to_front(w);
                    }
                },
                None => {},
            }
        }
        DesktopRoute::Children
    }
}

/// `(lo, hi)` centered in the span `(outer_lo, outer_hi)`, in the owner's
/// relative coordinates.
fn center_span(lo: i16, hi: i16, outer_lo: i16, outer_hi: i16) -> (r: (i16, i16))
    requires
        span_fits(lo as int, hi as int, outer_hi - outer_lo),
    ensures
        r.0 == centered_span(lo as int, hi as int, outer_hi - outer_lo).0,
        r.1 == centered_span(lo as int, hi as int, outer_hi - outer_lo).1,
{
    let size: i32 = hi as i32 - lo as i32;
    let outer: i32 = outer_hi as i32 - outer_lo as i32;
    let d: i32 = outer - size;
    let c: i32 = if d >= 0 {
        ((d as u32) / 2) as i32
    } else {
        let m: u32 = (0 - d) as u32;
        0 - ((m / 2) as i32)
    };
    (c as i16, (c + size) as i16)
}

} // verus!
