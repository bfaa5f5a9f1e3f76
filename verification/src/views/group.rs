//! A group of child views: their ids, stacking order and focus, and which
//! children an event or a redraw goes to.
//!
//! The group keeps one record per child with what its decisions read (id,
//! bounds, whether it takes focus, its state, options and grow mode, and the
//! view a label points at). The children themselves are driven by the caller,
//! in the order the group hands out.
use vstd::prelude::*;
use crate::command::{CM_FOCUS_LINK, CM_RELEASED_FOCUS};
use crate::draw::Attr;
use crate::event::{Event, EventType, KB_SHIFT_TAB, KB_TAB};
use crate::geometry::{spec_contains, spec_intersects, Point, Rect};
use crate::state::{
    GF_GROW_HI_X, GF_GROW_HI_Y, GF_GROW_LO_X, GF_GROW_LO_Y, OF_POST_PROCESS, OF_PRE_PROCESS,
    OF_VALIDATE, SF_DISABLED, SF_DRAGGING, SF_FOCUSED, SF_RESIZING,
};
use crate::views::handle::ViewId;

verus! {

/// Where delivery of an event stands.
#[derive(Clone, Copy, Debug, PartialEq, Eq, Structural)]
pub enum Stage {
    /// A positional event went to the child under the mouse.
    Mouse,
    /// A key press or command goes to the pre-processing children, the
    /// focused child and the post-processing children, until one uses it.
    Keys,
    /// The event goes to every child of the plan, used or not.
    All,
}

/// What the caller does next while delivering an event.
pub enum Delivery {
    /// Hand the current event to this child, in its own space
    /// (`event_for_child`), then report what it made of it with `delivered`.
    To(usize),
    /// A child turned the event into a broadcast: deliver this one from the
    /// start with `begin_dispatch`.
    Again(Event),
    /// Delivery is over; the event as it ends.
    Done(Event),
}

/// A delivery under way: the children still to go, and the event in the
/// group's own space.
pub struct Dispatch {
    plan: Vec<usize>,
    next: usize,
    stage: Stage,
    event: Event,
}

impl Dispatch {
    pub closed spec fn spec_plan(&self) -> Seq<usize> {
        self.plan@
    }

    pub closed spec fn spec_next(&self) -> int {
        self.next as int
    }

    pub closed spec fn spec_stage(&self) -> Stage {
        self.stage
    }

    pub closed spec fn spec_event(&self) -> Event {
        self.event
    }

    /// The event being delivered, in the group's own space.
    pub fn event(&self) -> (e: Event)
        ensures
            e == self.spec_event(),
    {
        self.event
    }

    /// Whether every child of the plan is one of `n` children and the
    /// delivery has not run past the plan.
    pub open spec fn fits(&self, n: int) -> bool {
        &&& self.spec_next() <= self.spec_plan().len()
        &&& forall|k: int| 0 <= k < self.spec_plan().len() ==> #[trigger] self.spec_plan()[k] < n
    }
}

/// `returned`, the event a child gave back, with the mouse position put back
/// at `pos`, in the group's own space.
pub open spec fn restored(returned: Event, pos: Point) -> Event {
    Event { mouse: crate::event::MouseEvent { pos: pos, ..returned.mouse }, ..returned }
}

/// A key press the children left unused that the group takes itself: Tab
/// and Shift+Tab.
pub open spec fn is_focus_key(e: Event) -> bool {
    e.what == EventType::Keyboard && (e.key_code == KB_TAB || e.key_code == KB_SHIFT_TAB)
}

/// The next step of delivering `e` at stage `stage`, with `next` children of
/// `plan` done: a key press or command stops as soon as it is used; at the
/// end of its plan a broadcast made of it is delivered again and a focus key
/// is used up by the group. Other stages go through the whole plan.
pub open spec fn next_delivery(stage: Stage, plan: Seq<usize>, next: int, e: Event) -> Delivery {
    if stage == Stage::Keys && e.what == EventType::Nothing {
        Delivery::Done(e)
    } else if next < plan.len() {
        Delivery::To(plan[next])
    } else if stage == Stage::Keys && e.what == EventType::Broadcast {
        Delivery::Again(e)
    } else if stage == Stage::Keys && is_focus_key(e) {
        Delivery::Done(Event { what: EventType::Nothing, ..e })
    } else {
        Delivery::Done(e)
    }
}

/// What a group knows of one child.
#[derive(Clone, Copy, Debug, PartialEq, Eq, Structural)]
pub struct ChildInfo {
    pub id: ViewId,
    /// Bounds in the group's space.
    pub bounds: Rect,
    /// Whether the view ever takes the focus.
    pub can_focus: bool,
    pub state: u16,
    pub options: u16,
    pub grow_mode: u8,
    /// For a label, the view it focuses when clicked.
    pub label_link: Option<ViewId>,
}

impl ChildInfo {
    /// A child in `bounds` with no flags set, no grow mode and no link; the
    /// group gives it its id when it is added.
    pub fn new(bounds: Rect, can_focus: bool) -> (c: ChildInfo)
        ensures
            c == (ChildInfo {
                id: ViewId { value: 0 },
                bounds: bounds,
                can_focus: can_focus,
                state: 0,
                options: 0,
                grow_mode: 0,
                label_link: None,
            }),
    {
        ChildInfo { id: ViewId { value: 0 }, bounds, can_focus, state: 0, options: 0, grow_mode: 0, label_link: None }
    }

    pub fn is_focused(&self) -> (b: bool)
        ensures
            b == (self.state & SF_FOCUSED != 0),
    {
        self.state & SF_FOCUSED != 0
    }
}

/// `c` with its focused flag set or cleared.
pub open spec fn with_focus(c: ChildInfo, on: bool) -> ChildInfo {
    ChildInfo { state: if on { c.state | SF_FOCUSED } else { c.state & !SF_FOCUSED }, ..c }
}

/// Whether `c` may receive the focus by Tab: it takes focus and is not disabled.
pub open spec fn focusable(c: ChildInfo) -> bool {
    c.can_focus && c.state & SF_DISABLED == 0
}

/// Every child with its focused flag cleared.
pub open spec fn all_unfocused(s: Seq<ChildInfo>) -> Seq<ChildInfo> {
    s.map_values(|c: ChildInfo| with_focus(c, false))
}

/// `s` with every focused flag cleared, then child `i`'s set.
pub open spec fn focus_only(s: Seq<ChildInfo>, i: int) -> Seq<ChildInfo> {
    all_unfocused(s).update(i, with_focus(s[i], true))
}

/// Whether `i` is the first position of `id` in `s`.
pub open spec fn first_with_id(s: Seq<ChildInfo>, id: ViewId, i: int) -> bool {
    &&& 0 <= i < s.len()
    &&& s[i].id == id
    &&& forall|j: int| 0 <= j < i ==> (#[trigger] s[j]).id != id
}

/// Whether no child of `s` has `id`.
pub open spec fn no_id(s: Seq<ChildInfo>, id: ViewId) -> bool {
    forall|j: int| 0 <= j < s.len() ==> (#[trigger] s[j]).id != id
}

/// Position `j` steps on from `b` round a ring of `n`.
pub open spec fn step_up(b: int, j: int, n: int) -> int {
    if b + j < n { b + j } else { b + j - n }
}

/// Position `j` steps back from `b` round a ring of `n`.
pub open spec fn step_down(b: int, j: int, n: int) -> int {
    if b - j >= 0 { b - j } else { b - j + n }
}

/// The first focusable child going on from `b`, trying steps `j..lim`.
pub open spec fn next_focusable(s: Seq<ChildInfo>, b: int, j: int, lim: int) -> Option<int>
    decreases lim - j,
{
    if j >= lim {
        None
    } else if focusable(s[step_up(b, j, s.len() as int)]) {
        Some(step_up(b, j, s.len() as int))
    } else {
        next_focusable(s, b, j + 1, lim)
    }
}

/// The first focusable child going back from `b`, trying steps `j..lim`.
pub open spec fn prev_focusable(s: Seq<ChildInfo>, b: int, j: int, lim: int) -> Option<int>
    decreases lim - j,
{
    if j >= lim {
        None
    } else if focusable(s[step_down(b, j, s.len() as int)]) {
        Some(step_down(b, j, s.len() as int))
    } else {
        prev_focusable(s, b, j + 1, lim)
    }
}

/// The first child that takes focus going on from `b`, trying steps `j..lim`;
/// disabled children count.
pub open spec fn next_can_focus(s: Seq<ChildInfo>, b: int, j: int, lim: int) -> Option<int>
    decreases lim - j,
{
    if j >= lim {
        None
    } else if s[step_up(b, j, s.len() as int)].can_focus {
        Some(step_up(b, j, s.len() as int))
    } else {
        next_can_focus(s, b, j + 1, lim)
    }
}

proof fn lemma_next_focusable_range(s: Seq<ChildInfo>, b: int, j: int, lim: int)
    requires
        0 <= b < s.len(),
        0 <= j,
        lim <= s.len(),
    ensures
        next_focusable(s, b, j, lim) matches Some(i) ==> 0 <= i < s.len() && focusable(s[i]),
        next_focusable(s, b, j, lim) is Some ==> j < lim,
    decreases lim - j,
{
    if j < lim && !focusable(s[step_up(b, j, s.len() as int)]) {
        lemma_next_focusable_range(s, b, j + 1, lim);
    }
}

proof fn lemma_prev_focusable_range(s: Seq<ChildInfo>, b: int, j: int, lim: int)
    requires
        0 <= b < s.len(),
        0 <= j,
        lim <= s.len(),
    ensures
        prev_focusable(s, b, j, lim) matches Some(i) ==> 0 <= i < s.len() && focusable(s[i]),
        prev_focusable(s, b, j, lim) is Some ==> j < lim,
    decreases lim - j,
{
    if j < lim && !focusable(s[step_down(b, j, s.len() as int)]) {
        lemma_prev_focusable_range(s, b, j + 1, lim);
    }
}

pub(crate) proof fn lemma_next_can_focus_range(s: Seq<ChildInfo>, b: int, j: int, lim: int)
    requires
        0 <= b < s.len(),
        0 <= j,
        lim <= s.len(),
    ensures
        next_can_focus(s, b, j, lim) matches Some(i) ==> 0 <= i < s.len() && s[i].can_focus,
        next_can_focus(s, b, j, lim) is Some ==> j < lim,
    decreases lim - j,
{
    if j < lim && !s[step_up(b, j, s.len() as int)].can_focus {
        lemma_next_can_focus_range(s, b, j + 1, lim);
    }
}


/// The indices below `n` of the children whose options hold `flag`, in order.
pub open spec fn flagged_upto(s: Seq<ChildInfo>, flag: u16, n: int) -> Seq<usize>
    decreases n,
{
    if n <= 0 {
        Seq::empty()
    } else if s[n - 1].options & flag != 0 {
        flagged_upto(s, flag, n - 1).push((n - 1) as usize)
    } else {
        flagged_upto(s, flag, n - 1)
    }
}

/// The indices in `start..n` of the children whose bounds meet `clip`, in order.
pub open spec fn meeting_upto(s: Seq<ChildInfo>, clip: Rect, start: int, n: int) -> Seq<usize>
    decreases n - start,
{
    if n <= start {
        Seq::empty()
    } else if spec_intersects(clip, s[n - 1].bounds) {
        meeting_upto(s, clip, start, n - 1).push((n - 1) as usize)
    } else {
        meeting_upto(s, clip, start, n - 1)
    }
}

/// The indices `0..n`, leaving out `owner`.
pub open spec fn all_but(n: int, owner: Option<usize>) -> Seq<usize> {
    match owner {
        Some(o) => if o < n {
            Seq::new((n - 1) as nat, |i: int| if i < o { i as usize } else { (i + 1) as usize })
        } else {
            Seq::new(n as nat, |i: int| i as usize)
        },
        None => Seq::new(n as nat, |i: int| i as usize),
    }
}

/// The children `flagged_upto` lists are among the first `n`.
proof fn lemma_flagged_below(s: Seq<ChildInfo>, flag: u16, n: int)
    requires
        n <= s.len(),
        s.len() <= usize::MAX,
    ensures
        forall|k: int| 0 <= k < flagged_upto(s, flag, n).len() ==> 0 <= #[trigger] flagged_upto(s, flag, n)[k] < n,
    decreases n,
{
    if n > 0 {
        lemma_flagged_below(s, flag, n - 1);
        let prev = flagged_upto(s, flag, n - 1);
        assert forall|k: int| 0 <= k < flagged_upto(s, flag, n).len() implies 0 <= #[trigger] flagged_upto(s, flag, n)[k] < n by {
            if k < prev.len() {
                assert(flagged_upto(s, flag, n)[k] == prev[k]);
            }
        }
    }
}

/// The children a key press, command or other non-positional event `e`
/// goes to, in a group with children `s` and focus index `f`.
pub open spec fn planned_for(s: Seq<ChildInfo>, f: int, e: Event) -> Seq<usize> {
    let mid: Seq<usize> = if f < s.len() { seq![f as usize] } else { Seq::empty() };
    if e.what == EventType::Keyboard || e.what == EventType::Command {
        flagged_upto(s, OF_PRE_PROCESS, s.len() as int) + mid + flagged_upto(s, OF_POST_PROCESS, s.len() as int)
    } else if e.what == EventType::Broadcast {
        if e.command == CM_FOCUS_LINK {
            Seq::<usize>::empty()
        } else {
            all_but(s.len() as int, None)
        }
    } else {
        mid
    }
}

/// The topmost child under `p` at or below index `n - 1`.
pub open spec fn topmost_under(s: Seq<ChildInfo>, p: Point, n: int) -> Option<int>
    decreases n,
{
    if n <= 0 {
        None
    } else if spec_contains(s[n - 1].bounds, p) {
        Some(n - 1)
    } else {
        topmost_under(s, p, n - 1)
    }
}

/// The topmost child under a point is one of the first `n`.
proof fn lemma_topmost_below(s: Seq<ChildInfo>, p: Point, n: int)
    ensures
        topmost_under(s, p, n) matches Some(i) ==> 0 <= i < n,
    decreases n,
{
    if n > 0 {
        lemma_topmost_below(s, p, n - 1);
    }
}

/// Whether an event is a mouse press, release or move.
pub open spec fn is_positional(what: EventType) -> bool {
    what == EventType::MouseDown || what == EventType::MouseMove || what == EventType::MouseUp
}

/// Where a group sends a positional event.
#[derive(Clone, Copy, Debug, PartialEq, Eq, Structural)]
pub enum MouseRoute {
    /// To this child, in its own space.
    Child(usize),
    /// Nowhere: a click on a label moved the focus to its link and was used up.
    Consumed,
    /// Nowhere: no child is under the mouse.
    Nobody,
}


/// The change to one edge: `d` when the grow mode holds `flag`, else none.
pub open spec fn edge_shift(grow_mode: u8, flag: u8, d: int) -> int {
    if grow_mode & flag != 0 { d } else { 0 }
}

/// A child's bounds after its group grew by `dw` columns and `dh` rows.
pub open spec fn grown_bounds(c: ChildInfo, dw: int, dh: int) -> Rect {
    Rect {
        a: Point {
            x: (c.bounds.a.x + edge_shift(c.grow_mode, GF_GROW_LO_X, dw)) as i16,
            y: (c.bounds.a.y + edge_shift(c.grow_mode, GF_GROW_LO_Y, dh)) as i16,
        },
        b: Point {
            x: (c.bounds.b.x + edge_shift(c.grow_mode, GF_GROW_HI_X, dw)) as i16,
            y: (c.bounds.b.y + edge_shift(c.grow_mode, GF_GROW_HI_Y, dh)) as i16,
        },
    }
}

/// Whether every moved edge of `c` stays within `i16`.
pub open spec fn growth_fits(c: ChildInfo, dw: int, dh: int) -> bool {
    &&& i16::MIN <= c.bounds.a.x + edge_shift(c.grow_mode, GF_GROW_LO_X, dw) <= i16::MAX
    &&& i16::MIN <= c.bounds.a.y + edge_shift(c.grow_mode, GF_GROW_LO_Y, dh) <= i16::MAX
    &&& i16::MIN <= c.bounds.b.x + edge_shift(c.grow_mode, GF_GROW_HI_X, dw) <= i16::MAX
    &&& i16::MIN <= c.bounds.b.y + edge_shift(c.grow_mode, GF_GROW_HI_Y, dh) <= i16::MAX
}


/// Bringing a child to the front, or sending it back to position 1,
/// reorders the children without losing or adding any.
pub proof fn law_reordering_keeps_children(s: Seq<ChildInfo>, index: int)
    requires
        0 <= index < s.len(),
    ensures
        s.remove(index).push(s[index]).to_multiset() == s.to_multiset(),
        s.len() >= 2 ==> s.remove(index).insert(1, s[index]).to_multiset() == s.to_multiset(),
{
    broadcast use vstd::seq_lib::group_to_multiset_ensures, vstd::multiset::group_multiset_axioms;

    assert(s.to_multiset().contains(s[index]));
    assert(s.to_multiset().remove(s[index]).insert(s[index]) =~= s.to_multiset());
}

/// When the focused child is removed from a group where it alone had the
/// focus flag, and some remaining child takes focus, exactly one remaining
/// child ends up flagged: the one the focus index names.
pub proof fn law_removing_the_focus_passes_it_on(g_children: Seq<ChildInfo>, i: int, j: int)
    requires
        0 <= i < g_children.len(),
        forall|k: int| 0 <= k < g_children.len() && k != i ==> (#[trigger] g_children[k]).state & SF_FOCUSED == 0,
        ({
            let r = g_children.remove(i);
            let f1 = Group::focus_after_remove(i, i);
            let start = if f1 < r.len() - 1 { f1 } else { r.len() - 1 };
            r.len() > 0 && next_can_focus(r, start, 0, r.len() as int) == Some(j)
        }),
    ensures
        ({
            let r = g_children.remove(i);
            let after = r.update(j, with_focus(r[j], true));
            &&& 0 <= j < after.len()
            &&& after[j].state & SF_FOCUSED != 0
            &&& forall|k: int| 0 <= k < after.len() && k != j ==> (#[trigger] after[k]).state & SF_FOCUSED == 0
        }),
{
    let r = g_children.remove(i);
    let f1 = Group::focus_after_remove(i, i);
    let start = if f1 < r.len() - 1 { f1 } else { r.len() - 1 };
    lemma_next_can_focus_range(r, start, 0, r.len() as int);
    let st = r[j].state;
    assert((st | SF_FOCUSED) & SF_FOCUSED != 0) by (bit_vector);
    assert forall|k: int| 0 <= k < r.len() && k != j implies (#[trigger] r.update(j, with_focus(r[j], true))[k]).state & SF_FOCUSED == 0 by {
        let ok = if k < i { k } else { k + 1 };
        assert(r[k] == g_children[ok]);
    }
}

/// Tab only ever lands on a child that may take the focus: when the focus
/// moves at all, the child it moves to is focusable.
pub proof fn law_tab_lands_on_a_focusable_child(s: Seq<ChildInfo>, f: int)
    requires
        0 <= f < s.len(),
    ensures
        next_focusable(s, if f + 1 < s.len() { f + 1 } else { 0 }, 0, s.len() - 1) matches Some(c) ==> 0 <= c < s.len() && focusable(s[c]),
        prev_focusable(s, if f == 0 { s.len() - 1 } else { f - 1 }, 0, s.len() - 1) matches Some(c) ==> 0 <= c < s.len() && focusable(s[c]),
{
    lemma_next_focusable_range(s, if f + 1 < s.len() { f + 1 } else { 0 }, 0, s.len() - 1);
    lemma_prev_focusable_range(s, if f == 0 { s.len() - 1 } else { f - 1 }, 0, s.len() - 1);
}


/// A child added under a fresh id is found by that id afterwards, at the
/// top of the stacking order, whatever else the group holds.
pub proof fn law_added_child_is_found(s: Seq<ChildInfo>, c: ChildInfo, id: ViewId)
    requires
        no_id(s, id),
    ensures
        first_with_id(s.push(ChildInfo { id: id, ..c }), id, s.len() as int),
{
    let t = s.push(ChildInfo { id: id, ..c });
    assert forall|j: int| 0 <= j < s.len() implies (#[trigger] t[j]).id != id by {
        assert(t[j] == s[j]);
    }
}

/// A group of child views.
pub struct Group {
    bounds: Rect,
    state: u16,
    children: Vec<ChildInfo>,
    focused: usize,
    background: Option<Attr>,
    end_state: u16,
    child_overhang: Point,
    next_id: u16,
}

impl Group {
    pub closed spec fn spec_bounds(&self) -> Rect {
        self.bounds
    }

    pub closed spec fn spec_state(&self) -> u16 {
        self.state
    }

    pub closed spec fn spec_children(&self) -> Seq<ChildInfo> {
        self.children@
    }

    /// The index of the focused child.
    pub closed spec fn spec_focused(&self) -> int {
        self.focused as int
    }

    pub closed spec fn spec_background(&self) -> Option<Attr> {
        self.background
    }

    pub closed spec fn spec_end_state(&self) -> u16 {
        self.end_state
    }

    pub closed spec fn spec_overhang(&self) -> Point {
        self.child_overhang
    }

    /// The id the next added child gets.
    pub closed spec fn spec_next_id(&self) -> u16 {
        self.next_id
    }

    /// Every child has its own id, below the next one to hand out, and the
    /// focused index names a child (0 when there is none).
    pub closed spec fn wf(&self) -> bool {
        &&& forall|i: int, j: int|
            0 <= i < j < self.children@.len() ==> (#[trigger] self.children@[i]).id != (#[trigger] self.children@[j]).id
        &&& forall|i: int| 0 <= i < self.children@.len() ==> (#[trigger] self.children@[i]).id.value < self.next_id
        &&& (self.children@.len() == 0 ==> self.focused == 0)
        &&& (self.children@.len() > 0 ==> self.focused < self.children@.len())
    }

    /// The parts other than the children and the focus stay.
    pub open spec fn same_frame(&self, other: &Group) -> bool {
        &&& self.spec_bounds() == other.spec_bounds()
        &&& self.spec_state() == other.spec_state()
        &&& self.spec_background() == other.spec_background()
        &&& self.spec_end_state() == other.spec_end_state()
        &&& self.spec_overhang() == other.spec_overhang()
        &&& self.spec_next_id() == other.spec_next_id()
    }

    /// An empty group in `bounds`, without a background.
    pub fn new(bounds: Rect) -> (g: Group)
        ensures
            g.wf(),
            g.spec_bounds() == bounds,
            g.spec_state() == 0,
            g.spec_children().len() == 0,
            g.spec_focused() == 0,
            g.spec_background() is None,
            g.spec_end_state() == 0,
            g.spec_overhang() == (Point { x: 0, y: 0 }),
            g.spec_next_id() == 1,
    {
        Group {
            bounds,
            state: 0,
            children: Vec::new(),
            focused: 0,
            background: None,
            end_state: 0,
            child_overhang: Point { x: 0, y: 0 },
            next_id: 1,
        }
    }

    /// An empty group in `bounds` that paints `background` under its children.
    pub fn with_background(bounds: Rect, background: Attr) -> (g: Group)
        ensures
            g.wf(),
            g.spec_bounds() == bounds,
            g.spec_state() == 0,
            g.spec_children().len() == 0,
            g.spec_focused() == 0,
            g.spec_background() == Some(background),
            g.spec_end_state() == 0,
            g.spec_overhang() == (Point { x: 0, y: 0 }),
            g.spec_next_id() == 1,
    {
        let mut g = Group::new(bounds);
        g.background = Some(background);
        g
    }

    /// Let children paint up to `overhang` cells past the group's extent.
    pub fn set_child_overhang(&mut self, overhang: Point)
        ensures
            final(self).spec_overhang() == overhang,
            final(self).spec_children() == old(self).spec_children(),
            final(self).spec_focused() == old(self).spec_focused(),
            final(self).spec_bounds() == old(self).spec_bounds(),
            final(self).spec_state() == old(self).spec_state(),
            final(self).spec_background() == old(self).spec_background(),
            final(self).spec_end_state() == old(self).spec_end_state(),
            final(self).spec_next_id() == old(self).spec_next_id(),
            final(self).wf() == old(self).wf(),
    {
        self.child_overhang = overhang;
    }

    pub fn child_overhang(&self) -> (p: Point)
        ensures
            p == self.spec_overhang(),
    {
        self.child_overhang
    }

    pub fn bounds(&self) -> (r: Rect)
        ensures
            r == self.spec_bounds(),
    {
        self.bounds
    }

    pub fn state(&self) -> (s: u16)
        ensures
            s == self.spec_state(),
    {
        self.state
    }

    /// The group's own area in its own space: the origin to its size.
    pub fn extent(&self) -> (r: Rect)
        requires
            i16::MIN <= crate::geometry::spec_width(self.spec_bounds()) <= i16::MAX,
            i16::MIN <= crate::geometry::spec_height(self.spec_bounds()) <= i16::MAX,
        ensures
            r == (Rect {
                a: Point { x: 0, y: 0 },
                b: Point {
                    x: crate::geometry::spec_width(self.spec_bounds()) as i16,
                    y: crate::geometry::spec_height(self.spec_bounds()) as i16,
                },
            }),
    {
        Rect { a: Point { x: 0, y: 0 }, b: Point { x: self.bounds.width(), y: self.bounds.height() } }
    }

    /// Where the children may paint, in the group's own space: its extent,
    /// grown by the overhang it allows them on every side.
    pub fn draw_clip(&self) -> (r: Rect)
        requires
            i16::MIN <= crate::geometry::spec_width(self.spec_bounds()) + self.spec_overhang().x <= i16::MAX,
            i16::MIN <= crate::geometry::spec_height(self.spec_bounds()) + self.spec_overhang().y <= i16::MAX,
            i16::MIN <= crate::geometry::spec_width(self.spec_bounds()) <= i16::MAX,
            i16::MIN <= crate::geometry::spec_height(self.spec_bounds()) <= i16::MAX,
            self.spec_overhang().x > i16::MIN,
            self.spec_overhang().y > i16::MIN,
        ensures
            r == (Rect {
                a: Point { x: (0 - self.spec_overhang().x) as i16, y: (0 - self.spec_overhang().y) as i16 },
                b: Point {
                    x: (crate::geometry::spec_width(self.spec_bounds()) + self.spec_overhang().x) as i16,
                    y: (crate::geometry::spec_height(self.spec_bounds()) + self.spec_overhang().y) as i16,
                },
            }),
    {
        let e = self.extent();
        let o = self.child_overhang;
        Rect { a: Point { x: 0 - o.x, y: 0 - o.y }, b: Point { x: e.b.x + o.x, y: e.b.y + o.y } }
    }

    pub fn set_state(&mut self, state: u16)
        ensures
            final(self).spec_state() == state,
            final(self).spec_children() == old(self).spec_children(),
            final(self).spec_focused() == old(self).spec_focused(),
            final(self).spec_bounds() == old(self).spec_bounds(),
            final(self).spec_background() == old(self).spec_background(),
            final(self).spec_end_state() == old(self).spec_end_state(),
            final(self).spec_overhang() == old(self).spec_overhang(),
            final(self).spec_next_id() == old(self).spec_next_id(),
            final(self).wf() == old(self).wf(),
    {
        self.state = state;
    }

    /// Set the grow mode of child `index`, if there is one.
    pub fn set_child_grow_mode(&mut self, index: usize, grow_mode: u8)
        requires
            old(self).wf(),
        ensures
            final(self).wf(),
            final(self).same_frame(old(self)),
            final(self).spec_focused() == old(self).spec_focused(),
            final(self).spec_children() == (if index < old(self).spec_children().len() {
                old(self).spec_children().update(
                    index as int,
                    ChildInfo { grow_mode: grow_mode, ..old(self).spec_children()[index as int] },
                )
            } else {
                old(self).spec_children()
            }),
    {
        if index < self.children.len() {
            let mut c = self.children[index];
            c.grow_mode = grow_mode;
            self.children.set(index, c);
        }
    }

    /// Add a child at the top of the stacking order under a fresh id, which
    /// is returned; the id in `child` is replaced.
    pub fn add_boxed(&mut self, child: ChildInfo) -> (id: ViewId)
        requires
            old(self).wf(),
            old(self).spec_next_id() < u16::MAX,
        ensures
            final(self).wf(),
            id.value == old(self).spec_next_id(),
            no_id(old(self).spec_children(), id),
            final(self).spec_children() == old(self).spec_children().push(ChildInfo { id: id, ..child }),
            final(self).spec_focused() == old(self).spec_focused(),
            final(self).spec_next_id() == old(self).spec_next_id() + 1,
            final(self).spec_bounds() == old(self).spec_bounds(),
            final(self).spec_state() == old(self).spec_state(),
            final(self).spec_background() == old(self).spec_background(),
            final(self).spec_end_state() == old(self).spec_end_state(),
            final(self).spec_overhang() == old(self).spec_overhang(),
    {
        let id = ViewId { value: self.next_id };
        self.children.push(ChildInfo { id, ..child });
        self.next_id = self.next_id + 1;
        id
    }

    /// Focus the first child that takes focus, if any; no other flag changes.
    pub fn set_initial_focus(&mut self)
        requires
            old(self).wf(),
        ensures
            final(self).wf(),
            final(self).same_frame(old(self)),
            (exists|i: int| 0 <= i < old(self).spec_children().len() && (#[trigger] old(self).spec_children()[i]).can_focus)
                ==> ({
                let f = final(self).spec_focused();
                &&& 0 <= f < old(self).spec_children().len()
                &&& old(self).spec_children()[f].can_focus
                &&& forall|j: int| 0 <= j < f ==> !(#[trigger] old(self).spec_children()[j]).can_focus
                &&& final(self).spec_children() == old(self).spec_children().update(f, with_focus(old(self).spec_children()[f], true))
            }),
            !(exists|i: int| 0 <= i < old(self).spec_children().len() && (#[trigger] old(self).spec_children()[i]).can_focus)
                ==> final(self).spec_children() == old(self).spec_children() && final(self).spec_focused()
                == old(self).spec_focused(),
    {
        let mut i: usize = 0;
        while i < self.children.len()
            invariant
                self.children@ == old(self).children@,
                *self == *old(self),
                old(self).wf(),
                i <= self.children@.len(),
                forall|j: int| 0 <= j < i ==> !(#[trigger] self.children@[j]).can_focus,
            decreases self.children.len() - i,
        {
            if self.children[i].can_focus {
                let c = self.children[i];
                self.focused = i;
                self.children.set(i, ChildInfo { state: c.state | SF_FOCUSED, ..c });
                assert(forall|k: int| 0 <= k < self.children@.len() ==> (#[trigger] self.children@[k]).id == old(self).children@[k].id);
                return;
            }
            i = i + 1;
        }
    }

    /// Clear the focused flag of every child.
    pub fn clear_all_focus(&mut self)
        requires
            old(self).wf(),
        ensures
            final(self).wf(),
            final(self).same_frame(old(self)),
            final(self).spec_focused() == old(self).spec_focused(),
            final(self).spec_children() == all_unfocused(old(self).spec_children()),
    {
        let mut i: usize = 0;
        while i < self.children.len()
            invariant
                self.children@.len() == old(self).children@.len(),
                self.same_frame(old(self)),
                self.focused == old(self).focused,
                i <= self.children@.len(),
                forall|j: int| 0 <= j < self.children@.len() ==> #[trigger] self.children@[j] == (if j < i {
                    with_focus(old(self).children@[j], false)
                } else {
                    old(self).children@[j]
                }),
            decreases self.children.len() - i,
        {
            let c = self.children[i];
            self.children.set(i, ChildInfo { state: c.state & !SF_FOCUSED, ..c });
            i = i + 1;
        }
        assert(self.children@ =~= all_unfocused(old(self).children@));
    }

    pub fn len(&self) -> (n: usize)
        ensures
            n == self.spec_children().len(),
    {
        self.children.len()
    }

    pub fn is_empty(&self) -> (b: bool)
        ensures
            b == (self.spec_children().len() == 0),
    {
        self.children.len() == 0
    }

    /// Child `index`.
    pub fn child_at(&self, index: usize) -> (c: &ChildInfo)
        requires
            index < self.spec_children().len(),
        ensures
            *c == self.spec_children()[index as int],
    {
        &self.children[index]
    }

    /// Replace what the group knows of child `index`, keeping its id.
    pub fn child_at_mut(&mut self, index: usize, info: ChildInfo)
        requires
            old(self).wf(),
            index < old(self).spec_children().len(),
        ensures
            final(self).wf(),
            final(self).same_frame(old(self)),
            final(self).spec_focused() == old(self).spec_focused(),
            final(self).spec_children() == old(self).spec_children().update(
                index as int,
                ChildInfo { id: old(self).spec_children()[index as int].id, ..info },
            ),
    {
        let id = self.children[index].id;
        self.children.set(index, ChildInfo { id, ..info });
    }

    /// Focus child `index` alone, if it takes focus.
    pub fn set_focus_to(&mut self, index: usize)
        requires
            old(self).wf(),
        ensures
            final(self).wf(),
            final(self).same_frame(old(self)),
            index < old(self).spec_children().len() && old(self).spec_children()[index as int].can_focus ==> {
                &&& final(self).spec_focused() == index
                &&& final(self).spec_children() == focus_only(old(self).spec_children(), index as int)
            },
            !(index < old(self).spec_children().len() && old(self).spec_children()[index as int].can_focus) ==> {
                &&& final(self).spec_focused() == old(self).spec_focused()
                &&& final(self).spec_children() == old(self).spec_children()
            },
    {
        if index < self.children.len() && self.children[index].can_focus {
            self.focus_at(index);
        }
    }

    /// Clear every focus flag, then focus child `index`.
    fn focus_at(&mut self, index: usize)
        requires
            old(self).wf(),
            index < old(self).spec_children().len(),
        ensures
            final(self).wf(),
            final(self).same_frame(old(self)),
            final(self).spec_focused() == index,
            final(self).spec_children() == focus_only(old(self).spec_children(), index as int),
    {
        self.clear_all_focus();
        self.focused = index;
        let c = self.children[index];
        let ghost s0 = old(self).children@[index as int].state;
        assert((s0 & !SF_FOCUSED) | SF_FOCUSED == s0 | SF_FOCUSED) by (bit_vector);
        self.children.set(index, ChildInfo { state: c.state | SF_FOCUSED, ..c });
        assert(self.children@ =~= focus_only(old(self).children@, index as int));
        assert(forall|k: int| 0 <= k < self.children@.len() ==> (#[trigger] self.children@[k]).id == old(self).children@[k].id);
    }

    /// The position of the child with `id`.
    fn position_of(&self, id: ViewId) -> (r: Option<usize>)
        ensures
            r matches Some(i) ==> first_with_id(self.spec_children(), id, i as int),
            r is None ==> no_id(self.spec_children(), id),
    {
        let mut i: usize = 0;
        while i < self.children.len()
            invariant
                i <= self.children@.len(),
                forall|j: int| 0 <= j < i ==> (#[trigger] self.children@[j]).id != id,
            decreases self.children.len() - i,
        {
            if self.children[i].id == id {
                return Some(i);
            }
            i = i + 1;
        }
        None
    }

    /// Focus the child with `id` alone, if there is one that takes focus;
    /// returns whether it did.
    pub fn focus_by_view_id(&mut self, view_id: ViewId) -> (done: bool)
        requires
            old(self).wf(),
        ensures
            final(self).wf(),
            final(self).same_frame(old(self)),
            done <==> exists|i: int| first_with_id(old(self).spec_children(), view_id, i) && old(self).spec_children()[i].can_focus,
            done ==> forall|i: int| #[trigger] first_with_id(old(self).spec_children(), view_id, i) ==> {
                &&& final(self).spec_focused() == i
                &&& final(self).spec_children() == focus_only(old(self).spec_children(), i)
            },
            !done ==> final(self).spec_focused() == old(self).spec_focused() && final(self).spec_children() == old(self).spec_children(),
    {
        match self.position_of(view_id) {
            Some(i) => {
                if self.children[i].can_focus {
                    self.focus_at(i);
                    true
                } else {
                    false
                }
            },
            None => false,
        }
    }


    /// Move child `index` to the top of the stacking order and return its
    /// new index; the focus follows the child it was on.
    pub fn bring_to_front(&mut self, index: usize) -> (new_index: usize)
        requires
            old(self).wf(),
        ensures
            final(self).wf(),
            final(self).same_frame(old(self)),
            ({
                let s = old(self).spec_children();
                let f = old(self).spec_focused();
                if index >= s.len() || index == s.len() - 1 {
                    &&& new_index == index
                    &&& final(self).spec_children() == s
                    &&& final(self).spec_focused() == f
                } else {
                    &&& new_index == s.len() - 1
                    &&& final(self).spec_children() == s.remove(index as int).push(s[index as int])
                    &&& final(self).spec_focused() == (if f == index {
                        s.len() - 1
                    } else if f > index {
                        f - 1
                    } else {
                        f
                    })
                }
            }),
    {
        let n = self.children.len();
        if index >= n || index == n - 1 {
            return index;
        }
        let ghost s = self.children@;
        let c = self.children.remove(index);
        self.children.push(c);
        let new_index = n - 1;
        if self.focused == index {
            self.focused = new_index;
        } else if self.focused > index {
            self.focused = self.focused - 1;
        }
        proof {
            let t = self.children@;
            assert forall|i: int, j: int| 0 <= i < j < t.len() implies (#[trigger] t[i]).id != (#[trigger] t[j]).id by {
                let oi = if i == n - 1 { index as int } else if i < index { i } else { i + 1 };
                let oj = if j == n - 1 { index as int } else if j < index { j } else { j + 1 };
                assert(t[i] == s[oi]);
                assert(t[j] == s[oj]);
                assert(oi != oj);
                if oi < oj {
                    assert(s[oi].id != s[oj].id);
                } else {
                    assert(s[oj].id != s[oi].id);
                }
            }
            assert forall|i: int| 0 <= i < t.len() implies (#[trigger] t[i]).id.value < self.next_id by {
                let oi = if i == n - 1 { index as int } else if i < index { i } else { i + 1 };
                assert(t[i] == s[oi]);
            }
        }
        new_index
    }

    /// Move child `index` to position 1, just above the bottom child, and
    /// return 1; the focus follows the child it was on, or the children that
    /// moved up one.
    pub fn send_to_back(&mut self, index: usize) -> (new_index: usize)
        requires
            old(self).wf(),
            !(old(self).spec_children().len() == 1 && index == 0),
        ensures
            final(self).wf(),
            final(self).same_frame(old(self)),
            ({
                let s = old(self).spec_children();
                let f = old(self).spec_focused();
                if index >= s.len() || index == 1 {
                    &&& new_index == index
                    &&& final(self).spec_children() == s
                    &&& final(self).spec_focused() == f
                } else {
                    &&& new_index == 1
                    &&& final(self).spec_children() == s.remove(index as int).insert(1, s[index as int])
                    &&& final(self).spec_focused() == (if f == index {
                        1
                    } else if f >= 1 && f < index {
                        f + 1
                    } else {
                        f
                    })
                }
            }),
    {
        let n = self.children.len();
        if index >= n || index == 1 {
            return index;
        }
        let ghost s = self.children@;
        let c = self.children.remove(index);
        self.children.insert(1, c);
        if self.focused == index {
            self.focused = 1;
        } else if self.focused >= 1 && self.focused < index {
            self.focused = self.focused + 1;
        }
        proof {
            let t = self.children@;
            assert forall|i: int| 0 <= i < t.len() implies #[trigger] t[i] == s[
                if i == 1 { index as int } else if i == 0 { if index == 0 { 1 } else { 0 } } else if i <= index { i - 1 } else { i }
            ] by {
                if index == 0 {
                    assert(s.remove(0).insert(1, s[0])[i] == s[if i == 1 { 0 } else if i == 0 { 1 } else { i }]);
                }
            }
            assert forall|i: int, j: int| 0 <= i < j < t.len() implies (#[trigger] t[i]).id != (#[trigger] t[j]).id by {
                let oi = if i == 1 { index as int } else if i == 0 { if index == 0 { 1 } else { 0 } } else if i <= index { i - 1 } else { i };
                let oj = if j == 1 { index as int } else if j == 0 { if index == 0 { 1 } else { 0 } } else if j <= index { j - 1 } else { j };
                assert(t[i] == s[oi]);
                assert(t[j] == s[oj]);
                if oi < oj {
                    assert(s[oi].id != s[oj].id);
                } else {
                    assert(s[oj].id != s[oi].id);
                }
            }
            assert forall|i: int| 0 <= i < t.len() implies (#[trigger] t[i]).id.value < self.next_id by {
                let oi = if i == 1 { index as int } else if i == 0 { if index == 0 { 1 } else { 0 } } else if i <= index { i - 1 } else { i };
                assert(t[i] == s[oi]);
            }
        }
        1
    }

    /// The id of child `index`, if there is one.
    pub fn view_id_at(&self, index: usize) -> (r: Option<ViewId>)
        ensures
            r == (if index < self.spec_children().len() {
                Some(self.spec_children()[index as int].id)
            } else {
                None
            }),
    {
        if index < self.children.len() {
            Some(self.children[index].id)
        } else {
            None
        }
    }


    /// The focus index after removing child `index`: moved down one when it
    /// was at or after the removed child (and not 0).
    pub open spec fn focus_after_remove(f: int, index: int) -> int {
        if f >= index && f > 0 { f - 1 } else { f }
    }

    /// Remove child `index`, if there is one. When it held the focus, the
    /// focus goes to the first child that takes focus going on from where the
    /// focus index lands (that child's flag is set); an empty group has
    /// focus index 0.
    pub fn remove(&mut self, index: usize)
        requires
            old(self).wf(),
        ensures
            final(self).wf(),
            final(self).same_frame(old(self)),
            ({
                let s = old(self).spec_children();
                let f = old(self).spec_focused();
                let r = s.remove(index as int);
                let f1 = Self::focus_after_remove(f, index as int);
                if index >= s.len() {
                    &&& final(self).spec_children() == s
                    &&& final(self).spec_focused() == f
                } else if r.len() == 0 {
                    &&& final(self).spec_children() == r
                    &&& final(self).spec_focused() == 0
                } else if f == index {
                    let start = if f1 < r.len() - 1 { f1 } else { r.len() - 1 };
                    match next_can_focus(r, start, 0, r.len() as int) {
                        Some(i) => {
                            &&& final(self).spec_focused() == i
                            &&& final(self).spec_children() == r.update(i, with_focus(r[i], true))
                        },
                        None => {
                            &&& final(self).spec_focused() == f1
                            &&& final(self).spec_children() == r
                        },
                    }
                } else {
                    &&& final(self).spec_children() == r
                    &&& final(self).spec_focused() == f1
                }
            }),
            index < old(self).spec_children().len() ==> {
                &&& final(self).spec_children().len() == old(self).spec_children().len() - 1
                &&& forall|j: int| 0 <= j < final(self).spec_children().len() ==>
                    (#[trigger] final(self).spec_children()[j]).id == old(self).spec_children().remove(index as int)[j].id
            },
    {
        let n = self.children.len();
        if index >= n {
            return;
        }
        let ghost s = self.children@;
        let removed_focused = self.focused == index;
        self.children.remove(index);
        if self.focused >= index && self.focused > 0 {
            self.focused = self.focused - 1;
        }
        let ghost r = self.children@;
        assert forall|i: int, j: int| 0 <= i < j < r.len() implies (#[trigger] r[i]).id != (#[trigger] r[j]).id by {
            let oi = if i < index { i } else { i + 1 };
            let oj = if j < index { j } else { j + 1 };
            assert(r[i] == s[oi]);
            assert(r[j] == s[oj]);
        }
        assert forall|i: int| 0 <= i < r.len() implies (#[trigger] r[i]).id.value < self.next_id by {
            let oi = if i < index { i } else { i + 1 };
            assert(r[i] == s[oi]);
        }
        let len = self.children.len();
        if len == 0 {
            self.focused = 0;
        } else if removed_focused {
            let start = if self.focused < len - 1 { self.focused } else { len - 1 };
            let ghost f1 = self.focused;
            let mut k: usize = 0;
            let mut idx: usize = start;
            while k < len
                invariant
                    self.children@ == r,
                    r == old(self).children@.remove(index as int),
                    index < old(self).children@.len(),
                    old(self).focused == index,
                    f1 == Self::focus_after_remove(old(self).focused as int, index as int),
                    start == (if f1 < r.len() - 1 { f1 as int } else { (r.len() - 1) as int }),
                    len == r.len(),
                    len > 0,
                    start < len,
                    self.focused == f1,
                    f1 < len,
                    self.same_frame(old(self)),
                    k <= len,
                    idx == step_up(start as int, k as int, len as int),
                    k < len ==> idx < len,
                    next_can_focus(r, start as int, k as int, len as int) == next_can_focus(r, start as int, 0, len as int),
                    forall|i: int, j: int| 0 <= i < j < r.len() ==> (#[trigger] r[i]).id != (#[trigger] r[j]).id,
                    forall|i: int| 0 <= i < r.len() ==> (#[trigger] r[i]).id.value < self.next_id,
                decreases len - k,
            {
                if self.children[idx].can_focus {
                    assert(next_can_focus(r, start as int, k as int, len as int) == Some(idx as int));
                    let c = self.children[idx];
                    self.focused = idx;
                    self.children.set(idx, ChildInfo { state: c.state | SF_FOCUSED, ..c });
                    assert(forall|q: int| 0 <= q < self.children@.len() ==> (#[trigger] self.children@[q]).id == r[q].id);
                    return;
                }
                idx = if idx + 1 < len { idx + 1 } else { 0 };
                k = k + 1;
            }
        }
    }

    /// The child with `id`, if there is one.
    pub fn child_by_id(&self, view_id: ViewId) -> (r: Option<&ChildInfo>)
        requires
            self.wf(),
        ensures
            r matches Some(c) ==> exists|i: int| first_with_id(self.spec_children(), view_id, i) && *c == self.spec_children()[i],
            r is None ==> no_id(self.spec_children(), view_id),
    {
        match self.position_of(view_id) {
            Some(i) => Some(&self.children[i]),
            None => None,
        }
    }

    /// Replace what the group knows of the child with `id`, keeping the id;
    /// returns whether there was such a child.
    pub fn child_by_id_mut(&mut self, view_id: ViewId, info: ChildInfo) -> (found: bool)
        requires
            old(self).wf(),
        ensures
            final(self).wf(),
            final(self).same_frame(old(self)),
            final(self).spec_focused() == old(self).spec_focused(),
            found == !no_id(old(self).spec_children(), view_id),
            found ==> forall|i: int| #[trigger] first_with_id(old(self).spec_children(), view_id, i) ==>
                final(self).spec_children() == old(self).spec_children().update(i, ChildInfo { id: view_id, ..info }),
            !found ==> final(self).spec_children() == old(self).spec_children(),
    {
        match self.position_of(view_id) {
            Some(i) => {
                self.child_at_mut(i, info);
                true
            },
            None => false,
        }
    }

    /// Remove the child with `id`; returns whether there was one.
    pub fn remove_by_id(&mut self, view_id: ViewId) -> (found: bool)
        requires
            old(self).wf(),
        ensures
            final(self).wf(),
            final(self).same_frame(old(self)),
            found == !no_id(old(self).spec_children(), view_id),
            !found ==> final(self).spec_children() == old(self).spec_children() && final(self).spec_focused() == old(self).spec_focused(),
            found ==> forall|i: int| #[trigger] first_with_id(old(self).spec_children(), view_id, i) ==>
                final(self).spec_children().len() == old(self).spec_children().len() - 1
                && no_id(final(self).spec_children(), view_id)
                && (forall|j: int| 0 <= j < final(self).spec_children().len() ==>
                    (#[trigger] final(self).spec_children()[j]).id == old(self).spec_children()[if j < i { j } else { j + 1 }].id),
    {
        match self.position_of(view_id) {
            Some(i) => {
                let ghost s = self.children@;
                self.remove(i);
                proof {
                    let t = self.children@;
                    let r = s.remove(i as int);
                    assert forall|j: int| 0 <= j < t.len() implies (#[trigger] t[j]).id == s[if j < i { j } else { j + 1 }].id by {
                        assert(t[j].id == r[j].id);
                        assert(r[j] == s[if j < i { j } else { j + 1 }]);
                    }
                    assert forall|j: int| 0 <= j < t.len() implies (#[trigger] t[j]).id != view_id by {
                        let oj = if j < i { j } else { j + 1 };
                        assert(t[j].id == s[oj].id);
                        if oj < i {
                        } else {
                            assert(s[i as int].id != s[oj].id);
                        }
                    }
                }
                true
            },
            None => false,
        }
    }

    /// End the modal loop with `command`.
    pub fn end_modal(&mut self, command: u16)
        ensures
            final(self).spec_end_state() == command,
            final(self).spec_children() == old(self).spec_children(),
            final(self).spec_focused() == old(self).spec_focused(),
            final(self).spec_bounds() == old(self).spec_bounds(),
            final(self).spec_state() == old(self).spec_state(),
            final(self).spec_background() == old(self).spec_background(),
            final(self).spec_overhang() == old(self).spec_overhang(),
            final(self).spec_next_id() == old(self).spec_next_id(),
            final(self).wf() == old(self).wf(),
    {
        self.end_state = command;
    }

    /// The command the modal loop ended with; 0 while it runs.
    pub fn end_state(&self) -> (c: u16)
        ensures
            c == self.spec_end_state(),
    {
        self.end_state
    }

    /// The children a broadcast goes to, in order: all but `owner_index`.
    /// The caller stops at the first child that clears the event.
    pub fn broadcast(&self, owner_index: Option<usize>) -> (plan: Vec<usize>)
        ensures
            plan@ == all_but(self.spec_children().len() as int, owner_index),
    {
        let n = self.children.len();
        let mut plan: Vec<usize> = Vec::new();
        let mut i: usize = 0;
        let ghost o: int = match owner_index {
            Some(o) => if (o as int) < n { o as int } else { n as int },
            None => n as int,
        };
        while i < n
            invariant
                n == self.children@.len(),
                i <= n,
                o == (match owner_index {
                    Some(x) => if (x as int) < n { x as int } else { n as int },
                    None => n as int,
                }),
                plan@ == Seq::new((if i <= o { i } else { (i - 1) as usize }) as nat, |k: int| if k < o { k as usize } else { (k + 1) as usize }),
            decreases n - i,
        {
            let skip = match owner_index {
                Some(x) => x == i,
                None => false,
            };
            if !skip {
                plan.push(i);
            }
            i = i + 1;
        }
        proof {
            match owner_index {
                Some(x) => {
                    if (x as int) < n {
                        assert(plan@ =~= all_but(n as int, owner_index));
                    } else {
                        assert(plan@ =~= all_but(n as int, owner_index));
                    }
                },
                None => {
                    assert(plan@ =~= all_but(n as int, owner_index));
                },
            }
        }
        plan
    }

    /// The children to redraw, bottom first: those from `start_index` on whose
    /// bounds meet `clip`.
    pub fn draw_sub_views(&self, start_index: usize, clip: Rect) -> (plan: Vec<usize>)
        ensures
            plan@ == meeting_upto(self.spec_children(), clip, start_index as int, self.spec_children().len() as int),
    {
        let n = self.children.len();
        let mut plan: Vec<usize> = Vec::new();
        let mut i: usize = start_index;
        if i > n {
            return plan;
        }
        while i < n
            invariant
                n == self.children@.len(),
                start_index <= i <= n,
                plan@ == meeting_upto(self.children@, clip, start_index as int, i as int),
            decreases n - i,
        {
            if clip.intersects(&self.children[i].bounds) {
                plan.push(i);
            }
            i = i + 1;
        }
        plan
    }

    /// The focused child, if the focus index names one.
    pub fn focused_child(&self) -> (r: Option<&ChildInfo>)
        ensures
            r matches Some(c) ==> self.spec_focused() < self.spec_children().len() && *c == self.spec_children()[self.spec_focused()],
            r is None ==> self.spec_focused() >= self.spec_children().len(),
    {
        if self.focused < self.children.len() {
            Some(&self.children[self.focused])
        } else {
            None
        }
    }

    /// Move the focus to the next focusable child going on round the group;
    /// it stays where it is when no other child qualifies.
    pub fn select_next(&mut self)
        requires
            old(self).wf(),
        ensures
            final(self).wf(),
            final(self).same_frame(old(self)),
            ({
                let s = old(self).spec_children();
                let f = old(self).spec_focused();
                if s.len() == 0 {
                    &&& final(self).spec_children() == s
                    &&& final(self).spec_focused() == f
                } else {
                    match next_focusable(s, if f + 1 < s.len() { f + 1 } else { 0 }, 0, s.len() - 1) {
                        Some(c) => {
                            &&& final(self).spec_focused() == c
                            &&& final(self).spec_children() == s.update(f, with_focus(s[f], false)).update(
                                c,
                                with_focus(s[c], true),
                            )
                        },
                        None => {
                            &&& final(self).spec_children() == s
                            &&& final(self).spec_focused() == f
                        },
                    }
                }
            }),
    {
        let n = self.children.len();
        if n == 0 {
            return;
        }
        let ghost s = self.children@;
        let f = self.focused;
        let b: usize = if f + 1 < n { f + 1 } else { 0 };
        let mut cand: usize = b;
        let mut j: usize = 0;
        while cand != f
            invariant
                self.children@ == s,
                *self == *old(self),
                old(self).wf(),
                n == s.len(),
                n > 0,
                f == self.focused,
                f < n,
                b == (if f + 1 < n { f + 1 } else { 0 }),
                j <= n - 1,
                cand == step_up(b as int, j as int, n as int),
                (j == n - 1 <==> cand == f),
                next_focusable(s, b as int, j as int, n - 1) == next_focusable(s, b as int, 0, n - 1),
            decreases n - 1 - j,
        {
            let c = self.children[cand];
            if c.can_focus && c.state & SF_DISABLED == 0 {
                let old_c = self.children[f];
                self.children.set(f, ChildInfo { state: old_c.state & !SF_FOCUSED, ..old_c });
                let c2 = self.children[cand];
                self.children.set(cand, ChildInfo { state: c2.state | SF_FOCUSED, ..c2 });
                self.focused = cand;
                assert(forall|q: int| 0 <= q < self.children@.len() ==> (#[trigger] self.children@[q]).id == s[q].id);
                return;
            }
            cand = if cand + 1 < n { cand + 1 } else { 0 };
            j = j + 1;
        }
    }

    /// Move the focus to the previous focusable child going back round the
    /// group; it stays where it is when no other child qualifies.
    pub fn select_previous(&mut self)
        requires
            old(self).wf(),
        ensures
            final(self).wf(),
            final(self).same_frame(old(self)),
            ({
                let s = old(self).spec_children();
                let f = old(self).spec_focused();
                if s.len() == 0 {
                    &&& final(self).spec_children() == s
                    &&& final(self).spec_focused() == f
                } else {
                    match prev_focusable(s, if f == 0 { s.len() - 1 } else { f - 1 }, 0, s.len() - 1) {
                        Some(c) => {
                            &&& final(self).spec_focused() == c
                            &&& final(self).spec_children() == s.update(f, with_focus(s[f], false)).update(
                                c,
                                with_focus(s[c], true),
                            )
                        },
                        None => {
                            &&& final(self).spec_children() == s
                            &&& final(self).spec_focused() == f
                        },
                    }
                }
            }),
    {
        let n = self.children.len();
        if n == 0 {
            return;
        }
        let ghost s = self.children@;
        let f = self.focused;
        let b: usize = if f == 0 { n - 1 } else { f - 1 };
        let mut cand: usize = b;
        let mut j: usize = 0;
        while cand != f
            invariant
                self.children@ == s,
                *self == *old(self),
                old(self).wf(),
                n == s.len(),
                n > 0,
                f == self.focused,
                f < n,
                b == (if f == 0 { n - 1 } else { f - 1 }),
                j <= n - 1,
                cand == step_down(b as int, j as int, n as int),
                (j == n - 1 <==> cand == f),
                prev_focusable(s, b as int, j as int, n - 1) == prev_focusable(s, b as int, 0, n - 1),
            decreases n - 1 - j,
        {
            let c = self.children[cand];
            if c.can_focus && c.state & SF_DISABLED == 0 {
                let old_c = self.children[f];
                self.children.set(f, ChildInfo { state: old_c.state & !SF_FOCUSED, ..old_c });
                let c2 = self.children[cand];
                self.children.set(cand, ChildInfo { state: c2.state | SF_FOCUSED, ..c2 });
                self.focused = cand;
                assert(forall|q: int| 0 <= q < self.children@.len() ==> (#[trigger] self.children@[q]).id == s[q].id);
                return;
            }
            cand = if cand == 0 { n - 1 } else { cand - 1 };
            j = j + 1;
        }
    }


    /// Where a positional event goes, and the focus change a press makes.
    ///
    /// A move or release goes to the focused child while it is being dragged
    /// or resized. Otherwise the topmost child under the mouse gets it; on a
    /// press that child takes the focus if it can, or, for a label whose link
    /// names a child that takes focus, that child takes it and the press is
    /// used up.
    pub fn mouse_route(&mut self, event: &Event) -> (route: MouseRoute)
        requires
            old(self).wf(),
            is_positional(event.what),
        ensures
            final(self).wf(),
            final(self).same_frame(old(self)),
            final(self).spec_children().len() == old(self).spec_children().len(),
            route matches MouseRoute::Child(i) ==> i < final(self).spec_children().len(),
            ({
                let s = old(self).spec_children();
                let f = old(self).spec_focused();
                if event.what != EventType::MouseDown && f < s.len() && s[f].state & (SF_DRAGGING | SF_RESIZING) != 0 {
                    &&& route == MouseRoute::Child(f as usize)
                    &&& final(self).spec_children() == s
                    &&& final(self).spec_focused() == f
                } else {
                    match topmost_under(s, event.mouse.pos, s.len() as int) {
                        None => {
                            &&& route == MouseRoute::Nobody
                            &&& final(self).spec_children() == s
                            &&& final(self).spec_focused() == f
                        },
                        Some(i) => if event.what != EventType::MouseDown {
                            &&& route == MouseRoute::Child(i as usize)
                            &&& final(self).spec_children() == s
                            &&& final(self).spec_focused() == f
                        } else {
                            match s[i].label_link {
                                Some(link) => if exists|k: int| first_with_id(s, link, k) && s[k].can_focus {
                                    &&& route == MouseRoute::Consumed
                                    &&& forall|k: int| #[trigger] first_with_id(s, link, k) ==> {
                                        &&& final(self).spec_focused() == k
                                        &&& final(self).spec_children() == focus_only(s, k)
                                    }
                                } else {
                                    &&& route == MouseRoute::Child(i as usize)
                                    &&& final(self).spec_children() == s
                                    &&& final(self).spec_focused() == f
                                },
                                None => if s[i].can_focus {
                                    &&& route == MouseRoute::Child(i as usize)
                                    &&& final(self).spec_focused() == i
                                    &&& final(self).spec_children() == focus_only(s, i)
                                } else {
                                    &&& route == MouseRoute::Child(i as usize)
                                    &&& final(self).spec_children() == s
                                    &&& final(self).spec_focused() == f
                                },
                            }
                        },
                    }
                }
            }),
    {
        let n = self.children.len();
        proof {
            lemma_topmost_below(self.children@, event.mouse.pos, n as int);
        }
        if event.what != EventType::MouseDown && self.focused < n {
            let st = self.children[self.focused].state;
            if st & (SF_DRAGGING | SF_RESIZING) != 0 {
                return MouseRoute::Child(self.focused);
            }
        }
        let mut i: usize = n;
        let ghost s = self.children@;
        while i > 0
            invariant
                self.children@ == s,
                i <= n,
                n == s.len(),
                topmost_under(s, event.mouse.pos, i as int) == topmost_under(s, event.mouse.pos, n as int),
            ensures
                i == 0 || spec_contains(s[i - 1].bounds, event.mouse.pos),
                i <= n,
                topmost_under(s, event.mouse.pos, i as int) == topmost_under(s, event.mouse.pos, n as int),
            decreases i,
        {
            if self.children[i - 1].bounds.contains(event.mouse.pos) {
                break;
            }
            i = i - 1;
        }
        if i == 0 {
            return MouseRoute::Nobody;
        }
        let hit = i - 1;
        if event.what == EventType::MouseDown {
            match self.children[hit].label_link {
                Some(link) => {
                    if self.focus_by_view_id(link) {
                        return MouseRoute::Consumed;
                    }
                },
                None => {
                    if self.children[hit].can_focus {
                        self.focus_at(hit);
                    }
                },
            }
        }
        MouseRoute::Child(hit)
    }

    /// The children a key press, command or other non-positional event goes
    /// to, in order. Keys and commands: those with pre-processing on, then the
    /// focused child, then those with post-processing on; the caller stops
    /// at the first child that clears the event. Broadcasts: every child
    /// (a focus-link broadcast is the group's own, see `focus_link`). Other
    /// events: the focused child.
    pub fn delivery_plan(&self, event: &Event) -> (plan: Vec<usize>)
        requires
            self.wf(),
            !is_positional(event.what),
        ensures
            plan@ == planned_for(self.spec_children(), self.spec_focused(), *event),
    {
        let n = self.children.len();
        if event.what == EventType::Keyboard || event.what == EventType::Command {
            let mut plan = self.flagged(OF_PRE_PROCESS);
            if self.focused < n {
                plan.push(self.focused);
            }
            let post = self.flagged(OF_POST_PROCESS);
            let ghost before = plan@;
            let mut k: usize = 0;
            while k < post.len()
                invariant
                    k <= post@.len(),
                    plan@ == before + post@.take(k as int),
                decreases post.len() - k,
            {
                plan.push(post[k]);
                k = k + 1;
                assert(plan@ =~= before + post@.take(k as int));
            }
            assert(post@.take(post@.len() as int) =~= post@);
            plan
        } else if event.what == EventType::Broadcast {
            if event.command == CM_FOCUS_LINK {
                Vec::new()
            } else {
                self.broadcast(None)
            }
        } else {
            let mut plan: Vec<usize> = Vec::new();
            if self.focused < n {
                plan.push(self.focused);
            }
            assert(plan@ =~= (if self.focused < n { seq![self.focused] } else { Seq::<usize>::empty() }));
            plan
        }
    }

    /// The children whose options hold `flag`, in order.
    fn flagged(&self, flag: u16) -> (plan: Vec<usize>)
        ensures
            plan@ == flagged_upto(self.spec_children(), flag, self.spec_children().len() as int),
    {
        let mut plan: Vec<usize> = Vec::new();
        let mut i: usize = 0;
        while i < self.children.len()
            invariant
                i <= self.children@.len(),
                plan@ == flagged_upto(self.children@, flag, i as int),
            decreases self.children.len() - i,
        {
            if self.children[i].options & flag != 0 {
                plan.push(i);
            }
            i = i + 1;
        }
        plan
    }

    /// A focus-link broadcast asks the group to focus the child whose id is
    /// in the key code; the event is cleared when that happened.
    pub fn focus_link(&mut self, event: &mut Event)
        requires
            old(self).wf(),
        ensures
            final(self).wf(),
            final(self).same_frame(old(self)),
            (exists|i: int| first_with_id(old(self).spec_children(), ViewId { value: old(event).key_code }, i)
                && old(self).spec_children()[i].can_focus) ==> {
                &&& *final(event) == (Event { what: EventType::Nothing, ..*old(event) })
                &&& forall|i: int| #[trigger] first_with_id(old(self).spec_children(), ViewId { value: old(event).key_code }, i) ==> {
                    &&& final(self).spec_focused() == i
                    &&& final(self).spec_children() == focus_only(old(self).spec_children(), i)
                }
            },
            !(exists|i: int| first_with_id(old(self).spec_children(), ViewId { value: old(event).key_code }, i)
                && old(self).spec_children()[i].can_focus) ==> {
                &&& *final(event) == *old(event)
                &&& final(self).spec_focused() == old(self).spec_focused()
                &&& final(self).spec_children() == old(self).spec_children()
            },
    {
        let id = ViewId::from_u16(event.key_code);
        assert(id == ViewId { value: event.key_code });
        if self.focus_by_view_id(id) {
            event.clear();
        }
    }

    /// After its children had a key press: Tab and Shift+Tab that nobody
    /// used move the focus forward and back, and are cleared.
    pub fn finish_keyboard(&mut self, event: &mut Event)
        requires
            old(self).wf(),
        ensures
            final(self).wf(),
            final(self).same_frame(old(self)),
            final(self).spec_children().len() == old(self).spec_children().len(),
            old(event).what == EventType::Keyboard && old(event).key_code == KB_TAB ==> *final(event) == (Event {
                what: EventType::Nothing,
                ..*old(event)
            }),
            old(event).what == EventType::Keyboard && old(event).key_code == KB_SHIFT_TAB ==> *final(event) == (Event {
                what: EventType::Nothing,
                ..*old(event)
            }),
            !(old(event).what == EventType::Keyboard && (old(event).key_code == KB_TAB || old(event).key_code == KB_SHIFT_TAB)) ==> {
                &&& *final(event) == *old(event)
                &&& final(self).spec_children() == old(self).spec_children()
                &&& final(self).spec_focused() == old(self).spec_focused()
            },
    {
        proof {
            if self.children@.len() > 0 {
                law_tab_lands_on_a_focusable_child(self.children@, self.focused as int);
            }
        }
        if event.what == EventType::Keyboard {
            if event.key_code == KB_TAB {
                self.select_next();
                event.clear();
            } else if event.key_code == KB_SHIFT_TAB {
                self.select_previous();
                event.clear();
            }
        }
    }

    /// Moves a delivery on from the event `e` (in the group's space) at the
    /// stage and plan position of `d`; a focus key at the end of a key
    /// plan moves the focus.
    fn advance(&mut self, d: &mut Dispatch, e: Event) -> (r: Delivery)
        requires
            old(self).wf(),
            old(d).fits(old(self).spec_children().len() as int),
            old(d).spec_stage() != Stage::Mouse,
        ensures
            final(self).wf(),
            final(self).same_frame(old(self)),
            final(d).fits(final(self).spec_children().len() as int),
            final(d).spec_stage() == old(d).spec_stage(),
            final(d).spec_plan() == old(d).spec_plan(),
            final(d).spec_event() == e,
            r == next_delivery(old(d).spec_stage(), old(d).spec_plan(), old(d).spec_next(), e),
            final(d).spec_next() == (if r is To { old(d).spec_next() + 1 } else { old(d).spec_next() }),
            !(r is Done && old(d).spec_stage() == Stage::Keys && is_focus_key(e)) ==> {
                &&& final(self).spec_children() == old(self).spec_children()
                &&& final(self).spec_focused() == old(self).spec_focused()
            },
    {
        d.event = e;
        if d.stage == Stage::Keys && e.what == EventType::Nothing {
            return Delivery::Done(e);
        }
        if d.next < d.plan.len() {
            let i = d.plan[d.next];
            d.next = d.next + 1;
            return Delivery::To(i);
        }
        if d.stage == Stage::Keys {
            if e.what == EventType::Broadcast {
                return Delivery::Again(e);
            }
            let mut f = e;
            self.finish_keyboard(&mut f);
            return Delivery::Done(f);
        }
        Delivery::Done(e)
    }

    /// Starts delivering `event` (in the group's space). A positional event
    /// goes to the child `mouse_route` picks (a press may move the focus);
    /// a focus-link broadcast is the group's own; a key press or command
    /// goes through `planned_for` until used; any other event goes to every
    /// child `planned_for` lists.
    pub fn begin_dispatch(&mut self, event: &Event) -> (r: (Dispatch, Delivery))
        requires
            old(self).wf(),
        ensures
            final(self).wf(),
            final(self).same_frame(old(self)),
            r.0.fits(final(self).spec_children().len() as int),
            r.0.spec_event() == *event,
            is_positional(event.what) ==> {
                &&& r.0.spec_stage() == Stage::Mouse
                &&& match r.1 {
                    Delivery::To(i) => r.0.spec_plan() == seq![i] && r.0.spec_next() == 1,
                    Delivery::Done(e) => e == *event || e == (Event { what: EventType::Nothing, ..*event }),
                    Delivery::Again(_) => false,
                }
            },
            !is_positional(event.what) && event.what == EventType::Broadcast && event.command == CM_FOCUS_LINK ==> r.1 is Done,
            !is_positional(event.what) && !(event.what == EventType::Broadcast && event.command == CM_FOCUS_LINK) ==> {
                let stage = if event.what == EventType::Keyboard || event.what == EventType::Command {
                    Stage::Keys
                } else {
                    Stage::All
                };
                let plan = planned_for(old(self).spec_children(), old(self).spec_focused(), *event);
                &&& r.0.spec_stage() == stage
                &&& r.0.spec_plan() == plan
                &&& r.1 == next_delivery(stage, plan, 0, *event)
                &&& r.0.spec_next() == (if r.1 is To { 1int } else { 0int })
                &&& !(r.1 is Done && is_focus_key(*event)) ==> {
                    &&& final(self).spec_children() == old(self).spec_children()
                    &&& final(self).spec_focused() == old(self).spec_focused()
                }
            },
    {
        if event.what == EventType::MouseDown || event.what == EventType::MouseMove || event.what == EventType::MouseUp {
            match self.mouse_route(event) {
                MouseRoute::Child(i) => {
                    let mut plan: Vec<usize> = Vec::new();
                    plan.push(i);
                    let d = Dispatch { plan, next: 1, stage: Stage::Mouse, event: *event };
                    return (d, Delivery::To(i));
                },
                MouseRoute::Consumed => {
                    let mut e = *event;
                    e.clear();
                    let d = Dispatch { plan: Vec::new(), next: 0, stage: Stage::Mouse, event: *event };
                    return (d, Delivery::Done(e));
                },
                MouseRoute::Nobody => {
                    let d = Dispatch { plan: Vec::new(), next: 0, stage: Stage::Mouse, event: *event };
                    return (d, Delivery::Done(*event));
                },
            }
        }
        if event.what == EventType::Broadcast && event.command == CM_FOCUS_LINK {
            let mut e = *event;
            self.focus_link(&mut e);
            let d = Dispatch { plan: Vec::new(), next: 0, stage: Stage::All, event: *event };
            return (d, Delivery::Done(e));
        }
        let plan = self.delivery_plan(event);
        let stage = if event.what == EventType::Keyboard || event.what == EventType::Command {
            Stage::Keys
        } else {
            Stage::All
        };
        let mut d = Dispatch { plan, next: 0, stage, event: *event };
        let _n = self.children.len();
        proof {
            self.lemma_plan_fits(*event);
        }
        let r = self.advance(&mut d, *event);
        (d, r)
    }

    /// Takes up a delivery after a child had the event: `returned` is what
    /// the child made of it, in its own space; the mouse position goes back
    /// to the group's space. After the child under the mouse, a broadcast it
    /// made is delivered again, a command it made goes on as a command, and
    /// anything else ends the delivery.
    pub fn delivered(&mut self, d: &mut Dispatch, returned: &Event) -> (r: Delivery)
        requires
            old(self).wf(),
            old(d).fits(old(self).spec_children().len() as int),
        ensures
            final(self).wf(),
            final(self).same_frame(old(self)),
            final(d).fits(final(self).spec_children().len() as int),
            ({
                let e = restored(*returned, old(d).spec_event().mouse.pos);
                &&& final(d).spec_event() == e
                &&& if old(d).spec_stage() == Stage::Mouse {
                    if e.what == EventType::Broadcast {
                        r == Delivery::Again(e)
                    } else if e.what == EventType::Command {
                        let plan = planned_for(old(self).spec_children(), old(self).spec_focused(), e);
                        &&& final(d).spec_stage() == Stage::Keys
                        &&& final(d).spec_plan() == plan
                        &&& r == next_delivery(Stage::Keys, plan, 0, e)
                        &&& final(d).spec_next() == (if r is To { 1int } else { 0int })
                        &&& final(self).spec_children() == old(self).spec_children()
                        &&& final(self).spec_focused() == old(self).spec_focused()
                    } else {
                        r == Delivery::Done(e)
                    }
                } else {
                    &&& final(d).spec_stage() == old(d).spec_stage()
                    &&& final(d).spec_plan() == old(d).spec_plan()
                    &&& r == next_delivery(old(d).spec_stage(), old(d).spec_plan(), old(d).spec_next(), e)
                    &&& final(d).spec_next() == (if r is To { old(d).spec_next() + 1 } else { old(d).spec_next() })
                    &&& !(r is Done && old(d).spec_stage() == Stage::Keys && is_focus_key(e)) ==> {
                        &&& final(self).spec_children() == old(self).spec_children()
                        &&& final(self).spec_focused() == old(self).spec_focused()
                    }
                }
            }),
    {
        let mut e = *returned;
        e.mouse.pos = d.event.mouse.pos;
        if d.stage == Stage::Mouse {
            d.event = e;
            if e.what == EventType::Broadcast {
                return Delivery::Again(e);
            }
            if e.what == EventType::Command {
                d.plan = self.delivery_plan(&e);
                d.next = 0;
                d.stage = Stage::Keys;
                let _n = self.children.len();
                proof {
                    self.lemma_plan_fits(e);
                }
                return self.advance(d, e);
            }
            return Delivery::Done(e);
        }
        self.advance(d, e)
    }

    /// Every child a plan names is one of the group's.
    proof fn lemma_plan_fits(&self, e: Event)
        requires
            self.wf(),
            self.spec_children().len() <= usize::MAX,
        ensures
            forall|k: int| 0 <= k < planned_for(self.spec_children(), self.spec_focused(), e).len()
                ==> #[trigger] planned_for(self.spec_children(), self.spec_focused(), e)[k] < self.spec_children().len(),
    {
        let s = self.spec_children();
        lemma_flagged_below(s, OF_PRE_PROCESS, s.len() as int);
        lemma_flagged_below(s, OF_POST_PROCESS, s.len() as int);
    }

    /// The children to ask whether `command` may go ahead, in order; the
    /// caller stops at the first that refuses. On focus release only the
    /// focused child, and only if it asks for validation; otherwise all.
    pub fn validation_plan(&self, command: u16) -> (plan: Vec<usize>)
        requires
            self.wf(),
        ensures
            ({
                let s = self.spec_children();
                let f = self.spec_focused();
                if command == CM_RELEASED_FOCUS {
                    plan@ == (if f < s.len() && s[f].options & OF_VALIDATE != 0 {
                        seq![f as usize]
                    } else {
                        Seq::empty()
                    })
                } else {
                    plan@ == all_but(s.len() as int, None)
                }
            }),
    {
        if command == CM_RELEASED_FOCUS {
            let mut plan: Vec<usize> = Vec::new();
            if self.focused < self.children.len() && self.children[self.focused].options & OF_VALIDATE != 0 {
                plan.push(self.focused);
            }
            assert(plan@ =~= (if self.focused < self.children@.len() && self.children@[self.focused as int].options
                & OF_VALIDATE != 0 {
                seq![self.focused]
            } else {
                Seq::<usize>::empty()
            }));
            plan
        } else {
            self.broadcast(None)
        }
    }

    /// Where child `index` has its top-left corner in the space the group's
    /// own corner `origin` is given in: children are drawn translated by the
    /// group's origin and their own.
    pub fn child_origin(&self, index: usize, origin: Point) -> (p: Point)
        requires
            index < self.spec_children().len(),
            i16::MIN <= origin.x + self.spec_children()[index as int].bounds.a.x <= i16::MAX,
            i16::MIN <= origin.y + self.spec_children()[index as int].bounds.a.y <= i16::MAX,
        ensures
            p == (Point {
                x: (origin.x + self.spec_children()[index as int].bounds.a.x) as i16,
                y: (origin.y + self.spec_children()[index as int].bounds.a.y) as i16,
            }),
    {
        let a = self.children[index].bounds.a;
        Point { x: origin.x + a.x, y: origin.y + a.y }
    }

    /// `event` as child `index` sees it: the mouse position in its own space.
    pub fn event_for_child(&self, index: usize, event: &Event) -> (e: Event)
        requires
            index < self.spec_children().len(),
            i16::MIN <= event.mouse.pos.x - self.spec_children()[index as int].bounds.a.x <= i16::MAX,
            i16::MIN <= event.mouse.pos.y - self.spec_children()[index as int].bounds.a.y <= i16::MAX,
        ensures
            e == (Event {
                mouse: crate::event::MouseEvent {
                    pos: Point {
                        x: (event.mouse.pos.x - self.spec_children()[index as int].bounds.a.x) as i16,
                        y: (event.mouse.pos.y - self.spec_children()[index as int].bounds.a.y) as i16,
                    },
                    ..event.mouse
                },
                ..*event
            }),
    {
        let o = self.children[index].bounds.a;
        let mut e = *event;
        e.mouse.pos = Point { x: event.mouse.pos.x - o.x, y: event.mouse.pos.y - o.y };
        e
    }


    /// Move and resize the group. Children keep their group-relative
    /// bounds on a move; on a resize each edge named in a child's grow mode
    /// moves by the change in width or height.
    pub fn set_bounds(&mut self, bounds: Rect)
        requires
            old(self).wf(),
            i16::MIN <= crate::geometry::spec_width(bounds) <= i16::MAX,
            i16::MIN <= crate::geometry::spec_height(bounds) <= i16::MAX,
            i16::MIN <= crate::geometry::spec_width(old(self).spec_bounds()) <= i16::MAX,
            i16::MIN <= crate::geometry::spec_height(old(self).spec_bounds()) <= i16::MAX,
            i16::MIN <= crate::geometry::spec_width(bounds) - crate::geometry::spec_width(old(self).spec_bounds()) <= i16::MAX,
            i16::MIN <= crate::geometry::spec_height(bounds) - crate::geometry::spec_height(old(self).spec_bounds()) <= i16::MAX,
            forall|i: int| 0 <= i < old(self).spec_children().len() ==> growth_fits(
                #[trigger] old(self).spec_children()[i],
                crate::geometry::spec_width(bounds) - crate::geometry::spec_width(old(self).spec_bounds()),
                crate::geometry::spec_height(bounds) - crate::geometry::spec_height(old(self).spec_bounds()),
            ),
        ensures
            final(self).wf(),
            final(self).spec_bounds() == bounds,
            final(self).spec_focused() == old(self).spec_focused(),
            final(self).spec_state() == old(self).spec_state(),
            final(self).spec_background() == old(self).spec_background(),
            final(self).spec_end_state() == old(self).spec_end_state(),
            final(self).spec_overhang() == old(self).spec_overhang(),
            final(self).spec_next_id() == old(self).spec_next_id(),
            ({
                let dw = crate::geometry::spec_width(bounds) - crate::geometry::spec_width(old(self).spec_bounds());
                let dh = crate::geometry::spec_height(bounds) - crate::geometry::spec_height(old(self).spec_bounds());
                if dw == 0 && dh == 0 {
                    final(self).spec_children() == old(self).spec_children()
                } else {
                    final(self).spec_children() == old(self).spec_children().map_values(
                        |c: ChildInfo| ChildInfo { bounds: grown_bounds(c, dw, dh), ..c },
                    )
                }
            }),
    {
        let dw: i16 = bounds.width() - self.bounds.width();
        let dh: i16 = bounds.height() - self.bounds.height();
        self.bounds = bounds;
        if dw == 0 && dh == 0 {
            return;
        }
        let ghost s = self.children@;
        assert forall|j: int| 0 <= j < s.len() implies growth_fits(#[trigger] s[j], dw as int, dh as int) by {
            assert(s[j] == old(self).spec_children()[j]);
        }
        let mut i: usize = 0;
        while i < self.children.len()
            invariant
                self.children@.len() == s.len(),
                s == old(self).children@,
                old(self).wf(),
                self.bounds == bounds,
                self.focused == old(self).focused,
                self.state == old(self).state,
                self.background == old(self).background,
                self.end_state == old(self).end_state,
                self.child_overhang == old(self).child_overhang,
                self.next_id == old(self).next_id,
                i <= s.len(),
                forall|j: int| 0 <= j < s.len() ==> growth_fits(#[trigger] s[j], dw as int, dh as int),
                forall|j: int| 0 <= j < s.len() ==> #[trigger] self.children@[j] == (if j < i {
                    ChildInfo { bounds: grown_bounds(s[j], dw as int, dh as int), ..s[j] }
                } else {
                    s[j]
                }),
            decreases s.len() - i,
        {
            let c = self.children[i];
            assert(growth_fits(s[i as int], dw as int, dh as int));
            let ax: i16 = c.bounds.a.x + if c.grow_mode & GF_GROW_LO_X != 0 { dw } else { 0 };
            let ay: i16 = c.bounds.a.y + if c.grow_mode & GF_GROW_LO_Y != 0 { dh } else { 0 };
            let bx: i16 = c.bounds.b.x + if c.grow_mode & GF_GROW_HI_X != 0 { dw } else { 0 };
            let by_: i16 = c.bounds.b.y + if c.grow_mode & GF_GROW_HI_Y != 0 { dh } else { 0 };
            self.children.set(
                i,
                ChildInfo { bounds: Rect { a: Point { x: ax, y: ay }, b: Point { x: bx, y: by_ } }, ..c },
            );
            i = i + 1;
        }
        assert(self.children@ =~= s.map_values(
            |c: ChildInfo| ChildInfo { bounds: grown_bounds(c, dw as int, dh as int), ..c },
        ));
        assert(forall|k: int| 0 <= k < self.children@.len() ==> (#[trigger] self.children@[k]).id == s[k].id);
    }

}


/// Builder for groups; the bounds must be given.
pub struct GroupBuilder {
    bounds: Option<Rect>,
    background: Option<Attr>,
}

impl GroupBuilder {
    pub closed spec fn spec_bounds(&self) -> Option<Rect> {
        self.bounds
    }

    pub closed spec fn spec_background(&self) -> Option<Attr> {
        self.background
    }

    pub fn new() -> (b: Self)
        ensures
            b.spec_bounds() is None,
            b.spec_background() is None,
    {
        GroupBuilder { bounds: None, background: None }
    }

    pub fn bounds(self, bounds: Rect) -> (b: Self)
        ensures
            b.spec_bounds() == Some(bounds),
            b.spec_background() == self.spec_background(),
    {
        GroupBuilder { bounds: Some(bounds), ..self }
    }

    pub fn background(self, background: Attr) -> (b: Self)
        ensures
            b.spec_background() == Some(background),
            b.spec_bounds() == self.spec_bounds(),
    {
        GroupBuilder { background: Some(background), ..self }
    }

    pub fn build(self) -> (g: Group)
        requires
            self.spec_bounds() is Some,
        ensures
            g.wf(),
            g.spec_bounds() == self.spec_bounds()->0,
            g.spec_background() == self.spec_background(),
            g.spec_children().len() == 0,
            g.spec_focused() == 0,
            g.spec_state() == 0,
            g.spec_end_state() == 0,
    {
        let bounds = self.bounds.unwrap();
        match self.background {
            Some(bg) => Group::with_background(bounds, bg),
            None => Group::new(bounds),
        }
    }

    pub fn build_boxed(self) -> (g: Box<Group>)
        requires
            self.spec_bounds() is Some,
        ensures
            g.wf(),
            g.spec_bounds() == self.spec_bounds()->0,
            g.spec_background() == self.spec_background(),
            g.spec_children().len() == 0,
            g.spec_focused() == 0,
            g.spec_state() == 0,
            g.spec_end_state() == 0,
    {
        Box::new(self.build())
    }
}

} // verus!
