//! A single radio button: a circle and a label, one choice of a group.
//!
//! Radio buttons with the same group id are the choices of one question.
use vstd::prelude::*;
use crate::draw::{put_text, Attr, Cell, DrawBuffer, DrawLine};
use crate::event::{Event, EventType, KB_SPACE};
use crate::geometry::{clamp_extent, spec_width, Rect};
use crate::state::{has_flag, SF_FOCUSED};
use crate::text::str_chars;

verus! {

broadcast use vstd::string::group_string_axioms;

/// The value of a cluster control and the group it belongs to.
#[derive(Clone, Copy, Debug, PartialEq, Eq, Structural)]
pub struct ClusterState {
    pub value: u32,
    pub group_id: u16,
}

impl ClusterState {
    /// A cleared state in group `group_id`.
    pub fn with_group(group_id: u16) -> (s: Self)
        ensures
            s.value == 0,
            s.group_id == group_id,
    {
        ClusterState { value: 0, group_id }
    }

    pub fn set_value(&mut self, value: u32)
        ensures
            final(self).value == value,
            final(self).group_id == old(self).group_id,
    {
        self.value = value;
    }
}

pub struct RadioButton {
    bounds: Rect,
    label: String,
    cluster_state: ClusterState,
    state: u16,
}

/// The marker drawn before the label.
pub open spec fn radio_marker(selected: bool) -> Seq<char> {
    if selected { seq!['(', '\u{2022}', ')', ' '] } else { seq!['(', ' ', ')', ' '] }
}

impl RadioButton {
    pub closed spec fn spec_bounds(&self) -> Rect {
        self.bounds
    }

    pub closed spec fn spec_label(&self) -> Seq<char> {
        self.label@
    }

    pub closed spec fn spec_cluster(&self) -> ClusterState {
        self.cluster_state
    }

    pub closed spec fn spec_state(&self) -> u16 {
        self.state
    }

    pub open spec fn spec_selected(&self) -> bool {
        self.spec_cluster().value != 0
    }

    /// An unselected radio button labelled `label`, in group `group_id`.
    pub fn new(bounds: Rect, label: &str, group_id: u16) -> (r: Self)
        ensures
            r.spec_bounds() == bounds,
            r.spec_label() == label@,
            r.spec_cluster() == (ClusterState { value: 0, group_id: group_id }),
            r.spec_state() == 0,
    {
        RadioButton { bounds, label: label.to_string(), cluster_state: ClusterState::with_group(group_id), state: 0 }
    }

    pub fn label(&self) -> (l: &str)
        ensures
            l@ == self.spec_label(),
    {
        self.label.as_str()
    }

    pub fn group_id(&self) -> (g: u16)
        ensures
            g == self.spec_cluster().group_id,
    {
        self.cluster_state.group_id
    }

    pub fn set_selected(&mut self, selected: bool)
        ensures
            final(self).spec_cluster() == (ClusterState { value: if selected { 1u32 } else { 0u32 }, ..old(self).spec_cluster() }),
            final(self).spec_bounds() == old(self).spec_bounds(),
            final(self).spec_label() == old(self).spec_label(),
            final(self).spec_state() == old(self).spec_state(),
    {
        self.cluster_state.set_value(if selected { 1 } else { 0 });
    }

    pub fn is_selected(&self) -> (b: bool)
        ensures
            b == self.spec_selected(),
    {
        self.cluster_state.value != 0
    }

    /// Choose this button.
    pub fn select(&mut self)
        ensures
            final(self).spec_cluster() == (ClusterState { value: 1, ..old(self).spec_cluster() }),
            final(self).spec_bounds() == old(self).spec_bounds(),
            final(self).spec_label() == old(self).spec_label(),
            final(self).spec_state() == old(self).spec_state(),
    {
        self.cluster_state.set_value(1);
    }

    /// Clear this button.
    pub fn deselect(&mut self)
        ensures
            final(self).spec_cluster() == (ClusterState { value: 0, ..old(self).spec_cluster() }),
            final(self).spec_bounds() == old(self).spec_bounds(),
            final(self).spec_label() == old(self).spec_label(),
            final(self).spec_state() == old(self).spec_state(),
    {
        self.cluster_state.set_value(0);
    }

    pub fn bounds(&self) -> (r: Rect)
        ensures
            r == self.spec_bounds(),
    {
        self.bounds
    }

    pub fn set_bounds(&mut self, bounds: Rect)
        ensures
            final(self).spec_bounds() == bounds,
            final(self).spec_cluster() == old(self).spec_cluster(),
            final(self).spec_label() == old(self).spec_label(),
            final(self).spec_state() == old(self).spec_state(),
    {
        self.bounds = bounds;
    }

    pub fn can_focus(&self) -> (b: bool)
        ensures
            b,
    {
        true
    }

    pub fn state(&self) -> (s: u16)
        ensures
            s == self.spec_state(),
    {
        self.state
    }

    pub fn set_state(&mut self, state: u16)
        ensures
            final(self).spec_state() == state,
            final(self).spec_bounds() == old(self).spec_bounds(),
            final(self).spec_cluster() == old(self).spec_cluster(),
            final(self).spec_label() == old(self).spec_label(),
    {
        self.state = state;
    }

    /// The marker drawn before the label: a dot in the circle when chosen.
    pub fn get_marker(&self) -> (m: &'static str)
        ensures
            m@ == radio_marker(self.spec_selected()),
    {
        proof {
            reveal_strlit("(\u{2022}) ");
            reveal_strlit("( ) ");
        }
        if self.is_selected() {
            "(\u{2022}) "
        } else {
            "( ) "
        }
    }

    /// Space, while the button has the focus, chooses it (it never clears it).
    pub fn handle_event(&mut self, event: &mut Event)
        ensures
            final(self).spec_bounds() == old(self).spec_bounds(),
            final(self).spec_label() == old(self).spec_label(),
            final(self).spec_state() == old(self).spec_state(),
            ({
                let e = *old(event);
                if e.what == EventType::Keyboard && e.key_code == KB_SPACE && has_flag(old(self).spec_state(), SF_FOCUSED) {
                    &&& final(self).spec_cluster() == (ClusterState { value: 1, ..old(self).spec_cluster() })
                    &&& *final(event) == (Event { what: EventType::Nothing, ..e })
                } else {
                    &&& final(self).spec_cluster() == old(self).spec_cluster()
                    &&& *final(event) == e
                }
            }),
    {
        if event.what == EventType::Keyboard && event.key_code == KB_SPACE && self.state & SF_FOCUSED == SF_FOCUSED {
            self.select();
            event.clear();
        }
    }

    /// Draw the button on its first row: the marker, then the label, in `attr`.
    pub fn draw(&self, attr: Attr) -> (lines: Vec<DrawLine>)
        ensures
            lines@.len() == 1,
            lines@[0].x == self.spec_bounds().a.x,
            lines@[0].y == self.spec_bounds().a.y,
            lines@[0].buf.data@ == put_text(
                put_text(
                    Seq::new(clamp_extent(spec_width(self.spec_bounds())) as nat, |j: int| Cell { ch: ' ', attr: attr }),
                    0,
                    radio_marker(self.spec_selected()),
                    attr,
                ),
                4,
                self.spec_label(),
                attr,
            ),
    {
        let width = self.bounds.width_clamped() as usize;
        let mut buf = DrawBuffer::new(width);
        buf.move_char(0, ' ', attr, width);
        assert(buf.data@ =~= Seq::new(width as nat, |j: int| Cell { ch: ' ', attr: attr }));
        let marker = str_chars(self.get_marker());
        buf.move_chars(0, &marker, attr);
        let label = str_chars(self.label.as_str());
        buf.move_chars(4, &label, attr);
        let mut lines: Vec<DrawLine> = Vec::new();
        lines.push(DrawLine::new(self.bounds.a.x, self.bounds.a.y, buf));
        lines
    }
}

/// Builds a radio button from its bounds, label, group and choice.
pub struct RadioButtonBuilder {
    bounds: Option<Rect>,
    label: Option<String>,
    group_id: u16,
    selected: bool,
}

impl RadioButtonBuilder {
    pub closed spec fn spec_bounds(&self) -> Option<Rect> {
        self.bounds
    }

    pub closed spec fn spec_label(&self) -> Option<Seq<char>> {
        match self.label {
            Some(l) => Some(l@),
            None => None,
        }
    }

    pub closed spec fn spec_group(&self) -> u16 {
        self.group_id
    }

    pub closed spec fn spec_selected(&self) -> bool {
        self.selected
    }

    pub fn new() -> (b: Self)
        ensures
            b.spec_bounds() is None,
            b.spec_label() is None,
            b.spec_group() == 0,
            !b.spec_selected(),
    {
        RadioButtonBuilder { bounds: None, label: None, group_id: 0, selected: false }
    }

    pub fn bounds(self, bounds: Rect) -> (b: Self)
        ensures
            b.spec_bounds() == Some(bounds),
            b.spec_label() == self.spec_label(),
            b.spec_group() == self.spec_group(),
            b.spec_selected() == self.spec_selected(),
    {
        RadioButtonBuilder { bounds: Some(bounds), ..self }
    }

    pub fn label(self, label: &str) -> (b: Self)
        ensures
            b.spec_bounds() == self.spec_bounds(),
            b.spec_label() == Some(label@),
            b.spec_group() == self.spec_group(),
            b.spec_selected() == self.spec_selected(),
    {
        RadioButtonBuilder { label: Some(label.to_string()), ..self }
    }

    pub fn group_id(self, group_id: u16) -> (b: Self)
        ensures
            b.spec_bounds() == self.spec_bounds(),
            b.spec_label() == self.spec_label(),
            b.spec_group() == group_id,
            b.spec_selected() == self.spec_selected(),
    {
        RadioButtonBuilder { group_id, ..self }
    }

    pub fn selected(self, selected: bool) -> (b: Self)
        ensures
            b.spec_bounds() == self.spec_bounds(),
            b.spec_label() == self.spec_label(),
            b.spec_group() == self.spec_group(),
            b.spec_selected() == selected,
    {
        RadioButtonBuilder { selected, ..self }
    }

    /// The radio button; bounds and label must have been given.
    pub fn build(self) -> (r: RadioButton)
        requires
            self.spec_bounds() is Some,
            self.spec_label() is Some,
        ensures
            r.spec_bounds() == self.spec_bounds()->0,
            r.spec_label() == self.spec_label()->0,
            r.spec_cluster() == (ClusterState { value: if self.spec_selected() { 1u32 } else { 0u32 }, group_id: self.spec_group() }),
            r.spec_state() == 0,
    {
        let bounds = match self.bounds {
            Some(b) => b,
            None => Rect::new(0, 0, 0, 0),
        };
        let mut radio = match &self.label {
            Some(l) => RadioButton::new(bounds, l.as_str(), self.group_id),
            None => RadioButton::new(bounds, "", self.group_id),
        };
        if self.selected {
            radio.set_selected(true);
        }
        radio
    }

    pub fn build_boxed(self) -> (r: Box<RadioButton>)
        requires
            self.spec_bounds() is Some,
            self.spec_label() is Some,
        ensures
            r.spec_bounds() == self.spec_bounds()->0,
            r.spec_label() == self.spec_label()->0,
            r.spec_cluster() == (ClusterState { value: if self.spec_selected() { 1u32 } else { 0u32 }, group_id: self.spec_group() }),
    {
        Box::new(self.build())
    }
}

impl Default for RadioButtonBuilder {
    fn default() -> (b: Self)
        ensures
            b.spec_bounds() is None,
            b.spec_label() is None,
            b.spec_group() == 0,
            !b.spec_selected(),
    {
        RadioButtonBuilder::new()
    }
}

} // verus!
