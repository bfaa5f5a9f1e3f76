//! A static text that names a control and focuses it on its Alt+letter key.
use vstd::prelude::*;
use crate::draw::{cstr_cells, put_cells, Attr, Cell, DrawBuffer, DrawLine};
use crate::event::{alt_code, spec_alt_code, Event, EventType};
use crate::geometry::{clamp_extent, spec_width, Rect};
use crate::state::OF_POST_PROCESS;
use crate::text::{first_upper, str_chars, upper_first};
use crate::views::handle::ViewId;

verus! {

broadcast use vstd::string::group_string_axioms;

/// Colours of a label: its text and its hotkey letter.
#[derive(Clone, Copy, Debug, PartialEq, Eq, Structural)]
pub struct LabelColors {
    pub normal: Attr,
    pub shortcut: Attr,
}

pub struct Label {
    bounds: Rect,
    text: String,
    link: Option<ViewId>,
    state: u16,
    options: u16,
}

/// The character after the first tilde of `s` that has one after it.
pub open spec fn char_after_tilde(s: Seq<char>) -> Option<char>
    decreases s.len(),
{
    if s.len() < 2 {
        None
    } else if s[0] == '~' {
        Some(s[1])
    } else {
        char_after_tilde(s.subrange(1, s.len() as int))
    }
}

impl Label {
    pub closed spec fn spec_bounds(&self) -> Rect {
        self.bounds
    }

    pub closed spec fn spec_text(&self) -> Seq<char> {
        self.text@
    }

    pub closed spec fn spec_link(&self) -> Option<ViewId> {
        self.link
    }

    pub closed spec fn spec_state(&self) -> u16 {
        self.state
    }

    pub closed spec fn spec_options(&self) -> u16 {
        self.options
    }

    /// The hotkey: the letter after the first tilde, upper-cased.
    pub open spec fn spec_hotkey(&self) -> Option<char> {
        match char_after_tilde(self.spec_text()) {
            Some(c) => Some(upper_first(c)),
            None => None,
        }
    }

    /// A label showing `text` (a tilde marks its hotkey letter), linked to nothing.
    pub fn new(bounds: Rect, text: &str) -> (l: Self)
        ensures
            l.spec_bounds() == bounds,
            l.spec_text() == text@,
            l.spec_link() is None,
            l.spec_state() == 0,
            l.spec_options() == OF_POST_PROCESS,
    {
        Label { bounds, text: text.to_string(), link: None, state: 0, options: OF_POST_PROCESS }
    }

    /// Link the label to the control with id `view_id`.
    pub fn set_link(&mut self, view_id: ViewId)
        ensures
            final(self).spec_link() == Some(view_id),
            final(self).spec_bounds() == old(self).spec_bounds(),
            final(self).spec_text() == old(self).spec_text(),
            final(self).spec_state() == old(self).spec_state(),
            final(self).spec_options() == old(self).spec_options(),
    {
        self.link = Some(view_id);
    }

    /// The linked control, if any.
    pub fn label_link(&self) -> (l: Option<ViewId>)
        ensures
            l == self.spec_link(),
    {
        self.link
    }

    /// The hotkey letter, upper-cased.
    pub fn get_hotkey(&self) -> (h: Option<char>)
        ensures
            h == self.spec_hotkey(),
    {
        let s = str_chars(self.text.as_str());
        let n = s.len();
        let mut i: usize = 0;
        assert(s@.subrange(0, n as int) =~= s@);
        while n >= 2 && i < n - 1
            invariant
                n == s@.len(),
                i <= n,
                s@ == self.spec_text(),
                char_after_tilde(s@.subrange(i as int, n as int)) == char_after_tilde(s@),
            decreases n - i,
        {
            let ghost rest = s@.subrange(i as int, n as int);
            assert(rest[0] == s@[i as int]);
            assert(rest[1] == s@[i + 1]);
            if s[i] == '~' {
                return Some(first_upper(s[i + 1]));
            }
            assert(rest.subrange(1, rest.len() as int) =~= s@.subrange(i + 1, n as int));
            i = i + 1;
        }
        None
    }

    pub fn bounds(&self) -> (r: Rect)
        ensures
            r == self.spec_bounds(),
    {
        self.bounds
    }

    pub fn set_bounds(&mut self, bounds: Rect)
        ensures
            final(self).spec_bounds() == bounds,
            final(self).spec_link() == old(self).spec_link(),
            final(self).spec_text() == old(self).spec_text(),
            final(self).spec_state() == old(self).spec_state(),
            final(self).spec_options() == old(self).spec_options(),
    {
        self.bounds = bounds;
    }

    pub fn state(&self) -> (s: u16)
        ensures
            s == self.spec_state(),
    {
        self.state
    }

    pub fn set_state(&mut self, state: u16)
        ensures
            final(self).spec_state() == state,
            final(self).spec_bounds() == old(self).spec_bounds(),
            final(self).spec_link() == old(self).spec_link(),
            final(self).spec_text() == old(self).spec_text(),
            final(self).spec_options() == old(self).spec_options(),
    {
        self.state = state;
    }

    pub fn options(&self) -> (o: u16)
        ensures
            o == self.spec_options(),
    {
        self.options
    }

    /// The control to focus for `event`: the linked one, when the event is the
    /// Alt key of the label's hotkey letter. The owner focuses it and, when that
    /// succeeds, clears the event.
    pub fn handle_event(&self, event: &Event) -> (target: Option<ViewId>)
        ensures
            target == (if event.what == EventType::Keyboard && self.spec_link() is Some && self.spec_hotkey() is Some
                && spec_alt_code(self.spec_hotkey()->0) == Some(event.key_code) {
                self.spec_link()
            } else {
                None
            }),
    {
        if event.what != EventType::Keyboard {
            return None;
        }
        match (self.link, self.get_hotkey()) {
            (Some(link_id), Some(hotkey)) => {
                match alt_code(hotkey) {
                    Some(code) => {
                        if event.key_code == code {
                            Some(link_id)
                        } else {
                            None
                        }
                    },
                    None => None,
                }
            },
            _ => None,
        }
    }

    /// Draw the text on the first row, the hotkey letter in the shortcut colour.
    pub fn draw(&self, colors: LabelColors) -> (line: DrawLine)
        ensures
            line.x == self.spec_bounds().a.x,
            line.y == self.spec_bounds().a.y,
            line.buf.data@ == put_cells(
                Seq::new(clamp_extent(spec_width(self.spec_bounds())) as nat, |j: int| Cell { ch: ' ', attr: colors.normal }),
                0,
                cstr_cells(self.spec_text(), colors.normal, colors.shortcut, false),
            ),
    {
        let width = self.bounds.width_clamped() as usize;
        let mut buf = DrawBuffer::new(width);
        buf.move_char(0, ' ', colors.normal, width);
        assert(buf.data@ =~= Seq::new(width as nat, |j: int| Cell { ch: ' ', attr: colors.normal }));
        let text = str_chars(self.text.as_str());
        buf.move_cstr(0, &text, colors.normal, colors.shortcut);
        DrawLine::new(self.bounds.a.x, self.bounds.a.y, buf)
    }
}

/// Builds a label from its bounds, text and link.
pub struct LabelBuilder {
    bounds: Option<Rect>,
    text: Option<String>,
    link: Option<ViewId>,
}

impl LabelBuilder {
    pub closed spec fn spec_bounds(&self) -> Option<Rect> {
        self.bounds
    }

    pub closed spec fn spec_text(&self) -> Option<Seq<char>> {
        match self.text {
            Some(t) => Some(t@),
            None => None,
        }
    }

    pub closed spec fn spec_link(&self) -> Option<ViewId> {
        self.link
    }

    pub fn new() -> (b: Self)
        ensures
            b.spec_bounds() is None,
            b.spec_text() is None,
            b.spec_link() is None,
    {
        LabelBuilder { bounds: None, text: None, link: None }
    }

    pub fn bounds(self, bounds: Rect) -> (b: Self)
        ensures
            b.spec_bounds() == Some(bounds),
            b.spec_text() == self.spec_text(),
            b.spec_link() == self.spec_link(),
    {
        LabelBuilder { bounds: Some(bounds), ..self }
    }

    pub fn text(self, text: &str) -> (b: Self)
        ensures
            b.spec_bounds() == self.spec_bounds(),
            b.spec_text() == Some(text@),
            b.spec_link() == self.spec_link(),
    {
        LabelBuilder { text: Some(text.to_string()), ..self }
    }

    pub fn link(self, view_id: ViewId) -> (b: Self)
        ensures
            b.spec_bounds() == self.spec_bounds(),
            b.spec_text() == self.spec_text(),
            b.spec_link() == Some(view_id),
    {
        LabelBuilder { link: Some(view_id), ..self }
    }

    /// The label; bounds and text must have been given.
    pub fn build(self) -> (l: Label)
        requires
            self.spec_bounds() is Some,
            self.spec_text() is Some,
        ensures
            l.spec_bounds() == self.spec_bounds()->0,
            l.spec_text() == self.spec_text()->0,
            l.spec_link() == self.spec_link(),
            l.spec_state() == 0,
            l.spec_options() == OF_POST_PROCESS,
    {
        let bounds = match self.bounds {
            Some(b) => b,
            None => Rect::new(0, 0, 0, 0),
        };
        let mut label = match &self.text {
            Some(t) => Label::new(bounds, t.as_str()),
            None => Label::new(bounds, ""),
        };
        match self.link {
            Some(l) => label.set_link(l),
            None => {},
        }
        label
    }

    pub fn build_boxed(self) -> (l: Box<Label>)
        requires
            self.spec_bounds() is Some,
            self.spec_text() is Some,
        ensures
            l.spec_bounds() == self.spec_bounds()->0,
            l.spec_text() == self.spec_text()->0,
            l.spec_link() == self.spec_link(),
    {
        Box::new(self.build())
    }
}

impl Default for LabelBuilder {
    fn default() -> (b: Self)
        ensures
            b.spec_bounds() is None,
            b.spec_text() is None,
            b.spec_link() is None,
    {
        LabelBuilder::new()
    }
}

} // verus!
