//! A push button that issues a command when pressed.
use vstd::prelude::*;
use crate::command::{CommandSet, CM_COMMAND_SET_CHANGED};
use crate::draw::{cstr_cells, put_cells, Attr, Cell, DrawBuffer, DrawLine};
use crate::event::{spec_command, Event, EventType, KB_ENTER, KB_SPACE, MB_LEFT_BUTTON};
use crate::geometry::{spec_height, spec_width, Rect};
use crate::state::{has_flag, with_flag, OF_POST_PROCESS, SF_DISABLED, SF_FOCUSED};
use crate::text::str_chars;

verus! {

broadcast use vstd::string::group_string_axioms;

/// Top cell of the shadow on the right edge.
pub const SHADOW_TOP: char = '\u{2584}';
/// The rest of the shadow on the right edge.
pub const SHADOW_SOLID: char = '\u{2588}';
/// The shadow under the button.
pub const SHADOW_BOTTOM: char = '\u{2580}';

/// Colours of a button in its states, of its shadow and of its hotkey letter.
#[derive(Clone, Copy, Debug, PartialEq, Eq, Structural)]
pub struct ButtonColors {
    pub normal: Attr,
    pub default: Attr,
    pub selected: Attr,
    pub disabled: Attr,
    pub shadow: Attr,
    pub shortcut: Attr,
}

/// Number of characters of `s` that are not tildes.
pub open spec fn count_plain(s: Seq<char>) -> nat
    decreases s.len(),
{
    if s.len() == 0 {
        0
    } else {
        (if s[0] != '~' { 1nat } else { 0nat }) + count_plain(s.subrange(1, s.len() as int))
    }
}

/// Number of characters of `text` that are not tildes: its drawn length.
pub fn plain_len(text: &Vec<char>) -> (n: usize)
    ensures
        n == count_plain(text@),
{
    let len = text.len();
    let mut n: usize = 0;
    let mut i: usize = 0;
    assert(text@.subrange(0, len as int) =~= text@);
    while i < len
        invariant
            len == text@.len(),
            i <= len,
            n <= i,
            n + count_plain(text@.subrange(i as int, len as int)) == count_plain(text@),
        decreases len - i,
    {
        let ghost rest = text@.subrange(i as int, len as int);
        assert(rest.subrange(1, rest.len() as int) =~= text@.subrange(i + 1, len as int));
        if text[i] != '~' {
            n = n + 1;
        }
        i = i + 1;
    }
    assert(text@.subrange(len as int, len as int) =~= Seq::<char>::empty());
    n
}

pub struct Button {
    bounds: Rect,
    title: String,
    command: u16,
    is_default: bool,
    state: u16,
    options: u16,
}

impl Button {
    pub closed spec fn spec_bounds(&self) -> Rect {
        self.bounds
    }

    pub closed spec fn spec_title(&self) -> Seq<char> {
        self.title@
    }

    pub closed spec fn spec_command(&self) -> u16 {
        self.command
    }

    pub closed spec fn spec_is_default(&self) -> bool {
        self.is_default
    }

    pub closed spec fn spec_state(&self) -> u16 {
        self.state
    }

    pub closed spec fn spec_options(&self) -> u16 {
        self.options
    }

    pub open spec fn spec_disabled(&self) -> bool {
        has_flag(self.spec_state(), SF_DISABLED)
    }

    /// A button titled `title` (a tilde marks its hotkey letter) that issues
    /// `command`; it starts disabled when `commands` has the command disabled.
    pub fn new(bounds: Rect, title: &str, command: u16, is_default: bool, commands: &CommandSet) -> (b: Self)
        ensures
            b.spec_bounds() == bounds,
            b.spec_title() == title@,
            b.spec_command() == command,
            b.spec_is_default() == is_default,
            b.spec_state() == (if commands.spec_enabled(command) { 0u16 } else { SF_DISABLED }),
            b.spec_options() == OF_POST_PROCESS,
    {
        let mut state: u16 = 0;
        if !commands.command_enabled(command) {
            state = state | SF_DISABLED;
        }
        assert((0u16 | SF_DISABLED) == SF_DISABLED) by (bit_vector);
        Button { bounds, title: title.to_string(), command, is_default, state, options: OF_POST_PROCESS }
    }

    pub fn title(&self) -> (t: &str)
        ensures
            t@ == self.spec_title(),
    {
        self.title.as_str()
    }

    /// Set or clear the disabled flag, leaving the other flags alone.
    pub fn set_disabled(&mut self, disabled: bool)
        ensures
            final(self).spec_state() == with_flag(old(self).spec_state(), SF_DISABLED, disabled),
            final(self).spec_bounds() == old(self).spec_bounds(),
            final(self).spec_title() == old(self).spec_title(),
            final(self).spec_command() == old(self).spec_command(),
            final(self).spec_is_default() == old(self).spec_is_default(),
            final(self).spec_options() == old(self).spec_options(),
    {
        self.state = if disabled { self.state | SF_DISABLED } else { self.state & !SF_DISABLED };
    }

    pub fn is_disabled(&self) -> (b: bool)
        ensures
            b == self.spec_disabled(),
    {
        self.state & SF_DISABLED == SF_DISABLED
    }

    pub fn bounds(&self) -> (r: Rect)
        ensures
            r == self.spec_bounds(),
    {
        self.bounds
    }

    pub fn set_bounds(&mut self, bounds: Rect)
        ensures
            final(self).spec_bounds() == bounds,
            final(self).spec_state() == old(self).spec_state(),
            final(self).spec_title() == old(self).spec_title(),
            final(self).spec_command() == old(self).spec_command(),
            final(self).spec_is_default() == old(self).spec_is_default(),
            final(self).spec_options() == old(self).spec_options(),
    {
        self.bounds = bounds;
    }

    pub fn state(&self) -> (s: u16)
        ensures
            s == self.spec_state(),
    {
        self.state
    }

    pub fn set_state(&mut self, state: u16)
        ensures
            final(self).spec_state() == state,
            final(self).spec_bounds() == old(self).spec_bounds(),
            final(self).spec_title() == old(self).spec_title(),
            final(self).spec_command() == old(self).spec_command(),
            final(self).spec_is_default() == old(self).spec_is_default(),
            final(self).spec_options() == old(self).spec_options(),
    {
        self.state = state;
    }

    /// Set or clear the focused flag.
    pub fn set_focus(&mut self, focused: bool)
        ensures
            final(self).spec_state() == with_flag(old(self).spec_state(), SF_FOCUSED, focused),
            final(self).spec_bounds() == old(self).spec_bounds(),
            final(self).spec_title() == old(self).spec_title(),
            final(self).spec_command() == old(self).spec_command(),
            final(self).spec_is_default() == old(self).spec_is_default(),
            final(self).spec_options() == old(self).spec_options(),
    {
        self.state = if focused { self.state | SF_FOCUSED } else { self.state & !SF_FOCUSED };
    }

    pub fn is_focused(&self) -> (b: bool)
        ensures
            b == has_flag(self.spec_state(), SF_FOCUSED),
    {
        self.state & SF_FOCUSED == SF_FOCUSED
    }

    pub fn options(&self) -> (o: u16)
        ensures
            o == self.spec_options(),
    {
        self.options
    }

    pub fn set_options(&mut self, options: u16)
        ensures
            final(self).spec_options() == options,
            final(self).spec_state() == old(self).spec_state(),
            final(self).spec_bounds() == old(self).spec_bounds(),
            final(self).spec_title() == old(self).spec_title(),
            final(self).spec_command() == old(self).spec_command(),
            final(self).spec_is_default() == old(self).spec_is_default(),
    {
        self.options = options;
    }

    /// A button can take the focus unless it is disabled.
    pub fn can_focus(&self) -> (b: bool)
        ensures
            b == !self.spec_disabled(),
    {
        !self.is_disabled()
    }

    pub fn is_default_button(&self) -> (b: bool)
        ensures
            b == self.spec_is_default(),
    {
        self.is_default
    }

    pub fn button_command(&self) -> (c: Option<u16>)
        ensures
            c == Some(self.spec_command()),
    {
        Some(self.command)
    }

    /// Handle an event. A change of the enabled commands (broadcast) enables or
    /// disables the button to match `commands`, whatever its state, and is left
    /// for the other views. An enabled button turns Enter or Space (when focused)
    /// and a left click above its shadow row into its command.
    pub fn handle_event(&mut self, event: &mut Event, commands: &CommandSet)
        ensures
            final(self).spec_bounds() == old(self).spec_bounds(),
            final(self).spec_title() == old(self).spec_title(),
            final(self).spec_command() == old(self).spec_command(),
            final(self).spec_is_default() == old(self).spec_is_default(),
            final(self).spec_options() == old(self).spec_options(),
            ({
                let e = *old(event);
                let b = old(self).spec_bounds();
                if e.what == EventType::Broadcast {
                    &&& *final(event) == e
                    &&& final(self).spec_state() == (if e.command == CM_COMMAND_SET_CHANGED {
                        with_flag(old(self).spec_state(), SF_DISABLED, !commands.spec_enabled(old(self).spec_command()))
                    } else {
                        old(self).spec_state()
                    })
                } else {
                    &&& final(self).spec_state() == old(self).spec_state()
                    &&& *final(event) == (if !old(self).spec_disabled() && ((e.what == EventType::Keyboard
                        && has_flag(old(self).spec_state(), SF_FOCUSED) && (e.key_code == KB_ENTER
                        || e.key_code == KB_SPACE)) || (e.what == EventType::MouseDown && e.mouse.buttons
                        & MB_LEFT_BUTTON != 0 && b.a.x <= e.mouse.pos.x < b.b.x && b.a.y <= e.mouse.pos.y
                        < b.b.y - 1)) {
                        spec_command(old(self).spec_command())
                    } else {
                        e
                    })
                }
            }),
    {
        if event.what == EventType::Broadcast {
            if event.command == CM_COMMAND_SET_CHANGED {
                let should_be_enabled = commands.command_enabled(self.command);
                let disabled = self.is_disabled();
                if should_be_enabled && disabled {
                    self.set_disabled(false);
                } else if !should_be_enabled && !disabled {
                    self.set_disabled(true);
                }
                proof {
                    let s = old(self).spec_state();
                    assert(has_flag(s, SF_DISABLED) ==> (s | SF_DISABLED) == s) by (bit_vector);
                    assert(!has_flag(s, SF_DISABLED) ==> (s & !SF_DISABLED) == s) by (bit_vector);
                }
            }
            return;
        }
        if self.is_disabled() {
            return;
        }
        if event.what == EventType::Keyboard {
            if !self.is_focused() {
                return;
            }
            if event.key_code == KB_ENTER || event.key_code == KB_SPACE {
                *event = Event::command(self.command);
            }
        } else if event.what == EventType::MouseDown {
            let p = event.mouse.pos;
            if event.mouse.buttons & MB_LEFT_BUTTON != 0 && p.x >= self.bounds.a.x && p.x < self.bounds.b.x
                && p.y >= self.bounds.a.y && (p.y as i32) < self.bounds.b.y as i32 - 1 {
                *event = Event::command(self.command);
            }
        }
    }

    /// The attribute of the face of the button.
    pub open spec fn spec_face_attr(&self, c: ButtonColors) -> Attr {
        if self.spec_disabled() {
            c.disabled
        } else if has_flag(self.spec_state(), SF_FOCUSED) {
            c.selected
        } else if self.spec_is_default() {
            c.default
        } else {
            c.normal
        }
    }

    /// The attribute of the hotkey letter.
    pub open spec fn spec_shortcut_attr(&self, c: ButtonColors) -> Attr {
        if self.spec_disabled() {
            c.disabled
        } else if has_flag(self.spec_state(), SF_FOCUSED) {
            c.selected
        } else {
            c.shortcut
        }
    }

    /// The cells of face row `y` of a button `w` cells wide and `h` high: the face
    /// colour, the shadow in the last column, and on the middle row the title
    /// centred in the columns before the shadow.
    pub open spec fn spec_face_row(&self, c: ButtonColors, w: int, h: int, y: int) -> Seq<Cell> {
        let face = self.spec_face_attr(c);
        let shadow = if y == 0 { SHADOW_TOP } else { SHADOW_SOLID };
        let base = Seq::new(w as nat, |j: int| if j == w - 1 { Cell { ch: shadow, attr: c.shadow } } else { Cell { ch: ' ', attr: face } });
        if y == (h - 1) / 2 {
            let len = count_plain(self.spec_title()) as int;
            let start = (if w - 1 > len { w - 1 - len } else { 0 }) / 2;
            put_cells(base, start, cstr_cells(self.spec_title(), face, self.spec_shortcut_attr(c), false))
        } else {
            base
        }
    }

    /// Draw the button: its face rows, each with the shadow in its last column,
    /// then the shadow row under it, one column to the right and one shorter.
    pub fn draw(&self, colors: ButtonColors) -> (lines: Vec<DrawLine>)
        requires
            1 <= spec_width(self.spec_bounds()) <= i16::MAX,
            1 <= spec_height(self.spec_bounds()) <= i16::MAX,
        ensures
            ({
                let w = spec_width(self.spec_bounds());
                let h = spec_height(self.spec_bounds());
                &&& lines@.len() == h
                &&& forall|y: int| 0 <= y < h - 1 ==> {
                    &&& #[trigger] lines@[y].x == self.spec_bounds().a.x
                    &&& lines@[y].y == self.spec_bounds().a.y + y
                    &&& lines@[y].buf.data@ == self.spec_face_row(colors, w, h, y)
                }
                &&& lines@[h - 1].x == self.spec_bounds().a.x + 1
                &&& lines@[h - 1].y == self.spec_bounds().a.y + h - 1
                &&& lines@[h - 1].buf.data@ == Seq::new((w - 1) as nat, |j: int| Cell { ch: SHADOW_BOTTOM, attr: colors.shadow })
            }),
    {
        let width = self.bounds.width() as usize;
        let height = self.bounds.height() as usize;
        let disabled = self.is_disabled();
        let focused = self.is_focused();
        let face = if disabled {
            colors.disabled
        } else if focused {
            colors.selected
        } else if self.is_default {
            colors.default
        } else {
            colors.normal
        };
        let shortcut = if disabled { colors.disabled } else if focused { colors.selected } else { colors.shortcut };
        let title = str_chars(self.title.as_str());
        let mut lines: Vec<DrawLine> = Vec::new();
        let mut y: usize = 0;
        while y < height - 1
            invariant
                width == spec_width(self.spec_bounds()),
                height == spec_height(self.spec_bounds()),
                1 <= width <= i16::MAX,
                1 <= height <= i16::MAX,
                face == self.spec_face_attr(colors),
                shortcut == self.spec_shortcut_attr(colors),
                title@ == self.spec_title(),
                y <= height - 1,
                lines@.len() == y,
                forall|k: int| 0 <= k < y ==> {
                    &&& #[trigger] lines@[k].x == self.spec_bounds().a.x
                    &&& lines@[k].y == self.spec_bounds().a.y + k
                    &&& lines@[k].buf.data@ == self.spec_face_row(colors, width as int, height as int, k)
                },
            decreases height - 1 - y,
        {
            let mut buf = DrawBuffer::new(width);
            buf.move_char(0, ' ', face, width);
            let shadow_char = if y == 0 { SHADOW_TOP } else { SHADOW_SOLID };
            buf.put_char(width - 1, shadow_char, colors.shadow);
            let ghost base = buf.data@;
            assert(base =~= Seq::new(width as nat, |j: int| if j == width - 1 {
                Cell { ch: shadow_char, attr: colors.shadow }
            } else {
                Cell { ch: ' ', attr: face }
            }));
            if y == (height - 1) / 2 {
                let display_len = plain_len(&title);
                let content_width = width - 1;
                let start = (if content_width > display_len { content_width - display_len } else { 0 }) / 2;
                buf.move_cstr(start, &title, face, shortcut);
            }
            assert(buf.data@ == self.spec_face_row(colors, width as int, height as int, y as int));
            let row_y: i16 = (self.bounds.a.y as i32 + y as i32) as i16;
            let ghost cells = buf.data@;
            lines.push(DrawLine::new(self.bounds.a.x, row_y, buf));
            assert(lines@[y as int].buf.data@ == cells);
            y = y + 1;
        }
        let mut bottom = DrawBuffer::new(width - 1);
        bottom.move_char(0, SHADOW_BOTTOM, colors.shadow, width - 1);
        assert(bottom.data@ =~= Seq::new((width - 1) as nat, |j: int| Cell { ch: SHADOW_BOTTOM, attr: colors.shadow }));
        let bx: i16 = (self.bounds.a.x as i32 + 1) as i16;
        let by: i16 = (self.bounds.a.y as i32 + height as i32 - 1) as i16;
        lines.push(DrawLine::new(bx, by, bottom));
        lines
    }
}

} // verus!
