//! A single-line text field: cursor movement, a whole-text selection,
//! clipboard cut/copy/paste, horizontal scrolling and an optional validator
//! that can refuse typed characters.
//!
//! Positions count characters. The selection, when there is one, always
//! starts at the beginning of the text and ends at `sel_end`.
use vstd::prelude::*;
use crate::command::CM_FILE_FOCUSED;
use crate::draw::{fill_cells, Attr, Cell, DrawBuffer, DrawLine};
use crate::event::{
    Event, EventType, KB_BACKSPACE, KB_DEL, KB_END, KB_ENTER, KB_HOME, KB_LEFT, KB_RIGHT,
};
use crate::geometry::{clamp_extent, spec_width, Rect};
use crate::state::{with_flag, SF_FOCUSED};
use crate::text::{extend_chars, str_chars, string_from_chars, sub_chars};
use crate::views::lookup_validator::LookupValidator;
use crate::views::picture_validator::PictureValidator;
use crate::views::validator::Validator;

verus! {

/// Ctrl+A: select the whole text.
pub const KB_CTRL_A: u16 = 0x0001;
/// Ctrl+C: copy the selection.
pub const KB_CTRL_C: u16 = 0x0003;
/// Ctrl+V: paste.
pub const KB_CTRL_V: u16 = 0x0016;
/// Ctrl+X: cut the selection.
pub const KB_CTRL_X: u16 = 0x0018;

/// The text that cut and copy leave for paste.
pub struct Clipboard {
    text: Vec<char>,
}

impl Clipboard {
    pub closed spec fn spec_text(&self) -> Seq<char> {
        self.text@
    }

    /// An empty clipboard.
    pub fn new() -> (c: Clipboard)
        ensures
            c.spec_text() == Seq::<char>::empty(),
    {
        Clipboard { text: Vec::new() }
    }

    /// Replace the clipboard's text.
    pub fn set(&mut self, text: &str)
        ensures
            final(self).spec_text() == text@,
    {
        self.text = str_chars(text);
    }

    /// The clipboard's text.
    pub fn get(&self) -> (s: String)
        ensures
            s@ == self.spec_text(),
    {
        string_from_chars(&self.text)
    }
}

/// The validators an input line can carry.
pub enum InputValidator {
    Picture(PictureValidator),
    Lookup(LookupValidator),
}

impl InputValidator {
    /// Whether the complete text `s` is acceptable.
    pub open spec fn accepts(&self, s: Seq<char>) -> bool {
        match self {
            InputValidator::Picture(v) => v.spec_is_valid(s),
            InputValidator::Lookup(v) => v.spec_is_valid(s),
        }
    }

    /// Whether the text `s` may stand while it is being typed.
    pub open spec fn accepts_typing(&self, s: Seq<char>) -> bool {
        match self {
            InputValidator::Picture(v) => v.spec_is_valid_input(s, true),
            InputValidator::Lookup(v) => v.spec_is_valid_input(s, true),
        }
    }

    pub fn is_valid(&self, s: &str) -> (b: bool)
        ensures
            b == self.accepts(s@),
    {
        match self {
            InputValidator::Picture(v) => v.valid(s),
            InputValidator::Lookup(v) => v.valid(s),
        }
    }

    pub fn is_valid_typing(&self, s: &str) -> (b: bool)
        ensures
            b == self.accepts_typing(s@),
    {
        match self {
            InputValidator::Picture(v) => v.is_valid_input(s, true),
            InputValidator::Lookup(v) => v.is_valid_input(s, true),
        }
    }
}

/// Colours of an input line: its text unfocused and focused, the selected
/// text, and the scroll arrows.
#[derive(Clone, Copy, Debug, PartialEq, Eq, Structural)]
pub struct InputLineColors {
    pub normal: Attr,
    pub focused: Attr,
    pub selected: Attr,
    pub arrows: Attr,
}

/// `n`, or `usize::MAX` where it does not fit.
pub open spec fn fit_usize(n: int) -> int {
    if n > usize::MAX {
        usize::MAX as int
    } else {
        n
    }
}

/// The first visible column after scrolling so that `cursor` shows in a
/// field `width` columns wide that showed from `first`.
pub open spec fn scrolled_first(first: int, cursor: int, width: int) -> int {
    if cursor < first {
        cursor
    } else if cursor >= first + width {
        fit_usize(cursor - width + 1)
    } else {
        first
    }
}

/// `text` with the characters before `n` removed; what deleting a selection
/// that ends at `n` leaves.
pub open spec fn drop_front(text: Seq<char>, n: int) -> Seq<char> {
    text.subrange(n, text.len() as int)
}

/// `text` with `s` put in at `pos`.
pub open spec fn insert_at(text: Seq<char>, pos: int, s: Seq<char>) -> Seq<char> {
    text.subrange(0, pos) + s + text.subrange(pos, text.len() as int)
}

/// `text` without its character at `pos`.
pub open spec fn remove_at(text: Seq<char>, pos: int) -> Seq<char> {
    text.subrange(0, pos) + text.subrange(pos + 1, text.len() as int)
}


/// The editable part of a field: its text, the cursor, the end of the
/// selection (0 for none) and the first visible character.
pub struct LineEdit {
    pub text: Seq<char>,
    pub cursor: int,
    pub sel_end: int,
    pub first: int,
}

/// What a key does to a field: the new editable part, the clipboard's text
/// afterwards, and whether the key was used.
pub struct KeyOutcome {
    pub edit: LineEdit,
    pub clip: Seq<char>,
    pub handled: bool,
}

/// `s` with its selection deleted, if it has one.
pub open spec fn without_selection(s: LineEdit) -> LineEdit {
    if s.sel_end == 0 {
        s
    } else {
        LineEdit { text: drop_front(s.text, s.sel_end), cursor: 0, sel_end: 0, first: s.first }
    }
}

/// `s` scrolled so that its cursor shows in `width` columns.
pub open spec fn shown(s: LineEdit, width: int) -> LineEdit {
    LineEdit { first: scrolled_first(s.first, s.cursor, width), ..s }
}

/// `s` with the cursor moved to `c`, the selection dropped, then scrolled.
pub open spec fn moved_to(s: LineEdit, c: int, width: int) -> LineEdit {
    shown(LineEdit { cursor: c, sel_end: 0, ..s }, width)
}

/// The part of `clip` that fits in a field of at most `max_len` characters
/// that holds `len`.
pub open spec fn paste_part(clip: Seq<char>, len: int, max_len: int) -> Seq<char> {
    let room = if max_len > len { max_len - len } else { 0 };
    if clip.len() <= room {
        clip
    } else {
        clip.take(room)
    }
}

/// The character a printable key code types.
pub open spec fn typed_char(key: u16) -> char {
    (key as u8) as char
}

/// Whether `key` types a printable character.
pub open spec fn is_printable_key(key: u16) -> bool {
    32 <= key < 127
}

pub open spec fn used(edit: LineEdit, clip: Seq<char>) -> KeyOutcome {
    KeyOutcome { edit, clip, handled: true }
}

pub open spec fn unused(edit: LineEdit, clip: Seq<char>) -> KeyOutcome {
    KeyOutcome { edit, clip, handled: false }
}

/// Typing `key` into `s`: any selection is deleted first; the character goes
/// in at the cursor if the text is shorter than `max_len` and the validator,
/// if any, lets the new text stand while typing.
pub open spec fn typing_outcome(s: LineEdit, key: u16, width: int, max_len: int, clip: Seq<char>, v: Option<InputValidator>) -> KeyOutcome {
    let d = without_selection(s);
    let t = d.text.insert(d.cursor, typed_char(key));
    if d.text.len() < max_len {
        if v matches Some(val) && !val.accepts_typing(t) {
            used(d, clip)
        } else {
            used(shown(LineEdit { text: t, cursor: d.cursor + 1, ..d }, width), clip)
        }
    } else {
        unused(d, clip)
    }
}

/// Pasting `clip` into `s`: nothing with an empty clipboard; otherwise any
/// selection is deleted and as much of the clipboard as fits goes in at the cursor.
pub open spec fn paste_outcome(s: LineEdit, width: int, max_len: int, clip: Seq<char>) -> KeyOutcome {
    if clip.len() == 0 {
        used(s, clip)
    } else {
        let d = without_selection(s);
        let part = paste_part(clip, d.text.len() as int, max_len);
        used(
            shown(LineEdit { text: insert_at(d.text, d.cursor, part), cursor: d.cursor + part.len(), ..d }, width),
            clip,
        )
    }
}

/// What a key press does to a focused field `s` that shows `width` columns,
/// holds at most `max_len` characters (when typed or pasted) and is checked by `v`.
pub open spec fn key_outcome(s: LineEdit, key: u16, width: int, max_len: int, clip: Seq<char>, v: Option<InputValidator>) -> KeyOutcome {
    let len = s.text.len() as int;
    if key == KB_BACKSPACE {
        if s.sel_end != 0 {
            used(shown(without_selection(s), width), clip)
        } else if s.cursor > 0 {
            used(shown(LineEdit { text: s.text.remove(s.cursor - 1), cursor: s.cursor - 1, ..s }, width), clip)
        } else {
            unused(s, clip)
        }
    } else if key == KB_DEL {
        if s.sel_end != 0 {
            used(shown(without_selection(s), width), clip)
        } else if s.cursor < len {
            used(LineEdit { text: s.text.remove(s.cursor), ..s }, clip)
        } else {
            unused(s, clip)
        }
    } else if key == KB_LEFT {
        if s.cursor > 0 { used(moved_to(s, s.cursor - 1, width), clip) } else { unused(s, clip) }
    } else if key == KB_RIGHT {
        if s.cursor < len { used(moved_to(s, s.cursor + 1, width), clip) } else { unused(s, clip) }
    } else if key == KB_HOME {
        used(moved_to(s, 0, width), clip)
    } else if key == KB_END {
        used(moved_to(s, len, width), clip)
    } else if key == KB_ENTER {
        unused(s, clip)
    } else if key == KB_CTRL_A {
        used(LineEdit { cursor: len, sel_end: len, ..s }, clip)
    } else if key == KB_CTRL_C {
        used(s, if s.sel_end != 0 { s.text.take(s.sel_end) } else { clip })
    } else if key == KB_CTRL_X {
        if s.sel_end != 0 {
            used(shown(without_selection(s), width), s.text.take(s.sel_end))
        } else {
            used(s, clip)
        }
    } else if key == KB_CTRL_V {
        paste_outcome(s, width, max_len, clip)
    } else if is_printable_key(key) {
        typing_outcome(s, key, width, max_len, clip, v)
    } else {
        unused(s, clip)
    }
}

/// Writing one cell keeps the row's length and changes only that cell.
proof fn lemma_put_one(row: Seq<Cell>, i: int, c: Cell)
    ensures
        fill_cells(row, i, c, 1).len() == row.len(),
        forall|j: int| 0 <= j < row.len() ==> #[trigger] fill_cells(row, i, c, 1)[j] == (if j == i { c } else { row[j] }),
{
}


/// Typing a printable character into a field without a selection, with room
/// left and no validator, then pressing Backspace gives back the text and
/// the cursor position the field had, and leaves the clipboard alone.
pub proof fn law_backspace_undoes_typing(s: LineEdit, key: u16, width: int, max_len: int, clip: Seq<char>)
    requires
        s.sel_end == 0,
        0 <= s.cursor <= s.text.len(),
        s.text.len() < max_len,
        is_printable_key(key),
    ensures
        ({
            let t = key_outcome(s, key, width, max_len, clip, None);
            let u = key_outcome(t.edit, KB_BACKSPACE, width, max_len, t.clip, None);
            &&& t.handled && u.handled
            &&& u.edit.text == s.text
            &&& u.edit.cursor == s.cursor
            &&& u.clip == clip
        }),
{
    let t = key_outcome(s, key, width, max_len, clip, None);
    assert(t.edit.text == s.text.insert(s.cursor, typed_char(key)));
    assert(t.edit.text.remove(s.cursor) =~= s.text);
}

/// Selecting everything and cutting empties the field and puts the whole
/// text on the clipboard.
pub proof fn law_select_all_then_cut_moves_the_text(s: LineEdit, width: int, max_len: int, clip: Seq<char>)
    requires
        s.text.len() > 0,
    ensures
        ({
            let a = key_outcome(s, KB_CTRL_A, width, max_len, clip, None);
            let x = key_outcome(a.edit, KB_CTRL_X, width, max_len, a.clip, None);
            &&& x.edit.text.len() == 0
            &&& x.edit.cursor == 0
            &&& x.clip == s.text
        }),
{
    let a = key_outcome(s, KB_CTRL_A, width, max_len, clip, None);
    assert(a.edit.text.take(a.edit.sel_end) =~= s.text);
    assert(drop_front(a.edit.text, a.edit.sel_end).len() == 0);
}

pub struct InputLine {
    bounds: Rect,
    data: Vec<char>,
    cursor_pos: usize,
    max_length: usize,
    sel_end: usize,
    first_pos: usize,
    validator: Option<InputValidator>,
    state: u16,
}

impl InputLine {
    pub closed spec fn spec_bounds(&self) -> Rect {
        self.bounds
    }

    pub closed spec fn spec_text(&self) -> Seq<char> {
        self.data@
    }

    pub closed spec fn spec_cursor(&self) -> int {
        self.cursor_pos as int
    }

    /// The end of the selection; the selection is empty where this is 0.
    pub closed spec fn spec_sel_end(&self) -> int {
        self.sel_end as int
    }

    /// The first visible character.
    pub closed spec fn spec_first(&self) -> int {
        self.first_pos as int
    }

    pub closed spec fn spec_max_length(&self) -> int {
        self.max_length as int
    }

    pub closed spec fn spec_validator(&self) -> Option<InputValidator> {
        self.validator
    }

    pub closed spec fn spec_state(&self) -> u16 {
        self.state
    }

    /// The editable part of the field.
    pub closed spec fn spec_edit(&self) -> LineEdit {
        LineEdit {
            text: self.data@,
            cursor: self.cursor_pos as int,
            sel_end: self.sel_end as int,
            first: self.first_pos as int,
        }
    }

    /// Cursor and selection lie within the text.
    pub closed spec fn wf(&self) -> bool {
        &&& self.cursor_pos <= self.data@.len()
        &&& self.sel_end <= self.data@.len()
    }

    pub open spec fn spec_width(&self) -> int {
        clamp_extent(spec_width(self.spec_bounds()))
    }

    pub open spec fn spec_focused(&self) -> bool {
        self.spec_state() & SF_FOCUSED != 0
    }

    /// A field in `bounds` holding `data`, at most `max_length` characters
    /// long once edited, with the cursor after the text.
    pub fn new(bounds: Rect, max_length: usize, data: &str) -> (il: InputLine)
        ensures
            il.wf(),
            il.spec_bounds() == bounds,
            il.spec_text() == data@,
            il.spec_cursor() == data@.len(),
            il.spec_sel_end() == 0,
            il.spec_first() == 0,
            il.spec_max_length() == max_length,
            il.spec_validator() is None,
            il.spec_state() == 0,
    {
        let chars = str_chars(data);
        let n = chars.len();
        InputLine {
            bounds,
            data: chars,
            cursor_pos: n,
            max_length,
            sel_end: 0,
            first_pos: 0,
            validator: None,
            state: 0,
        }
    }

    /// As `new`, checked by `validator`.
    pub fn with_validator(bounds: Rect, max_length: usize, data: &str, validator: InputValidator) -> (il: InputLine)
        ensures
            il.wf(),
            il.spec_bounds() == bounds,
            il.spec_text() == data@,
            il.spec_cursor() == data@.len(),
            il.spec_sel_end() == 0,
            il.spec_first() == 0,
            il.spec_max_length() == max_length,
            il.spec_validator() == Some(validator),
            il.spec_state() == 0,
    {
        let mut il = InputLine::new(bounds, max_length, data);
        il.validator = Some(validator);
        il
    }

    /// Check the text with `validator` from now on.
    pub fn set_validator(&mut self, validator: InputValidator)
        ensures
            final(self).spec_validator() == Some(validator),
            final(self).spec_bounds() == old(self).spec_bounds(),
            final(self).spec_text() == old(self).spec_text(),
            final(self).spec_cursor() == old(self).spec_cursor(),
            final(self).spec_sel_end() == old(self).spec_sel_end(),
            final(self).spec_first() == old(self).spec_first(),
            final(self).spec_max_length() == old(self).spec_max_length(),
            final(self).spec_state() == old(self).spec_state(),
            final(self).wf() == old(self).wf(),
    {
        self.validator = Some(validator);
    }

    /// Whether the text passes the validator; true without one.
    pub fn validate(&self) -> (b: bool)
        ensures
            b == match self.spec_validator() {
                Some(v) => v.accepts(self.spec_text()),
                None => true,
            },
    {
        match &self.validator {
            Some(v) => {
                let s = string_from_chars(&self.data);
                v.is_valid(s.as_str())
            },
            None => true,
        }
    }

    /// Replace the text; the cursor goes after it, selection and scrolling reset.
    pub fn set_text(&mut self, text: &str)
        ensures
            final(self).wf(),
            final(self).spec_text() == text@,
            final(self).spec_cursor() == text@.len(),
            final(self).spec_sel_end() == 0,
            final(self).spec_first() == 0,
            final(self).spec_bounds() == old(self).spec_bounds(),
            final(self).spec_max_length() == old(self).spec_max_length(),
            final(self).spec_validator() == old(self).spec_validator(),
            final(self).spec_state() == old(self).spec_state(),
    {
        self.data = str_chars(text);
        self.cursor_pos = self.data.len();
        self.sel_end = 0;
        self.first_pos = 0;
    }

    pub fn get_text(&self) -> (s: String)
        ensures
            s@ == self.spec_text(),
    {
        string_from_chars(&self.data)
    }

    /// Select the whole text and put the cursor after it.
    pub fn select_all(&mut self)
        requires
            old(self).wf(),
        ensures
            final(self).wf(),
            final(self).spec_sel_end() == old(self).spec_text().len(),
            final(self).spec_cursor() == old(self).spec_text().len(),
            final(self).spec_text() == old(self).spec_text(),
            final(self).spec_first() == old(self).spec_first(),
            final(self).spec_bounds() == old(self).spec_bounds(),
            final(self).spec_max_length() == old(self).spec_max_length(),
            final(self).spec_validator() == old(self).spec_validator(),
            final(self).spec_state() == old(self).spec_state(),
    {
        let n = self.data.len();
        self.sel_end = n;
        self.cursor_pos = n;
    }

    pub fn has_selection(&self) -> (b: bool)
        ensures
            b == (self.spec_sel_end() != 0),
    {
        self.sel_end != 0
    }

    /// The selected text, if any is selected.
    pub fn get_selection(&self) -> (r: Option<String>)
        requires
            self.wf(),
        ensures
            self.spec_sel_end() == 0 ==> r is None,
            self.spec_sel_end() != 0 ==> (r matches Some(s) && s@ == self.spec_text().subrange(0, self.spec_sel_end())),
    {
        if self.sel_end == 0 {
            return None;
        }
        let sel = sub_chars(&self.data, 0, self.sel_end);
        Some(string_from_chars(&sel))
    }

    /// Remove the selected text; the cursor goes to the start.
    fn delete_selection(&mut self)
        requires
            old(self).wf(),
        ensures
            final(self).wf(),
            old(self).spec_sel_end() == 0 ==> *final(self) == *old(self),
            old(self).spec_sel_end() != 0 ==> {
                &&& final(self).spec_text() == drop_front(old(self).spec_text(), old(self).spec_sel_end())
                &&& final(self).spec_cursor() == 0
                &&& final(self).spec_sel_end() == 0
                &&& final(self).spec_first() == old(self).spec_first()
            },
            final(self).spec_bounds() == old(self).spec_bounds(),
            final(self).spec_max_length() == old(self).spec_max_length(),
            final(self).spec_validator() == old(self).spec_validator(),
            final(self).spec_state() == old(self).spec_state(),
    {
        if self.sel_end == 0 {
            return;
        }
        let n = self.data.len();
        self.data = sub_chars(&self.data, self.sel_end, n);
        self.cursor_pos = 0;
        self.sel_end = 0;
    }


    /// Everything but the editable part and the validator's verdicts stays.
    pub open spec fn same_frame(&self, other: &InputLine) -> bool {
        &&& self.spec_bounds() == other.spec_bounds()
        &&& self.spec_max_length() == other.spec_max_length()
        &&& self.spec_validator() == other.spec_validator()
        &&& self.spec_state() == other.spec_state()
    }

    /// `text` with `part` put in at the cursor, which moves after it.
    fn insert_chars(&mut self, part: &Vec<char>)
        requires
            old(self).wf(),
            old(self).spec_text().len() + part@.len() <= usize::MAX,
        ensures
            final(self).wf(),
            final(self).spec_edit() == (LineEdit {
                text: insert_at(old(self).spec_text(), old(self).spec_cursor(), part@),
                cursor: old(self).spec_cursor() + part@.len(),
                ..old(self).spec_edit()
            }),
            final(self).same_frame(old(self)),
    {
        let n = self.data.len();
        let c = self.cursor_pos;
        let mut t = sub_chars(&self.data, 0, c);
        extend_chars(&mut t, part);
        let rest = sub_chars(&self.data, c, n);
        extend_chars(&mut t, &rest);
        self.data = t;
        self.cursor_pos = c + part.len();
    }

    /// Apply a key press to a focused field.
    fn apply_key(&mut self, key: u16, clip: &mut Clipboard) -> (handled: bool)
        requires
            old(self).wf(),
        ensures
            final(self).wf(),
            final(self).same_frame(old(self)),
            ({
                let o = key_outcome(
                    old(self).spec_edit(),
                    key,
                    old(self).spec_width(),
                    old(self).spec_max_length(),
                    old(clip).spec_text(),
                    old(self).spec_validator(),
                );
                &&& final(self).spec_edit() == o.edit
                &&& final(clip).spec_text() == o.clip
                &&& handled == o.handled
            }),
    {
        if key == KB_BACKSPACE {
            if self.sel_end != 0 {
                self.delete_selection();
                self.make_cursor_visible();
                true
            } else if self.cursor_pos > 0 {
                self.data.remove(self.cursor_pos - 1);
                self.cursor_pos = self.cursor_pos - 1;
                self.make_cursor_visible();
                true
            } else {
                false
            }
        } else if key == KB_DEL {
            if self.sel_end != 0 {
                self.delete_selection();
                self.make_cursor_visible();
                true
            } else if self.cursor_pos < self.data.len() {
                self.data.remove(self.cursor_pos);
                true
            } else {
                false
            }
        } else if key == KB_LEFT {
            if self.cursor_pos > 0 {
                self.cursor_pos = self.cursor_pos - 1;
                self.sel_end = 0;
                self.make_cursor_visible();
                true
            } else {
                false
            }
        } else if key == KB_RIGHT {
            if self.cursor_pos < self.data.len() {
                self.cursor_pos = self.cursor_pos + 1;
                self.sel_end = 0;
                self.make_cursor_visible();
                true
            } else {
                false
            }
        } else if key == KB_HOME {
            self.cursor_pos = 0;
            self.sel_end = 0;
            self.make_cursor_visible();
            true
        } else if key == KB_END {
            self.cursor_pos = self.data.len();
            self.sel_end = 0;
            self.make_cursor_visible();
            true
        } else if key == KB_ENTER {
            false
        } else if key == KB_CTRL_A {
            self.select_all();
            true
        } else if key == KB_CTRL_C {
            if self.sel_end != 0 {
                clip.text = sub_chars(&self.data, 0, self.sel_end);
            }
            true
        } else if key == KB_CTRL_X {
            if self.sel_end != 0 {
                clip.text = sub_chars(&self.data, 0, self.sel_end);
                self.delete_selection();
                self.make_cursor_visible();
            }
            true
        } else if key == KB_CTRL_V {
            if clip.text.len() != 0 {
                self.delete_selection();
                let n = self.data.len();
                let room: usize = if self.max_length > n { self.max_length - n } else { 0 };
                let part = if clip.text.len() <= room {
                    sub_chars(&clip.text, 0, clip.text.len())
                } else {
                    sub_chars(&clip.text, 0, room)
                };
                assert(clip.text@.subrange(0, clip.text@.len() as int) =~= clip.text@);
                self.insert_chars(&part);
                self.make_cursor_visible();
            }
            true
        } else if 32 <= key && key < 127 {
            let ch: char = (key as u8) as char;
            self.delete_selection();
            let len = self.data.len();
            if len < self.max_length {
                let ghost d = self.spec_edit();
                let mut checked = true;
                match &self.validator {
                    Some(v) => {
                        let mut t = sub_chars(&self.data, 0, len);
                        t.insert(self.cursor_pos, ch);
                        assert(self.data@.subrange(0, len as int) =~= self.data@);
                        let ts = string_from_chars(&t);
                        checked = v.is_valid_typing(ts.as_str());
                    },
                    None => {},
                }
                if !checked {
                    return true;
                }
                self.data.insert(self.cursor_pos, ch);
                self.cursor_pos = self.cursor_pos + 1;
                self.make_cursor_visible();
                true
            } else {
                false
            }
        } else {
            false
        }
    }


    /// The field's response to an event. A file-focused broadcast moves the
    /// cursor after the text and resets selection and scrolling while the
    /// field is not focused, and is left for other views; other broadcasts
    /// do nothing. A focused field acts on key presses as `key_outcome` says
    /// and clears the ones it used; nothing else is acted on.
    pub fn handle_event(&mut self, event: &mut Event, clip: &mut Clipboard)
        requires
            old(self).wf(),
        ensures
            final(self).wf(),
            final(self).same_frame(old(self)),
            old(event).what == EventType::Broadcast ==> {
                &&& *final(event) == *old(event)
                &&& final(clip).spec_text() == old(clip).spec_text()
                &&& final(self).spec_edit() == (if old(event).command == CM_FILE_FOCUSED
                    && !old(self).spec_focused() {
                    LineEdit {
                        cursor: old(self).spec_text().len() as int,
                        sel_end: 0,
                        first: 0,
                        ..old(self).spec_edit()
                    }
                } else {
                    old(self).spec_edit()
                })
            },
            old(event).what != EventType::Broadcast && !(old(self).spec_focused() && old(event).what
                == EventType::Keyboard) ==> {
                &&& *final(event) == *old(event)
                &&& final(clip).spec_text() == old(clip).spec_text()
                &&& final(self).spec_edit() == old(self).spec_edit()
            },
            old(self).spec_focused() && old(event).what == EventType::Keyboard ==> ({
                let o = key_outcome(
                    old(self).spec_edit(),
                    old(event).key_code,
                    old(self).spec_width(),
                    old(self).spec_max_length(),
                    old(clip).spec_text(),
                    old(self).spec_validator(),
                );
                &&& final(self).spec_edit() == o.edit
                &&& final(clip).spec_text() == o.clip
                &&& *final(event) == (if o.handled {
                    Event { what: EventType::Nothing, ..*old(event) }
                } else {
                    *old(event)
                })
            }),
    {
        let focused = self.state & SF_FOCUSED != 0;
        if event.what == EventType::Broadcast {
            if event.command == CM_FILE_FOCUSED && !focused {
                self.cursor_pos = self.data.len();
                self.sel_end = 0;
                self.first_pos = 0;
            }
            return;
        }
        if !focused {
            return;
        }
        if event.what == EventType::Keyboard {
            let handled = self.apply_key(event.key_code, clip);
            if handled {
                event.clear();
            }
        }
    }


    /// The colour of the field's text.
    pub open spec fn spec_text_attr(&self, colors: InputLineColors) -> Attr {
        if self.spec_focused() {
            colors.focused
        } else {
            colors.normal
        }
    }

    /// One past the last visible character.
    pub open spec fn spec_visible_end(&self) -> int {
        let len = self.spec_text().len() as int;
        if self.spec_first() + self.spec_width() < len {
            self.spec_first() + self.spec_width()
        } else {
            len
        }
    }

    /// Cell `j` of the drawn field: the visible characters from the first
    /// visible one, the selected ones in the selection colour; `<` in the
    /// first cell when the text is scrolled, `>` in the last when more text
    /// follows; blanks elsewhere, and all blanks when scrolled past the end.
    pub open spec fn spec_cell(&self, colors: InputLineColors, j: int) -> Cell {
        let len = self.spec_text().len() as int;
        let first = self.spec_first();
        let attr = self.spec_text_attr(colors);
        if first >= len {
            Cell { ch: ' ', attr: attr }
        } else if j == self.spec_width() - 1 && self.spec_visible_end() < len {
            Cell { ch: '>', attr: colors.arrows }
        } else if j == 0 && first > 0 {
            Cell { ch: '<', attr: colors.arrows }
        } else if first + j < self.spec_visible_end() {
            Cell {
                ch: self.spec_text()[first + j],
                attr: if first + j < self.spec_sel_end() { colors.selected } else { attr },
            }
        } else {
            Cell { ch: ' ', attr: attr }
        }
    }

    /// The field's row on screen; nothing for a field with no width.
    pub fn draw(&self, colors: InputLineColors) -> (line: Option<DrawLine>)
        requires
            self.wf(),
        ensures
            self.spec_width() < 1 ==> line is None,
            self.spec_width() >= 1 ==> (line matches Some(l) && {
                &&& l.x == self.spec_bounds().a.x
                &&& l.y == self.spec_bounds().a.y
                &&& l.buf.data@.len() == self.spec_width()
                &&& forall|j: int| 0 <= j < self.spec_width() ==> #[trigger] l.buf.data@[j] == self.spec_cell(colors, j)
            }),
    {
        let width = self.bounds.width_clamped() as usize;
        if width < 1 {
            return None;
        }
        let attr = if self.state & SF_FOCUSED != 0 { colors.focused } else { colors.normal };
        let mut buf = DrawBuffer::new(width);
        buf.move_char(0, ' ', attr, width);
        let len = self.data.len();
        let first = self.first_pos;
        if first < len {
            let vis_end = if len - first < width { len } else { first + width };
            assert(vis_end == self.spec_visible_end());
            let mut i: usize = 0;
            while i < vis_end - first
                invariant
                    self.wf(),
                    width == self.spec_width(),
                    width >= 1,
                    len == self.spec_text().len(),
                    first == self.spec_first(),
                    first < len,
                    vis_end == self.spec_visible_end(),
                    first <= vis_end <= len,
                    vis_end - first <= width,
                    attr == self.spec_text_attr(colors),
                    i <= vis_end - first,
                    buf.data@.len() == width,
                    forall|j: int| 0 <= j < width ==> #[trigger] buf.data@[j] == (if j < i {
                        Cell {
                            ch: self.spec_text()[first + j],
                            attr: if first + j < self.spec_sel_end() { colors.selected } else { attr },
                        }
                    } else {
                        Cell { ch: ' ', attr: attr }
                    }),
                decreases vis_end - first - i,
            {
                let pos = first + i;
                let a = if pos < self.sel_end { colors.selected } else { attr };
                let ghost prev = buf.data@;
                let ch = self.data[pos];
                buf.put_char(i, ch, a);
                proof {
                    lemma_put_one(prev, i as int, Cell { ch: ch, attr: a });
                }
                assert forall|j: int| 0 <= j < width implies #[trigger] buf.data@[j] == (if j < i + 1 {
                    Cell {
                        ch: self.spec_text()[first + j],
                        attr: if first + j < self.spec_sel_end() { colors.selected } else { attr },
                    }
                } else {
                    Cell { ch: ' ', attr: attr }
                }) by {
                    if j != i {
                        assert(buf.data@[j] == prev[j]);
                    }
                }
                i = i + 1;
            }
            if first > 0 {
                buf.put_char(0, '<', colors.arrows);
            }
            if vis_end < len {
                buf.put_char(width - 1, '>', colors.arrows);
            }
        }
        Some(DrawLine::new(self.bounds.a.x, self.bounds.a.y, buf))
    }


    pub fn bounds(&self) -> (r: Rect)
        ensures
            r == self.spec_bounds(),
    {
        self.bounds
    }

    pub fn state(&self) -> (s: u16)
        ensures
            s == self.spec_state(),
    {
        self.state
    }

    pub fn set_state(&mut self, state: u16)
        requires
            old(self).wf(),
        ensures
            final(self).wf(),
            final(self).spec_state() == state,
            final(self).spec_edit() == old(self).spec_edit(),
            final(self).spec_bounds() == old(self).spec_bounds(),
            final(self).spec_max_length() == old(self).spec_max_length(),
            final(self).spec_validator() == old(self).spec_validator(),
    {
        self.state = state;
    }

    /// Set or clear the focused flag.
    pub fn set_focus(&mut self, focused: bool)
        requires
            old(self).wf(),
        ensures
            final(self).wf(),
            final(self).spec_state() == with_flag(old(self).spec_state(), SF_FOCUSED, focused),
            final(self).spec_edit() == old(self).spec_edit(),
            final(self).spec_bounds() == old(self).spec_bounds(),
            final(self).spec_max_length() == old(self).spec_max_length(),
            final(self).spec_validator() == old(self).spec_validator(),
    {
        self.state = if focused { self.state | SF_FOCUSED } else { self.state & !SF_FOCUSED };
    }

    pub fn is_focused(&self) -> (b: bool)
        ensures
            b == self.spec_focused(),
    {
        self.state & SF_FOCUSED != 0
    }

    /// The cursor's position in the text.
    pub fn cursor_pos(&self) -> (c: usize)
        ensures
            c == self.spec_cursor(),
    {
        self.cursor_pos
    }

    /// Scroll so that the cursor shows.
    fn make_cursor_visible(&mut self)
        requires
            old(self).wf(),
        ensures
            final(self).wf(),
            final(self).spec_first() == scrolled_first(
                old(self).spec_first(),
                old(self).spec_cursor(),
                old(self).spec_width(),
            ),
            final(self).spec_text() == old(self).spec_text(),
            final(self).spec_cursor() == old(self).spec_cursor(),
            final(self).spec_sel_end() == old(self).spec_sel_end(),
            final(self).spec_bounds() == old(self).spec_bounds(),
            final(self).spec_max_length() == old(self).spec_max_length(),
            final(self).spec_validator() == old(self).spec_validator(),
            final(self).spec_state() == old(self).spec_state(),
    {
        let width = self.bounds.width_clamped() as usize;
        if self.cursor_pos < self.first_pos {
            self.first_pos = self.cursor_pos;
        } else if self.cursor_pos - self.first_pos >= width {
            if width == 0 {
                self.first_pos = if self.cursor_pos < usize::MAX { self.cursor_pos + 1 } else { usize::MAX };
            } else {
                self.first_pos = self.cursor_pos - (width - 1);
            }
        }
    }
}


/// Builder for input lines; bounds and text must be given, the length limit
/// defaults to 255.
pub struct InputLineBuilder {
    bounds: Option<Rect>,
    data: Option<Vec<char>>,
    max_length: usize,
    validator: Option<InputValidator>,
}

impl InputLineBuilder {
    pub closed spec fn spec_bounds(&self) -> Option<Rect> {
        self.bounds
    }

    pub closed spec fn spec_data(&self) -> Option<Seq<char>> {
        match self.data {
            Some(d) => Some(d@),
            None => None,
        }
    }

    pub closed spec fn spec_max_length(&self) -> usize {
        self.max_length
    }

    pub closed spec fn spec_validator(&self) -> Option<InputValidator> {
        self.validator
    }

    pub fn new() -> (b: Self)
        ensures
            b.spec_bounds() is None,
            b.spec_data() is None,
            b.spec_max_length() == 255,
            b.spec_validator() is None,
    {
        InputLineBuilder { bounds: None, data: None, max_length: 255, validator: None }
    }

    pub fn bounds(self, bounds: Rect) -> (b: Self)
        ensures
            b.spec_bounds() == Some(bounds),
            b.spec_data() == self.spec_data(),
            b.spec_max_length() == self.spec_max_length(),
            b.spec_validator() == self.spec_validator(),
    {
        InputLineBuilder { bounds: Some(bounds), ..self }
    }

    pub fn data(self, data: &str) -> (b: Self)
        ensures
            b.spec_data() == Some(data@),
            b.spec_bounds() == self.spec_bounds(),
            b.spec_max_length() == self.spec_max_length(),
            b.spec_validator() == self.spec_validator(),
    {
        InputLineBuilder { data: Some(str_chars(data)), ..self }
    }

    pub fn max_length(self, max_length: usize) -> (b: Self)
        ensures
            b.spec_max_length() == max_length,
            b.spec_bounds() == self.spec_bounds(),
            b.spec_data() == self.spec_data(),
            b.spec_validator() == self.spec_validator(),
    {
        InputLineBuilder { max_length, ..self }
    }

    pub fn validator(self, validator: InputValidator) -> (b: Self)
        ensures
            b.spec_validator() == Some(validator),
            b.spec_bounds() == self.spec_bounds(),
            b.spec_data() == self.spec_data(),
            b.spec_max_length() == self.spec_max_length(),
    {
        InputLineBuilder { validator: Some(validator), ..self }
    }

    /// The input line; bounds and text must have been given.
    pub fn build(self) -> (il: InputLine)
        requires
            self.spec_bounds() is Some,
            self.spec_data() is Some,
        ensures
            il.wf(),
            il.spec_bounds() == self.spec_bounds()->0,
            il.spec_text() == self.spec_data()->0,
            il.spec_cursor() == il.spec_text().len(),
            il.spec_sel_end() == 0,
            il.spec_first() == 0,
            il.spec_max_length() == self.spec_max_length(),
            il.spec_validator() == self.spec_validator(),
            il.spec_state() == 0,
    {
        let bounds = self.bounds.unwrap();
        let data = self.data.unwrap();
        let n = data.len();
        InputLine {
            bounds,
            data,
            cursor_pos: n,
            max_length: self.max_length,
            sel_end: 0,
            first_pos: 0,
            validator: self.validator,
            state: 0,
        }
    }

    pub fn build_boxed(self) -> (il: Box<InputLine>)
        requires
            self.spec_bounds() is Some,
            self.spec_data() is Some,
        ensures
            il.wf(),
            il.spec_bounds() == self.spec_bounds()->0,
            il.spec_text() == self.spec_data()->0,
            il.spec_cursor() == il.spec_text().len(),
            il.spec_sel_end() == 0,
            il.spec_first() == 0,
            il.spec_max_length() == self.spec_max_length(),
            il.spec_validator() == self.spec_validator(),
            il.spec_state() == 0,
    {
        Box::new(self.build())
    }
}


/// Delete and Backspace without a selection, in terms of the text before
/// them: Delete removes the character at the cursor, keeping the text before
/// it and shifting the rest back by one, the cursor staying put; Backspace
/// removes the character before the cursor and moves the cursor back onto
/// its place. Either key at the end it cannot act on changes nothing.
pub proof fn law_delete_and_backspace_remove_the_character_at_hand(
    s: LineEdit,
    width: int,
    max_len: int,
    clip: Seq<char>,
    v: Option<InputValidator>,
)
    requires
        s.sel_end == 0,
        0 <= s.cursor <= s.text.len(),
    ensures
        ({
            let d = key_outcome(s, KB_DEL, width, max_len, clip, v);
            let n = s.text.len() as int;
            let c = s.cursor;
            &&& c < n ==> {
                &&& d.handled
                &&& d.edit.text.len() == n - 1
                &&& forall|j: int| 0 <= j < c ==> #[trigger] d.edit.text[j] == s.text[j]
                &&& forall|j: int| c <= j < n - 1 ==> #[trigger] d.edit.text[j] == s.text[j + 1]
                &&& d.edit.cursor == c
                &&& d.clip == clip
            }
            &&& c == n ==> !d.handled && d.edit == s
        }),
        ({
            let b = key_outcome(s, KB_BACKSPACE, width, max_len, clip, v);
            let n = s.text.len() as int;
            let c = s.cursor;
            &&& c > 0 ==> {
                &&& b.handled
                &&& b.edit.text.len() == n - 1
                &&& forall|j: int| 0 <= j < c - 1 ==> #[trigger] b.edit.text[j] == s.text[j]
                &&& forall|j: int| c - 1 <= j < n - 1 ==> #[trigger] b.edit.text[j] == s.text[j + 1]
                &&& b.edit.cursor == c - 1
                &&& b.clip == clip
            }
            &&& c == 0 ==> !b.handled && b.edit == s
        }),
{
}


/// The cursor keys keep the text and the clipboard, drop the selection and
/// move the cursor: Left one character back and Right one forward (when
/// there is room), Home to the start and End past the last character.
pub proof fn law_cursor_keys_move_the_cursor(s: LineEdit, key: u16, width: int, max_len: int, clip: Seq<char>, v: Option<InputValidator>)
    requires
        0 <= s.cursor <= s.text.len(),
        key == KB_LEFT || key == KB_RIGHT || key == KB_HOME || key == KB_END,
    ensures
        ({
            let o = key_outcome(s, key, width, max_len, clip, v);
            let n = s.text.len() as int;
            &&& o.edit.text == s.text
            &&& o.clip == clip
            &&& key == KB_LEFT && s.cursor > 0 ==> o.handled && o.edit.cursor == s.cursor - 1 && o.edit.sel_end == 0
            &&& key == KB_RIGHT && s.cursor < n ==> o.handled && o.edit.cursor == s.cursor + 1 && o.edit.sel_end == 0
            &&& key == KB_HOME ==> o.handled && o.edit.cursor == 0 && o.edit.sel_end == 0
            &&& key == KB_END ==> o.handled && o.edit.cursor == n && o.edit.sel_end == 0
        }),
{
}

} // verus!
