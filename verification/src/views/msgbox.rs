//! Message boxes and input boxes: where they go on the screen, their title,
//! and where their text, input line and buttons go inside them.
//!
//! A message box is as wide as its longest line plus 6, kept between 30 and
//! 60 columns, and as high as its lines plus 6; it is centered on the screen.
//! Its buttons (Yes, No, OK, Cancel, as the options ask) sit in a row
//! centered three rows above its bottom, two columns apart.
use vstd::prelude::*;
use crate::command::{CM_CANCEL, CM_NO, CM_OK, CM_YES};
use crate::geometry::{spec_height, spec_width, Point, Rect};
use crate::draw::{filled_row, put_text, Attr, Cell, DrawBuffer, DrawLine};
use crate::text::{chars_view, lines_from, split_lines, str_chars, string_from_chars};
use crate::views::desktop::half_toward_zero;

verus! {

pub const MF_WARNING: u16 = 0x0000;
pub const MF_ERROR: u16 = 0x0001;
pub const MF_INFORMATION: u16 = 0x0002;
pub const MF_CONFIRMATION: u16 = 0x0003;

pub const MF_YES_BUTTON: u16 = 0x0100;
pub const MF_NO_BUTTON: u16 = 0x0200;
pub const MF_OK_BUTTON: u16 = 0x0400;
pub const MF_CANCEL_BUTTON: u16 = 0x0800;

pub const MF_YES_NO_CANCEL: u16 = MF_YES_BUTTON | MF_NO_BUTTON | MF_CANCEL_BUTTON;
pub const MF_OK_CANCEL: u16 = MF_OK_BUTTON | MF_CANCEL_BUTTON;

/// The longest of the first `k` lines; 0 for none.
pub open spec fn longest_line(lines: Seq<Seq<char>>, k: int) -> int
    decreases k,
{
    if k <= 0 {
        0
    } else {
        let m = longest_line(lines, k - 1);
        if lines[k - 1].len() > m {
            lines[k - 1].len() as int
        } else {
            m
        }
    }
}

/// `v` kept between `lo` and `hi`, the upper bound applied first.
pub open spec fn clamp_between(v: int, lo: int, hi: int) -> int {
    let a = if v < hi { v } else { hi };
    if a < lo {
        lo
    } else {
        a
    }
}

/// The width of a message box for `message`.
pub open spec fn message_width(message: Seq<char>) -> int {
    let lines = lines_from(message, 0);
    let w = if lines.len() == 0 { 20 } else { longest_line(lines, lines.len() as int) };
    clamp_between(w + 6, 30, 60)
}

/// The height of a message box for `message`.
pub open spec fn message_height(message: Seq<char>) -> int {
    let n = lines_from(message, 0).len() as int;
    (if n < 1 { 1 } else { n }) + 6
}

/// A box `w` by `h` centered on a screen `sw` by `sh`.
pub open spec fn centered_box(w: int, h: int, sw: int, sh: int) -> Rect {
    let x = half_toward_zero(sw - w);
    let y = half_toward_zero(sh - h);
    Rect { a: Point { x: x as i16, y: y as i16 }, b: Point { x: (x + w) as i16, y: (y + h) as i16 } }
}

/// The title of a message box of the kind in the low bits of `options`.
pub open spec fn message_title(options: u16) -> Seq<char> {
    let kind = options & 3;
    if kind == MF_WARNING {
        seq!['W', 'a', 'r', 'n', 'i', 'n', 'g']
    } else if kind == MF_ERROR {
        seq!['E', 'r', 'r', 'o', 'r']
    } else if kind == MF_INFORMATION {
        seq!['I', 'n', 'f', 'o', 'r', 'm', 'a', 't', 'i', 'o', 'n']
    } else {
        seq!['C', 'o', 'n', 'f', 'i', 'r', 'm']
    }
}

pub open spec fn yes_label() -> Seq<char> {
    seq!['~', 'Y', '~', 'e', 's']
}

pub open spec fn no_label() -> Seq<char> {
    seq!['~', 'N', '~', 'o']
}

pub open spec fn ok_label() -> Seq<char> {
    seq![' ', ' ', '~', 'O', '~', 'K', ' ', ' ']
}

pub open spec fn cancel_label() -> Seq<char> {
    seq![' ', '~', 'C', '~', 'a', 'n', 'c', 'e', 'l', ' ']
}

/// `(label, command)` when `options` holds `flag`, else nothing.
pub open spec fn button_if(options: u16, flag: u16, label: Seq<char>, cmd: u16) -> Seq<(Seq<char>, u16)> {
    if options & flag != 0 {
        seq![(label, cmd)]
    } else {
        Seq::empty()
    }
}

/// The buttons `options` asks for, in the order Yes, No, OK, Cancel.
pub open spec fn chosen_buttons(options: u16) -> Seq<(Seq<char>, u16)> {
    button_if(options, MF_YES_BUTTON, yes_label(), CM_YES) + button_if(options, MF_NO_BUTTON, no_label(), CM_NO)
        + button_if(options, MF_OK_BUTTON, ok_label(), CM_OK) + button_if(
        options,
        MF_CANCEL_BUTTON,
        cancel_label(),
        CM_CANCEL,
    )
}

/// The columns taken by the first `k` buttons, each with its gap of two.
pub open spec fn row_width(bs: Seq<(Seq<char>, u16)>, k: int) -> int
    decreases k,
{
    if k <= 0 {
        0
    } else {
        row_width(bs, k - 1) + bs[k - 1].0.len() + 2
    }
}

/// The column where the row of buttons starts in a box `w` wide.
pub open spec fn row_start(w: int, bs: Seq<(Seq<char>, u16)>) -> int {
    (w - row_width(bs, bs.len() as int)) / 2
}

/// The labels (as characters) and commands of a table of buttons.
pub open spec fn table_view(t: Seq<(Vec<char>, u16)>) -> Seq<(Seq<char>, u16)> {
    t.map_values(|p: (Vec<char>, u16)| (p.0@, p.1))
}

/// One button of a message box: where it goes in the box, its label, its
/// command and whether it is the default button.
pub struct MessageBoxButton {
    pub bounds: Rect,
    pub label: String,
    pub command: u16,
    pub is_default: bool,
}

/// Whether `b` is button `k` of the row for `options` in a box with bounds `r`.
pub open spec fn is_row_button(b: MessageBoxButton, r: Rect, options: u16, k: int) -> bool {
    let bs = chosen_buttons(options);
    let x = row_start(spec_width(r), bs) + row_width(bs, k);
    let y = spec_height(r) - 3;
    &&& b.label@ == bs[k].0
    &&& b.command == bs[k].1
    &&& b.bounds == (Rect {
        a: Point { x: x as i16, y: y as i16 },
        b: Point { x: (x + bs[k].0.len()) as i16, y: (y + 2) as i16 },
    })
    &&& b.is_default == ((bs.len() == 1 || options & MF_OK_BUTTON != 0) && (k == 0 || bs[k].1 == CM_OK))
}

/// The width taken by the buttons grows with each one.
proof fn lemma_row_width_grows(bs: Seq<(Seq<char>, u16)>, j: int, k: int)
    requires
        0 <= j <= k <= bs.len(),
    ensures
        row_width(bs, j) <= row_width(bs, k),
        j < k ==> row_width(bs, j) + bs[j].0.len() + 2 <= row_width(bs, k),
    decreases k - j,
{
    if j < k {
        lemma_row_width_grows(bs, j, k - 1);
        if j < k - 1 {
            lemma_row_width_grows(bs, j + 1, k - 1);
        }
    }
}

/// The bounds of a message box for `message` centered on a screen
/// `screen_w` by `screen_h`.
pub fn message_box_bounds(message: &str, screen_w: u16, screen_h: u16) -> (r: Rect)
    requires
        screen_w <= i16::MAX,
        screen_h <= i16::MAX,
        lines_from(message@, 0).len() + 6 <= i16::MAX,
    ensures
        r == centered_box(message_width(message@), message_height(message@), screen_w as int, screen_h as int),
{
    let chars = str_chars(message);
    let lines = split_lines(&chars);
    let ghost ls = lines_from(message@, 0);
    let n = lines.len();
    let mut longest: usize = 0;
    let mut i: usize = 0;
    while i < n
        invariant
            n == ls.len(),
            chars_view(lines@) == ls,
            i <= n,
            longest == longest_line(ls, i as int),
        decreases n - i,
    {
        assert(ls[i as int] == lines@[i as int]@);
        if lines[i].len() > longest {
            longest = lines[i].len();
        }
        i = i + 1;
    }
    let w: usize = if n == 0 { 20 } else { longest };
    let width: usize = if w >= 54 {
        60
    } else if w + 6 < 30 {
        30
    } else {
        w + 6
    };
    let height: usize = (if n < 1 { 1 } else { n }) + 6;
    centered(width as i16, height as i16, screen_w as i16, screen_h as i16)
}

/// A box `w` by `h` centered on a screen `sw` by `sh`.
fn centered(w: i16, h: i16, sw: i16, sh: i16) -> (r: Rect)
    requires
        0 <= w,
        0 <= h,
        0 <= sw,
        0 <= sh,
    ensures
        r == centered_box(w as int, h as int, sw as int, sh as int),
{
    let x = half_i32(sw as i32 - w as i32);
    let y = half_i32(sh as i32 - h as i32);
    Rect::new(x as i16, y as i16, (x + w as i32) as i16, (y + h as i32) as i16)
}

/// Half of `v`, rounded toward zero.
fn half_i32(v: i32) -> (r: i32)
    requires
        -65536 <= v <= 65536,
    ensures
        r == half_toward_zero(v as int),
{
    if v >= 0 {
        v / 2
    } else {
        let m: i32 = 0 - v;
        0 - (m / 2)
    }
}

/// The title of a message box of the kind in the low bits of `options`.
pub fn message_box_title(options: u16) -> (t: String)
    ensures
        t@ == message_title(options),
{
    let kind = options & 3;
    let chars: Vec<char> = if kind == MF_WARNING {
        vec!['W', 'a', 'r', 'n', 'i', 'n', 'g']
    } else if kind == MF_ERROR {
        vec!['E', 'r', 'r', 'o', 'r']
    } else if kind == MF_INFORMATION {
        vec!['I', 'n', 'f', 'o', 'r', 'm', 'a', 't', 'i', 'o', 'n']
    } else {
        vec!['C', 'o', 'n', 'f', 'i', 'r', 'm']
    };
    string_from_chars(&chars)
}

/// Where the message text goes in a box with bounds `r`.
pub fn message_text_bounds(r: Rect) -> (t: Rect)
    requires
        i16::MIN + 2 <= spec_width(r) <= i16::MAX,
        i16::MIN + 3 <= spec_height(r) <= i16::MAX,
    ensures
        t == (Rect {
            a: Point { x: 3, y: 2 },
            b: Point { x: (spec_width(r) - 2) as i16, y: (spec_height(r) - 3) as i16 },
        }),
{
    Rect::new(3, 2, r.width() - 2, r.height() - 3)
}

/// The labels and commands of the buttons `options` asks for, in order.
fn button_table(options: u16) -> (table: Vec<(Vec<char>, u16)>)
    ensures
        table_view(table@) == chosen_buttons(options),
{
    let mut table: Vec<(Vec<char>, u16)> = Vec::new();
    if options & MF_YES_BUTTON != 0 {
        table.push((vec!['~', 'Y', '~', 'e', 's'], CM_YES));
    }
    assert(table_view(table@) =~= button_if(options, MF_YES_BUTTON, yes_label(), CM_YES));
    let ghost acc = table_view(table@);
    if options & MF_NO_BUTTON != 0 {
        table.push((vec!['~', 'N', '~', 'o'], CM_NO));
    }
    assert(table_view(table@) =~= acc + button_if(options, MF_NO_BUTTON, no_label(), CM_NO));
    let ghost acc = table_view(table@);
    if options & MF_OK_BUTTON != 0 {
        table.push((vec![' ', ' ', '~', 'O', '~', 'K', ' ', ' '], CM_OK));
    }
    assert(table_view(table@) =~= acc + button_if(options, MF_OK_BUTTON, ok_label(), CM_OK));
    let ghost acc = table_view(table@);
    if options & MF_CANCEL_BUTTON != 0 {
        table.push((vec![' ', '~', 'C', '~', 'a', 'n', 'c', 'e', 'l', ' '], CM_CANCEL));
    }
    assert(table_view(table@) =~= acc + button_if(options, MF_CANCEL_BUTTON, cancel_label(), CM_CANCEL));
    table
}

/// The columns taken by the buttons of `table`, each with its gap of two.
fn table_width(table: &Vec<(Vec<char>, u16)>, Ghost(bs): Ghost<Seq<(Seq<char>, u16)>>) -> (total: usize)
    requires
        table_view(table@) == bs,
        bs.len() <= 4,
        forall|k: int| 0 <= k < bs.len() ==> (#[trigger] bs[k]).0.len() <= 10,
    ensures
        total == row_width(bs, bs.len() as int),
{
    let n = table.len();
    let mut total: usize = 0;
    let mut i: usize = 0;
    while i < n
        invariant
            n == bs.len(),
            n <= 4,
            table@.len() == n,
            table_view(table@) == bs,
            forall|k: int| 0 <= k < n ==> (#[trigger] bs[k]).0.len() <= 10,
            i <= n,
            total == row_width(bs, i as int),
            total <= 12 * i,
        decreases n - i,
    {
        assert(table_view(table@)[i as int] == (table@[i as int].0@, table@[i as int].1));
        total = total + table[i].0.len() + 2;
        i = i + 1;
    }
    total
}

/// The columns the row of buttons that `options` asks for takes, each
/// button with its gap of two.
pub fn message_box_row_width(options: u16) -> (w: usize)
    ensures
        w == row_width(chosen_buttons(options), chosen_buttons(options).len() as int),
{
    let table = button_table(options);
    table_width(&table, Ghost(chosen_buttons(options)))
}

/// The buttons of a message box with bounds `r` and `options`, left to right.
pub fn message_box_buttons(r: Rect, options: u16) -> (out: Vec<MessageBoxButton>)
    requires
        row_width(chosen_buttons(options), chosen_buttons(options).len() as int) <= spec_width(r) <= i16::MAX,
        i16::MIN + 3 <= spec_height(r) <= i16::MAX,
    ensures
        out@.len() == chosen_buttons(options).len(),
        forall|k: int| 0 <= k < out@.len() ==> is_row_button(#[trigger] out@[k], r, options, k),
{
    let ghost bs = chosen_buttons(options);
    let table = button_table(options);
    let n = table.len();
    let total = table_width(&table, Ghost(bs));
    let w = r.width();
    let h = r.height();
    let button_y: i16 = h - 3;
    let is_default = n == 1 || options & MF_OK_BUTTON != 0;
    let mut x: usize = (w as usize - total) / 2;
    let mut out: Vec<MessageBoxButton> = Vec::new();
    let mut k: usize = 0;
    while k < n
        invariant
            n == bs.len(),
            bs == chosen_buttons(options),
            table@.len() == n,
            table_view(table@) == bs,
            total == row_width(bs, n as int),
            total <= w,
            w == spec_width(r),
            w <= i16::MAX,
            spec_height(r) <= i16::MAX,
            button_y == spec_height(r) - 3,
            is_default == (n == 1 || options & MF_OK_BUTTON != 0),
            k <= n,
            x == row_start(w as int, bs) + row_width(bs, k as int),
            out@.len() == k,
            forall|j: int| 0 <= j < k ==> is_row_button(#[trigger] out@[j], r, options, j),
        decreases n - k,
    {
        proof {
            lemma_row_width_grows(bs, k as int, n as int);
            lemma_row_width_grows(bs, k as int + 1, n as int);
        }
        assert(table_view(table@)[k as int] == (table@[k as int].0@, table@[k as int].1));
        let bw = table[k].0.len();
        let bounds = Rect::new(x as i16, button_y, (x + bw) as i16, button_y + 2);
        let cmd = table[k].1;
        let label = string_from_chars(&table[k].0);
        let b = MessageBoxButton { bounds, label, command: cmd, is_default: is_default && (k == 0 || cmd == CM_OK) };
        assert(bw == bs[k as int].0.len());
        assert(is_row_button(b, r, options, k as int));
        out.push(b);
        assert(out@[k as int] == b);
        x = x + bw + 2;
        k = k + 1;
    }
    out
}

/// The bounds of an input box asking for `max_length` characters after
/// `label`, centered on a screen `screen_w` by `screen_h`: as wide as the
/// label and the input plus 12, kept between 30 and 60 columns, 7 rows high.
pub fn input_box_bounds(label: &str, max_length: usize, screen_w: u16, screen_h: u16) -> (r: Rect)
    requires
        screen_w <= i16::MAX,
        screen_h <= i16::MAX,
    ensures
        r == centered_box(
            clamp_between(label@.len() + max_length + 12, 30, 60),
            7,
            screen_w as int,
            screen_h as int,
        ),
{
    let lw = str_chars(label).len();
    let width: usize = if lw >= 48 || max_length >= 48 || lw + max_length >= 48 {
        60
    } else if lw + max_length + 12 < 30 {
        30
    } else {
        lw + max_length + 12
    };
    centered(width as i16, 7, screen_w as i16, screen_h as i16)
}

/// Where the parts of an input box go, in the box's own space.
pub struct InputBoxLayout {
    pub label_bounds: Rect,
    pub input_bounds: Rect,
    pub ok_bounds: Rect,
    pub cancel_bounds: Rect,
}

/// The layout of an input box with bounds `r`: the label on row 2 from
/// column 2, the input line one column after it, at most `max_length + 2`
/// wide and stopping 3 columns from the right edge, and the OK and Cancel
/// buttons, 10 wide, three rows above the bottom either side of the middle.
pub open spec fn input_box_layout_spec(r: Rect, label_len: int, max_length: int) -> InputBoxLayout {
    let input_x = 2 + label_len + 1;
    let room = spec_width(r) - input_x - 3;
    let input_w = if room < max_length + 2 { room } else { max_length + 2 };
    let by = spec_height(r) - 3;
    let ok_x = spec_width(r) / 2 - 11;
    InputBoxLayout {
        label_bounds: Rect { a: Point { x: 2, y: 2 }, b: Point { x: (2 + label_len) as i16, y: 3 } },
        input_bounds: Rect { a: Point { x: input_x as i16, y: 2 }, b: Point { x: (input_x + input_w) as i16, y: 3 } },
        ok_bounds: Rect { a: Point { x: ok_x as i16, y: by as i16 }, b: Point { x: (ok_x + 10) as i16, y: (by + 2) as i16 } },
        cancel_bounds: Rect {
            a: Point { x: (ok_x + 12) as i16, y: by as i16 },
            b: Point { x: (ok_x + 22) as i16, y: (by + 2) as i16 },
        },
    }
}

/// The layout of an input box with bounds `r` asking for `max_length`
/// characters after `label`.
pub fn input_box_layout(r: Rect, label: &str, max_length: usize) -> (l: InputBoxLayout)
    requires
        0 <= spec_width(r) <= i16::MAX,
        0 <= spec_height(r) <= i16::MAX,
        label@.len() + 3 <= i16::MAX,
        max_length + 2 <= i16::MAX,
        spec_width(r) + label@.len() + 3 <= i16::MAX,
        spec_width(r) - label@.len() - 6 >= i16::MIN,
    ensures
        l == input_box_layout_spec(r, label@.len() as int, max_length as int),
{
    let lw: i16 = str_chars(label).len() as i16;
    let w = r.width();
    let h = r.height();
    let input_x: i16 = 2 + lw + 1;
    let room: i16 = w - input_x - 3;
    let cap: i16 = max_length as i16 + 2;
    let input_w: i16 = if room < cap { room } else { cap };
    let by: i16 = h - 3;
    let ok_x: i16 = w / 2 - 11;
    InputBoxLayout {
        label_bounds: Rect::new(2, 2, 2 + lw, 3),
        input_bounds: Rect::new(input_x, 2, input_x + input_w, 3),
        ok_bounds: Rect::new(ok_x, by, ok_x + 10, by + 2),
        cancel_bounds: Rect::new(ok_x + 12, by, ok_x + 22, by + 2),
    }
}

/// What an input box answers: the text typed when it ended with OK, else nothing.
pub fn input_box_result(result: u16, text: String) -> (r: Option<String>)
    ensures
        result == CM_OK ==> r == Some(text),
        result != CM_OK ==> r is None,
{
    if result == CM_OK {
        Some(text)
    } else {
        None
    }
}

/// The column where a line `len` long starts when centered in `w` columns;
/// a line too long for them starts at the left edge and is cut.
pub open spec fn centre_offset(len: int, w: int) -> int {
    if len < w {
        (w - len) / 2
    } else {
        0
    }
}

/// The row showing `line` centered in `w` columns of `attr`.
pub open spec fn centred_text_row(line: Seq<char>, w: int, attr: Attr) -> Seq<Cell> {
    put_text(filled_row(w, Cell { ch: ' ', attr: attr }), centre_offset(line.len() as int, w), line, attr)
}

/// The rows of a message's text in `area`: one per line of the message, each
/// centered, as many as the area is high.
pub fn message_text_lines(message: &str, area: Rect, attr: Attr) -> (out: Vec<DrawLine>)
    requires
        spec_width(area) >= 0,
        spec_height(area) >= 0,
    ensures
        out@.len() == (if lines_from(message@, 0).len() < spec_height(area) {
            lines_from(message@, 0).len() as int
        } else {
            spec_height(area) as int
        }),
        forall|i: int| 0 <= i < out@.len() ==> {
            &&& (#[trigger] out@[i]).x == area.a.x
            &&& out@[i].y == area.a.y + i
            &&& out@[i].buf.data@ == centred_text_row(lines_from(message@, 0)[i], spec_width(area) as int, attr)
        },
{
    let chars = str_chars(message);
    let lines = split_lines(&chars);
    let ghost ls = lines_from(message@, 0);
    let w: usize = (area.b.x as i32 - area.a.x as i32) as usize;
    let h: usize = (area.b.y as i32 - area.a.y as i32) as usize;
    let k: usize = if lines.len() < h { lines.len() } else { h };
    let mut out: Vec<DrawLine> = Vec::new();
    let mut i: usize = 0;
    while i < k
        invariant
            chars_view(lines@) == ls,
            w == spec_width(area),
            h == spec_height(area),
            k <= lines@.len(),
            k <= h,
            i <= k,
            out@.len() == i,
            forall|j: int| 0 <= j < i ==> {
                &&& (#[trigger] out@[j]).x == area.a.x
                &&& out@[j].y == area.a.y + j
                &&& out@[j].buf.data@ == centred_text_row(ls[j], w as int, attr)
            },
        decreases k - i,
    {
        assert(ls[i as int] == lines@[i as int]@);
        let line = &lines[i];
        let mut buf = DrawBuffer::new(w);
        buf.move_char(0, ' ', attr, w);
        assert(buf.data@ =~= filled_row(w as int, Cell { ch: ' ', attr: attr }));
        let off: usize = if line.len() < w { (w - line.len()) / 2 } else { 0 };
        buf.move_chars(off, line, attr);
        let y: i16 = (area.a.y as i32 + i as i32) as i16;
        let line_out = DrawLine::new(area.a.x, y, buf);
        let ghost before = out@;
        out.push(line_out);
        assert forall|j: int| 0 <= j < i + 1 implies {
            &&& (#[trigger] out@[j]).x == area.a.x
            &&& out@[j].y == area.a.y + j
            &&& out@[j].buf.data@ == centred_text_row(ls[j], w as int, attr)
        } by {
            if j < i {
                assert(out@[j] == before[j]);
            } else {
                assert(out@[j] == line_out);
            }
        }
        i = i + 1;
    }
    out
}

} // verus!
