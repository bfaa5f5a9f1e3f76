//! One row of screen cells being prepared for output.
use vstd::prelude::*;

verus! {

/// A colour attribute: foreground in the low nibble, background in the high one.
#[derive(Clone, Copy, Debug, PartialEq, Eq, Structural)]
pub struct Attr {
    pub value: u8,
}

impl Attr {
    pub fn from_u8(value: u8) -> (a: Attr)
        ensures
            a.value == value,
    {
        Attr { value }
    }

    /// Combine a foreground and a background colour, each `0..16`.
    pub fn new(fg: u8, bg: u8) -> (a: Attr)
        requires
            fg < 16,
            bg < 16,
        ensures
            a.value == fg + 16 * bg,
    {
        Attr { value: fg + 16 * bg }
    }
}

/// One screen cell.
#[derive(Clone, Copy, Debug, PartialEq, Eq, Structural)]
pub struct Cell {
    pub ch: char,
    pub attr: Attr,
}

impl Cell {
    pub fn new(ch: char, attr: Attr) -> (c: Cell)
        ensures
            c.ch == ch,
            c.attr == attr,
    {
        Cell { ch, attr }
    }
}

/// A row of cells.
pub struct DrawBuffer {
    pub data: Vec<Cell>,
}

/// A blank cell.
pub open spec fn blank_cell() -> Cell {
    Cell { ch: ' ', attr: Attr { value: 0 } }
}

/// The row after writing `count` copies of `c` from `pos`, clipped at the end.
/// A row of `width` copies of `c`.
pub open spec fn filled_row(width: int, c: Cell) -> Seq<Cell> {
    Seq::new(width as nat, |j: int| c)
}

pub open spec fn fill_cells(row: Seq<Cell>, pos: int, c: Cell, count: int) -> Seq<Cell> {
    Seq::new(row.len(), |j: int| if pos <= j < pos + count { c } else { row[j] })
}

/// The cell showing character `k` of `text` in `attr`.
pub open spec fn text_cell(text: Seq<char>, k: int, attr: Attr) -> Cell {
    Cell { ch: text[k], attr: attr }
}

/// The row after writing `text` from `pos` in `attr`, clipped at the end.
pub open spec fn put_text(row: Seq<Cell>, pos: int, text: Seq<char>, attr: Attr) -> Seq<Cell> {
    Seq::new(
        row.len(),
        |j: int|
            if pos <= j < pos + text.len() {
                text_cell(text, j - pos, attr)
            } else {
                row[j]
            },
    )
}

impl DrawBuffer {
    /// A row of `width` blank cells.
    pub fn new(width: usize) -> (b: DrawBuffer)
        ensures
            b.data@ == Seq::new(width as nat, |i: int| blank_cell()),
    {
        let mut data: Vec<Cell> = Vec::new();
        let mut i: usize = 0;
        while i < width
            invariant
                i <= width,
                data@ == Seq::new(i as nat, |k: int| blank_cell()),
            decreases width - i,
        {
            data.push(Cell { ch: ' ', attr: Attr { value: 0 } });
            i = i + 1;
        }
        DrawBuffer { data }
    }

    pub fn len(&self) -> (n: usize)
        ensures
            n == self.data@.len(),
    {
        self.data.len()
    }

    /// Set one cell; positions past the end are ignored.
    pub fn put_char(&mut self, pos: usize, ch: char, attr: Attr)
        ensures
            final(self).data@ == fill_cells(old(self).data@, pos as int, Cell { ch, attr }, 1),
    {
        if pos < self.data.len() {
            self.data.set(pos, Cell { ch, attr });
        }
        assert(final(self).data@ =~= fill_cells(old(self).data@, pos as int, Cell { ch, attr }, 1));
    }

    /// Write `count` copies of `ch` from `pos`, clipped at the end of the row.
    pub fn move_char(&mut self, pos: usize, ch: char, attr: Attr, count: usize)
        ensures
            final(self).data@ == fill_cells(old(self).data@, pos as int, Cell { ch, attr }, count as int),
    {
        let n = self.data.len();
        let mut i: usize = pos;
        while i < n && i - pos < count
            invariant
                pos <= i,
                i - pos <= count,
                n == self.data@.len(),
                n == old(self).data@.len(),
                self.data@ == fill_cells(old(self).data@, pos as int, Cell { ch, attr }, (i - pos) as int),
            decreases n - i,
        {
            self.data.set(i, Cell { ch, attr });
            i = i + 1;
            assert(self.data@ =~= fill_cells(old(self).data@, pos as int, Cell { ch, attr }, (i - pos) as int));
        }
        assert(self.data@ =~= fill_cells(old(self).data@, pos as int, Cell { ch, attr }, count as int));
    }

    /// Write the characters of `text` from `pos` in `attr`, clipped at the end.
    pub fn move_chars(&mut self, pos: usize, text: &Vec<char>, attr: Attr)
        ensures
            final(self).data@ == put_text(old(self).data@, pos as int, text@, attr),
    {
        let n = self.data.len();
        let mut i: usize = pos;
        while i < n && i - pos < text.len()
            invariant
                pos <= i,
                i - pos <= text@.len(),
                n == self.data@.len(),
                n == old(self).data@.len(),
                forall|j: int|
                    0 <= j < n ==> #[trigger] self.data@[j] == (if pos <= j < i {
                        Cell { ch: text@[j - pos], attr: attr }
                    } else {
                        old(self).data@[j]
                    }),
            decreases n - i,
        {
            let c: char = text[i - pos];
            self.data.set(i, Cell::new(c, attr));
            i = i + 1;
        }
        assert forall|j: int| 0 <= j < n implies #[trigger] self.data@[j] == put_text(
            old(self).data@,
            pos as int,
            text@,
            attr,
        )[j] by {
            if pos <= j < pos + text@.len() {
                assert(j < i);
            } else {
                assert(self.data@[j] == old(self).data@[j]);
            }
        }
        assert(self.data@ =~= put_text(old(self).data@, pos as int, text@, attr));
    }
}

/// A row of cells to be written at screen position (`x`, `y`).
pub struct DrawLine {
    pub x: i16,
    pub y: i16,
    pub buf: DrawBuffer,
}

impl DrawLine {
    pub fn new(x: i16, y: i16, buf: DrawBuffer) -> (l: DrawLine)
        ensures
            l.x == x,
            l.y == y,
            l.buf == buf,
    {
        DrawLine { x, y, buf }
    }
}

/// The cells of `text` drawn with tildes switching between `lo` and `hi`:
/// a tilde draws nothing and flips the attribute, `on` says whether it starts at `hi`.
pub open spec fn cstr_cells(text: Seq<char>, lo: Attr, hi: Attr, on: bool) -> Seq<Cell>
    decreases text.len(),
{
    if text.len() == 0 {
        seq![]
    } else if text[0] == '~' {
        cstr_cells(text.subrange(1, text.len() as int), lo, hi, !on)
    } else {
        seq![Cell { ch: text[0], attr: if on { hi } else { lo } }] + cstr_cells(text.subrange(1, text.len() as int), lo, hi, on)
    }
}

/// `row` with `cells` written from column `pos` on, cells past its end dropped.
pub open spec fn put_cells(row: Seq<Cell>, pos: int, cells: Seq<Cell>) -> Seq<Cell> {
    Seq::new(row.len(), |j: int| if pos <= j < pos + cells.len() { cells[j - pos] } else { row[j] })
}

/// The cells of `text` with tildes switching from `lo` to `hi` and back.
pub fn cstr_to_cells(text: &Vec<char>, lo: Attr, hi: Attr) -> (cells: Vec<Cell>)
    ensures
        cells@ == cstr_cells(text@, lo, hi, false),
{
    let n = text.len();
    let mut cells: Vec<Cell> = Vec::new();
    let mut on = false;
    let mut i: usize = 0;
    assert(text@.subrange(0, n as int) =~= text@);
    while i < n
        invariant
            n == text@.len(),
            i <= n,
            cells@ + cstr_cells(text@.subrange(i as int, n as int), lo, hi, on) == cstr_cells(text@, lo, hi, false),
        decreases n - i,
    {
        let ghost rest = text@.subrange(i as int, n as int);
        let ghost before = cells@;
        assert(rest.subrange(1, rest.len() as int) =~= text@.subrange(i + 1, n as int));
        let c = text[i];
        if c == '~' {
            on = !on;
        } else {
            cells.push(Cell::new(c, if on { hi } else { lo }));
            assert(cells@ + cstr_cells(text@.subrange(i + 1, n as int), lo, hi, on)
                =~= before + cstr_cells(rest, lo, hi, on));
        }
        i = i + 1;
    }
    assert(text@.subrange(n as int, n as int) =~= Seq::<char>::empty());
    assert(cells@ =~= cstr_cells(text@, lo, hi, false));
    cells
}

impl DrawBuffer {
    /// Write `cells` from column `pos` on; cells past the end are dropped.
    pub fn move_cells(&mut self, pos: usize, cells: &Vec<Cell>)
        ensures
            final(self).data@ == put_cells(old(self).data@, pos as int, cells@),
    {
        let n = self.data.len();
        let mut i: usize = pos;
        while i < n && i - pos < cells.len()
            invariant
                pos <= i,
                i - pos <= cells@.len(),
                n == self.data@.len(),
                n == old(self).data@.len(),
                forall|j: int|
                    0 <= j < n ==> #[trigger] self.data@[j] == (if pos <= j < i {
                        cells@[j - pos]
                    } else {
                        old(self).data@[j]
                    }),
            decreases n - i,
        {
            let c = cells[i - pos];
            self.data.set(i, c);
            i = i + 1;
        }
        assert forall|j: int| 0 <= j < n implies #[trigger] self.data@[j] == put_cells(
            old(self).data@,
            pos as int,
            cells@,
        )[j] by {
            if pos <= j < pos + cells@.len() {
                assert(j < i);
            }
        }
        assert(self.data@ =~= put_cells(old(self).data@, pos as int, cells@));
    }

    /// Write `text` from column `pos` on, tildes switching between `lo` and `hi`.
    pub fn move_cstr(&mut self, pos: usize, text: &Vec<char>, lo: Attr, hi: Attr)
        ensures
            final(self).data@ == put_cells(old(self).data@, pos as int, cstr_cells(text@, lo, hi, false)),
    {
        let cells = cstr_to_cells(text, lo, hi);
        self.move_cells(pos, &cells);
    }
}

} // verus!
