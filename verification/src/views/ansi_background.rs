//! A background that shows a picture made of coloured cells (ANSI art),
//! centred in its bounds if asked, over a default colour.
use vstd::prelude::*;
use crate::draw::{Attr, Cell, DrawBuffer, DrawLine};
use crate::geometry::{clamp_extent, spec_height, spec_width, Rect};

verus! {

/// A picture of coloured cells, row by row.
pub struct AnsiImage {
    pub width: usize,
    pub height: usize,
    pub lines: Vec<Vec<Cell>>,
}

/// The longest of the first `n` rows.
pub open spec fn widest(lines: Seq<Seq<Cell>>, n: int) -> int
    decreases n,
{
    if n <= 0 {
        0
    } else {
        let w = widest(lines, n - 1);
        if lines[n - 1].len() > w { lines[n - 1].len() as int } else { w }
    }
}

impl AnsiImage {
    pub open spec fn spec_lines(&self) -> Seq<Seq<Cell>> {
        self.lines@.map_values(|l: Vec<Cell>| l@)
    }

    /// An empty picture.
    pub fn new() -> (img: AnsiImage)
        ensures
            img.width == 0,
            img.height == 0,
            img.lines@.len() == 0,
    {
        AnsiImage { width: 0, height: 0, lines: Vec::new() }
    }

    /// The picture with `lines` as its rows: as high as there are rows and
    /// as wide as the longest.
    pub fn from_lines(lines: Vec<Vec<Cell>>) -> (img: AnsiImage)
        ensures
            img.spec_lines() == lines@.map_values(|l: Vec<Cell>| l@),
            img.height == lines@.len(),
            img.width == widest(lines@.map_values(|l: Vec<Cell>| l@), lines@.len() as int),
    {
        let ghost lv = lines@.map_values(|l: Vec<Cell>| l@);
        let mut w: usize = 0;
        let mut i: usize = 0;
        while i < lines.len()
            invariant
                i <= lines@.len(),
                lv == lines@.map_values(|l: Vec<Cell>| l@),
                w == widest(lv, i as int),
            decreases lines.len() - i,
        {
            if lines[i].len() > w {
                w = lines[i].len();
            }
            i = i + 1;
        }
        let h = lines.len();
        AnsiImage { width: w, height: h, lines }
    }
}

pub struct AnsiBackground {
    bounds: Rect,
    state: u16,
    image: AnsiImage,
    default_attr: Attr,
    center_x: bool,
    center_y: bool,
}

/// How far to shift a picture `size` long to centre it in `room`, if asked.
pub open spec fn centre_offset(center: bool, size: int, room: int) -> int {
    if center && size < room { (room - size) / 2 } else { 0 }
}

/// A background centred both ways shows cell `c` of row `r` of its picture
/// half the spare room in from its left and top edges.
pub proof fn law_picture_sits_centred(b: AnsiBackground, r: int, c: int)
    requires
        b.spec_center_x(),
        b.spec_center_y(),
        b.spec_image().width <= spec_width(b.spec_bounds()) <= i16::MAX,
        b.spec_image().height <= spec_height(b.spec_bounds()),
        0 <= r < b.spec_image().height,
        r < b.spec_image().spec_lines().len(),
        0 <= c < b.spec_image().spec_lines()[r].len(),
    ensures
        b.spec_cell(
            (spec_height(b.spec_bounds()) - b.spec_image().height) / 2 + r,
            (spec_width(b.spec_bounds()) - b.spec_image().width) / 2 + c,
        ) == b.spec_image().spec_lines()[r][c],
{
}

/// A background centred neither way shows cell `c` of row `r` of its
/// picture at column `c`, row `r` of its bounds; cells the picture does not
/// cover are blank in the default colour.
pub proof fn law_uncentred_picture_sits_in_the_corner(b: AnsiBackground, r: int, c: int)
    requires
        !b.spec_center_x(),
        !b.spec_center_y(),
        0 <= r,
        0 <= c,
    ensures
        b.spec_cell(r, c) == (if r < b.spec_image().height && r < b.spec_image().spec_lines().len() && c
            < b.spec_image().spec_lines()[r].len() {
            b.spec_image().spec_lines()[r][c]
        } else {
            Cell { ch: ' ', attr: b.spec_default_attr() }
        }),
{
}

impl AnsiBackground {
    pub closed spec fn spec_bounds(&self) -> Rect {
        self.bounds
    }

    pub closed spec fn spec_state(&self) -> u16 {
        self.state
    }

    pub closed spec fn spec_image(&self) -> AnsiImage {
        self.image
    }

    pub closed spec fn spec_default_attr(&self) -> Attr {
        self.default_attr
    }

    pub closed spec fn spec_center_x(&self) -> bool {
        self.center_x
    }

    pub closed spec fn spec_center_y(&self) -> bool {
        self.center_y
    }

    /// A background in `bounds` showing `image`, centred both ways, over
    /// `default_attr`.
    pub fn new(bounds: Rect, image: AnsiImage, default_attr: Attr) -> (b: AnsiBackground)
        ensures
            b.spec_bounds() == bounds,
            b.spec_state() == 0,
            b.spec_image() == image,
            b.spec_default_attr() == default_attr,
            b.spec_center_x(),
            b.spec_center_y(),
    {
        AnsiBackground { bounds, state: 0, image, default_attr, center_x: true, center_y: true }
    }

    pub fn center_x(self, center: bool) -> (b: AnsiBackground)
        ensures
            b.spec_center_x() == center,
            b.spec_center_y() == self.spec_center_y(),
            b.spec_bounds() == self.spec_bounds(),
            b.spec_image() == self.spec_image(),
            b.spec_default_attr() == self.spec_default_attr(),
            b.spec_state() == self.spec_state(),
    {
        AnsiBackground { center_x: center, ..self }
    }

    pub fn center_y(self, center: bool) -> (b: AnsiBackground)
        ensures
            b.spec_center_y() == center,
            b.spec_center_x() == self.spec_center_x(),
            b.spec_bounds() == self.spec_bounds(),
            b.spec_image() == self.spec_image(),
            b.spec_default_attr() == self.spec_default_attr(),
            b.spec_state() == self.spec_state(),
    {
        AnsiBackground { center_y: center, ..self }
    }

    pub fn centered(self, center: bool) -> (b: AnsiBackground)
        ensures
            b.spec_center_x() == center,
            b.spec_center_y() == center,
            b.spec_bounds() == self.spec_bounds(),
            b.spec_image() == self.spec_image(),
            b.spec_default_attr() == self.spec_default_attr(),
            b.spec_state() == self.spec_state(),
    {
        AnsiBackground { center_x: center, center_y: center, ..self }
    }

    pub fn image(&self) -> (img: &AnsiImage)
        ensures
            *img == self.spec_image(),
    {
        &self.image
    }

    pub fn set_image(&mut self, image: AnsiImage)
        ensures
            final(self).spec_image() == image,
            final(self).spec_bounds() == old(self).spec_bounds(),
            final(self).spec_default_attr() == old(self).spec_default_attr(),
            final(self).spec_center_x() == old(self).spec_center_x(),
            final(self).spec_center_y() == old(self).spec_center_y(),
            final(self).spec_state() == old(self).spec_state(),
    {
        self.image = image;
    }

    /// Cell `x` of screen row `row`: the picture's cell there, shifted by
    /// the centring offsets, or a blank in the default colour.
    pub open spec fn spec_cell(&self, row: int, x: int) -> Cell {
        let img = self.spec_image();
        let lines = img.spec_lines();
        let xo = centre_offset(self.spec_center_x(), img.width as int, clamp_extent(spec_width(self.spec_bounds())));
        let yo = centre_offset(self.spec_center_y(), img.height as int, spec_height(self.spec_bounds()));
        let ir = row - yo;
        if 0 <= ir < img.height && ir < lines.len() && xo <= x && x - xo < lines[ir].len() {
            lines[ir][x - xo]
        } else {
            Cell { ch: ' ', attr: self.spec_default_attr() }
        }
    }

    /// The background's rows on screen; its height must not be negative.
    pub fn draw(&self) -> (out: Vec<DrawLine>)
        requires
            0 <= spec_height(self.spec_bounds()) <= i16::MAX,
        ensures
            out@.len() == spec_height(self.spec_bounds()),
            forall|r: int| 0 <= r < out@.len() ==> {
                &&& #[trigger] out@[r].x == self.spec_bounds().a.x
                &&& out@[r].y == self.spec_bounds().a.y + r
                &&& out@[r].buf.data@.len() == clamp_extent(spec_width(self.spec_bounds()))
                &&& forall|x: int| 0 <= x < out@[r].buf.data@.len() ==> #[trigger] out@[r].buf.data@[x] == self.spec_cell(r, x)
            },
    {
        let width = self.bounds.width_clamped() as usize;
        let height = self.bounds.height() as usize;
        let iw = self.image.width;
        let ih = self.image.height;
        let x_offset: usize = if self.center_x && iw < width { (width - iw) / 2 } else { 0 };
        let y_offset: usize = if self.center_y && ih < height { (height - ih) / 2 } else { 0 };
        let ghost lines = self.image.spec_lines();
        let mut out: Vec<DrawLine> = Vec::new();
        let mut row: usize = 0;
        while row < height
            invariant
                width == clamp_extent(spec_width(self.spec_bounds())),
                height == spec_height(self.spec_bounds()),
                x_offset == centre_offset(self.center_x, iw as int, width as int),
                y_offset == centre_offset(self.center_y, ih as int, height as int),
                iw == self.image.width,
                ih == self.image.height,
                lines == self.image.spec_lines(),
                x_offset <= width,
                row <= height,
                out@.len() == row,
                forall|r: int| 0 <= r < row ==> {
                    &&& #[trigger] out@[r].x == self.spec_bounds().a.x
                    &&& out@[r].y == self.spec_bounds().a.y + r
                    &&& out@[r].buf.data@.len() == width
                    &&& forall|x: int| 0 <= x < width ==> #[trigger] out@[r].buf.data@[x] == self.spec_cell(r, x)
                },
            decreases height - row,
        {
            let mut buf = DrawBuffer::new(width);
            buf.move_char(0, ' ', self.default_attr, width);
            assert(buf.data@.len() == width);
            if row >= y_offset && row - y_offset < ih {
                let image_row = row - y_offset;
                if image_row < self.image.lines.len() {
                    let line = &self.image.lines[image_row];
                    let mut col: usize = 0;
                    while col < line.len() && col < width - x_offset
                        invariant
                            buf.data@.len() == width,
                            x_offset <= width,
                            col <= line@.len(),
                            line@ == lines[image_row as int],
                            forall|x: int| 0 <= x < width ==> #[trigger] buf.data@[x] == (if x_offset <= x && x - x_offset < col {
                                line@[x - x_offset]
                            } else {
                                Cell { ch: ' ', attr: self.default_attr }
                            }),
                        decreases line.len() - col,
                    {
                        let cell = line[col];
                        let ghost prev = buf.data@;
                        buf.put_char(x_offset + col, cell.ch, cell.attr);
                        assert forall|x: int| 0 <= x < width implies #[trigger] buf.data@[x] == (if x_offset <= x && x - x_offset < col + 1 {
                            line@[x - x_offset]
                        } else {
                            Cell { ch: ' ', attr: self.default_attr }
                        }) by {
                            assert(buf.data@[x] == crate::draw::fill_cells(prev, (x_offset + col) as int, Cell { ch: cell.ch, attr: cell.attr }, 1)[x]);
                        }
                        col = col + 1;
                    }
                    assert forall|x: int| 0 <= x < width implies #[trigger] buf.data@[x] == self.spec_cell(row as int, x) by {
                        if x_offset <= x && x - x_offset < line@.len() {
                            assert(x - x_offset < col);
                        }
                    }
                } else {
                    assert forall|x: int| 0 <= x < width implies #[trigger] buf.data@[x] == self.spec_cell(row as int, x) by {}
                }
            } else {
                assert forall|x: int| 0 <= x < width implies #[trigger] buf.data@[x] == self.spec_cell(row as int, x) by {}
            }
            assert(self.bounds.a.y + row < self.bounds.b.y);
            let row_y = (self.bounds.a.y as i32 + row as i32) as i16;
            let ghost before = out@;
            out.push(DrawLine::new(self.bounds.a.x, row_y, buf));
            assert(forall|r: int| 0 <= r < row ==> out@[r] == before[r]);
            row = row + 1;
        }
        out
    }
}

/// Builder for picture backgrounds; bounds, picture and default colour
/// must be given, centring defaults to both ways.
pub struct AnsiBackgroundBuilder {
    bounds: Option<Rect>,
    image: Option<AnsiImage>,
    default_attr: Option<Attr>,
    center_x: bool,
    center_y: bool,
}

impl AnsiBackgroundBuilder {
    pub closed spec fn spec_bounds(&self) -> Option<Rect> {
        self.bounds
    }

    pub closed spec fn spec_image(&self) -> Option<AnsiImage> {
        self.image
    }

    pub closed spec fn spec_default_attr(&self) -> Option<Attr> {
        self.default_attr
    }

    pub closed spec fn spec_center_x(&self) -> bool {
        self.center_x
    }

    pub closed spec fn spec_center_y(&self) -> bool {
        self.center_y
    }

    pub fn new() -> (b: Self)
        ensures
            b.spec_bounds() is None,
            b.spec_image() is None,
            b.spec_default_attr() is None,
            b.spec_center_x(),
            b.spec_center_y(),
    {
        AnsiBackgroundBuilder { bounds: None, image: None, default_attr: None, center_x: true, center_y: true }
    }

    pub fn bounds(self, bounds: Rect) -> (b: Self)
        ensures
            b.spec_bounds() == Some(bounds),
            b.spec_image() == self.spec_image(),
            b.spec_default_attr() == self.spec_default_attr(),
            b.spec_center_x() == self.spec_center_x(),
            b.spec_center_y() == self.spec_center_y(),
    {
        AnsiBackgroundBuilder { bounds: Some(bounds), ..self }
    }

    pub fn image(self, image: AnsiImage) -> (b: Self)
        ensures
            b.spec_image() == Some(image),
            b.spec_bounds() == self.spec_bounds(),
            b.spec_default_attr() == self.spec_default_attr(),
            b.spec_center_x() == self.spec_center_x(),
            b.spec_center_y() == self.spec_center_y(),
    {
        AnsiBackgroundBuilder { image: Some(image), ..self }
    }

    pub fn default_attr(self, attr: Attr) -> (b: Self)
        ensures
            b.spec_default_attr() == Some(attr),
            b.spec_bounds() == self.spec_bounds(),
            b.spec_image() == self.spec_image(),
            b.spec_center_x() == self.spec_center_x(),
            b.spec_center_y() == self.spec_center_y(),
    {
        AnsiBackgroundBuilder { default_attr: Some(attr), ..self }
    }

    pub fn center_x(self, center: bool) -> (b: Self)
        ensures
            b.spec_center_x() == center,
            b.spec_center_y() == self.spec_center_y(),
            b.spec_bounds() == self.spec_bounds(),
            b.spec_image() == self.spec_image(),
            b.spec_default_attr() == self.spec_default_attr(),
    {
        AnsiBackgroundBuilder { center_x: center, ..self }
    }

    pub fn center_y(self, center: bool) -> (b: Self)
        ensures
            b.spec_center_y() == center,
            b.spec_center_x() == self.spec_center_x(),
            b.spec_bounds() == self.spec_bounds(),
            b.spec_image() == self.spec_image(),
            b.spec_default_attr() == self.spec_default_attr(),
    {
        AnsiBackgroundBuilder { center_y: center, ..self }
    }

    pub fn centered(self, center: bool) -> (b: Self)
        ensures
            b.spec_center_x() == center,
            b.spec_center_y() == center,
            b.spec_bounds() == self.spec_bounds(),
            b.spec_image() == self.spec_image(),
            b.spec_default_attr() == self.spec_default_attr(),
    {
        AnsiBackgroundBuilder { center_x: center, center_y: center, ..self }
    }

    /// The background; bounds, picture and default colour must have been given.
    pub fn build(self) -> (bg: AnsiBackground)
        requires
            self.spec_bounds() is Some,
            self.spec_image() is Some,
            self.spec_default_attr() is Some,
        ensures
            bg.spec_bounds() == self.spec_bounds()->0,
            bg.spec_image() == self.spec_image()->0,
            bg.spec_default_attr() == self.spec_default_attr()->0,
            bg.spec_center_x() == self.spec_center_x(),
            bg.spec_center_y() == self.spec_center_y(),
            bg.spec_state() == 0,
    {
        let cx = self.center_x;
        let cy = self.center_y;
        let bg = AnsiBackground::new(self.bounds.unwrap(), self.image.unwrap(), self.default_attr.unwrap());
        AnsiBackground { center_x: cx, center_y: cy, ..bg }
    }

    pub fn build_boxed(self) -> (bg: Box<AnsiBackground>)
        requires
            self.spec_bounds() is Some,
            self.spec_image() is Some,
            self.spec_default_attr() is Some,
        ensures
            bg.spec_bounds() == self.spec_bounds()->0,
            bg.spec_image() == self.spec_image()->0,
            bg.spec_center_x() == self.spec_center_x(),
            bg.spec_center_y() == self.spec_center_y(),
    {
        Box::new(self.build())
    }
}

} // verus!
