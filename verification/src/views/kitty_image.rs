//! An image shown through the kitty terminal graphics protocol.
//!
//! The view clears its cells and sends escape sequences: the image data,
//! base64 encoded in chunks, and a placement at the view's position.
use vstd::prelude::*;
use base64::Engine;
use crate::draw::{filled_row, Attr, Cell, DrawBuffer, DrawLine};
use crate::event::Event;
use crate::geometry::{clamp_extent, spec_height, spec_width, Rect};
use crate::text::{ascii_bytes, chars_to_bytes, decimal, decimal_bytes, extend_bytes, signed_decimal, signed_decimal_chars};

verus! {

/// Bytes of encoded image data per escape sequence.
pub const CHUNK_SIZE: usize = 4096;

/// Hands out image ids, one after the other, wrapping around.
pub struct ImageIds {
    next: u32,
}

impl ImageIds {
    pub closed spec fn spec_next(&self) -> u32 {
        self.next
    }

    /// Ids starting at 1.
    pub fn new() -> (ids: Self)
        ensures
            ids.spec_next() == 1,
    {
        ImageIds { next: 1 }
    }

    /// The next id.
    pub fn take(&mut self) -> (id: u32)
        ensures
            id == old(self).spec_next(),
            final(self).spec_next() == old(self).spec_next().wrapping_add(1),
    {
        let id = self.next;
        self.next = self.next.wrapping_add(1);
        id
    }
}

/// The digit of the standard base64 alphabet for `v`, 0 to 63, as a byte:
/// `A`-`Z`, `a`-`z`, `0`-`9`, `+` and `/`.
pub open spec fn base64_digit(v: int) -> u8 {
    if v < 26 {
        (65 + v) as u8
    } else if v < 52 {
        (97 + v - 26) as u8
    } else if v < 62 {
        (48 + v - 52) as u8
    } else if v == 62 {
        43u8
    } else {
        47u8
    }
}

/// The padded standard base64 text of `data`: every three bytes become four
/// digits of six bits each, most significant first; a last group of one or
/// two bytes is filled with zero bits and padded with `=` to four.
pub open spec fn base64_standard(data: Seq<u8>) -> Seq<u8>
    decreases data.len(),
{
    if data.len() == 0 {
        seq![]
    } else if data.len() == 1 {
        let b0 = data[0] as int;
        seq![base64_digit(b0 / 4), base64_digit((b0 % 4) * 16), 61u8, 61u8]
    } else if data.len() == 2 {
        let b0 = data[0] as int;
        let b1 = data[1] as int;
        seq![base64_digit(b0 / 4), base64_digit((b0 % 4) * 16 + b1 / 16), base64_digit((b1 % 16) * 4), 61u8]
    } else {
        let b0 = data[0] as int;
        let b1 = data[1] as int;
        let b2 = data[2] as int;
        seq![
            base64_digit(b0 / 4),
            base64_digit((b0 % 4) * 16 + b1 / 16),
            base64_digit((b1 % 16) * 4 + b2 / 64),
            base64_digit(b2 % 64),
        ] + base64_standard(data.subrange(3, data.len() as int))
    }
}

/// `base64::engine::general_purpose::STANDARD.encode`, as bytes. Claimed: the
/// result is the padded standard base64 text of `data`, `base64_standard`,
/// four bytes for every three input bytes or part of them. The call panics
/// when the length of its output overflows, which `requires` rules out.
#[verifier::external_body]
fn encode_base64(data: &Vec<u8>) -> (out: Vec<u8>)
    requires
        4 * ((data@.len() + 2) / 3) <= usize::MAX,
    ensures
        out@ == base64_standard(data@),
        out@.len() == 4 * ((data@.len() + 2) / 3),
{
    base64::engine::general_purpose::STANDARD.encode(data).into_bytes()
}

/// The escape that opens a graphics command.
pub open spec fn apc_start() -> Seq<u8> {
    seq![0x1bu8, 0x5fu8, 0x47u8]
}

/// The escape that closes a graphics command.
pub open spec fn apc_end() -> Seq<u8> {
    seq![0x1bu8, 0x5cu8]
}

/// The number of chunks `len` bytes split into.
pub open spec fn chunk_count(len: int) -> int {
    (len + CHUNK_SIZE - 1) / (CHUNK_SIZE as int)
}

/// Chunk `k` of `enc`.
pub open spec fn chunk_at(enc: Seq<u8>, k: int) -> Seq<u8> {
    let end = if (k + 1) * CHUNK_SIZE < enc.len() { (k + 1) * CHUNK_SIZE } else { enc.len() as int };
    enc.subrange(k * CHUNK_SIZE, end)
}

/// The command carrying chunk `k` of the encoded image `enc` with id `id`: the
/// first one says what follows, every one says whether more chunks follow.
pub open spec fn transmit_part(enc: Seq<u8>, id: u32, k: int) -> Seq<u8> {
    let more: nat = if k == chunk_count(enc.len() as int) - 1 { 0 } else { 1 };
    let keys = if k == 0 {
        ascii_bytes(seq!['a', '=', 't', ',', 'f', '=', '1', '0', '0', ',', 't', '=', 'd', ',', 'i', '='])
            + ascii_bytes(decimal(id as nat)) + ascii_bytes(seq![',', 'q', '=', '2', ',', 'm', '=']) + ascii_bytes(decimal(more))
    } else {
        ascii_bytes(seq!['m', '=']) + ascii_bytes(decimal(more))
    };
    apc_start() + keys + seq![0x3bu8] + chunk_at(enc, k) + apc_end()
}

/// The commands for the first `k` chunks.
pub open spec fn transmit_upto(enc: Seq<u8>, id: u32, k: int) -> Seq<u8>
    decreases k,
{
    if k <= 0 { seq![] } else { transmit_upto(enc, id, k - 1) + transmit_part(enc, id, k - 1) }
}

/// The commands that send the encoded image `enc` with id `id`.
pub open spec fn transmit_sequence(enc: Seq<u8>, id: u32) -> Seq<u8> {
    transmit_upto(enc, id, chunk_count(enc.len() as int))
}

/// The command that places image `id` with its top-left at column `x`, row `y`
/// (counted from 0), `cols` by `rows` cells, at layer `z`.
pub open spec fn display_sequence(id: u32, x: u16, y: u16, cols: u16, rows: u16, z: i32) -> Seq<u8> {
    ascii_bytes(seq!['\u{1b}', '[']) + ascii_bytes(decimal((y + 1) as nat)) + ascii_bytes(seq![';'])
        + ascii_bytes(decimal((x + 1) as nat)) + ascii_bytes(seq!['H']) + apc_start()
        + ascii_bytes(seq!['a', '=', 'p', ',', 'i', '=']) + ascii_bytes(decimal(id as nat))
        + ascii_bytes(seq![',', 'c', '=']) + ascii_bytes(decimal(cols as nat))
        + ascii_bytes(seq![',', 'r', '=']) + ascii_bytes(decimal(rows as nat))
        + ascii_bytes(seq![',', 'z', '=']) + ascii_bytes(signed_decimal(z as int))
        + ascii_bytes(seq![',', 'q', '=', '2', ';']) + apc_end()
}

/// The command that deletes image `id` (`which` is `I` for the image, `a` for its placements).
pub open spec fn delete_sequence(id: u32, which: char) -> Seq<u8> {
    apc_start() + ascii_bytes(seq!['a', '=', 'd', ',', 'd', '=', which, ',', 'i', '=']) + ascii_bytes(decimal(id as nat))
        + ascii_bytes(seq![',', 'q', '=', '2', ';']) + apc_end()
}

/// The command carrying chunk `k` of `count` of the encoded image `encoded`,
/// whose id has the decimal digits `id_digits`.
fn transmit_chunk(encoded: &Vec<u8>, id_digits: &Vec<u8>, Ghost(id): Ghost<u32>, k: usize, count: usize) -> (part: Vec<u8>)
    requires
        count == chunk_count(encoded@.len() as int),
        k < count,
        id_digits@ == ascii_bytes(decimal(id as nat)),
    ensures
        part@ == transmit_part(encoded@, id, k as int),
{
    let n = encoded.len();
    assert(k * 4096 < n) by (nonlinear_arith)
        requires
            k < count,
            count == (n + 4095) / 4096,
    ;
    let more: u64 = if k == count - 1 { 0 } else { 1 };
    let mut result: Vec<u8> = vec![0x1bu8, 0x5fu8, 0x47u8];
    if k == 0 {
        let head = chars_to_bytes(&vec!['a', '=', 't', ',', 'f', '=', '1', '0', '0', ',', 't', '=', 'd', ',', 'i', '=']);
        extend_bytes(&mut result, &head);
        extend_bytes(&mut result, id_digits);
        let mid = chars_to_bytes(&vec![',', 'q', '=', '2', ',', 'm', '=']);
        extend_bytes(&mut result, &mid);
    } else {
        let head = chars_to_bytes(&vec!['m', '=']);
        extend_bytes(&mut result, &head);
    }
    let flag = decimal_bytes(more);
    extend_bytes(&mut result, &flag);
    result.push(0x3b);
    let start = k * CHUNK_SIZE;
    let end = if n - start > CHUNK_SIZE { start + CHUNK_SIZE } else { n };
    let mut j: usize = start;
    let ghost mid_part = result@;
    while j < end
        invariant
            start <= j <= end,
            end <= n,
            n == encoded@.len(),
            result@ == mid_part + encoded@.subrange(start as int, j as int),
        decreases end - j,
    {
        result.push(encoded[j]);
        j = j + 1;
        assert(result@ =~= mid_part + encoded@.subrange(start as int, j as int));
    }
    result.push(0x1b);
    result.push(0x5c);
    assert(result@ =~= transmit_part(encoded@, id, k as int));
    result
}

/// What drawing the view produces: the cleared rows and the graphics commands to
/// send, in order, the output flushed before the second.
pub struct KittyDraw {
    pub lines: Vec<DrawLine>,
    pub delete: Option<Vec<u8>>,
    pub transmit: Option<Vec<u8>>,
    pub display: Option<Vec<u8>>,
}

pub struct KittyImage {
    bounds: Rect,
    state: u16,
    png_data: Vec<u8>,
    image_id: u32,
    transmitted: bool,
    background_attr: Attr,
    columns: u16,
    rows: u16,
    z_index: i32,
    last_bounds: Option<Rect>,
}

impl KittyImage {
    pub closed spec fn spec_bounds(&self) -> Rect { self.bounds }
    pub closed spec fn spec_state(&self) -> u16 { self.state }
    pub closed spec fn spec_data(&self) -> Seq<u8> { self.png_data@ }
    pub closed spec fn spec_id(&self) -> u32 { self.image_id }
    pub closed spec fn spec_transmitted(&self) -> bool { self.transmitted }
    pub closed spec fn spec_background(&self) -> Attr { self.background_attr }
    pub closed spec fn spec_columns(&self) -> u16 { self.columns }
    pub closed spec fn spec_rows(&self) -> u16 { self.rows }
    pub closed spec fn spec_z(&self) -> i32 { self.z_index }
    pub closed spec fn spec_last_bounds(&self) -> Option<Rect> { self.last_bounds }

    /// An image of the PNG bytes `png_data`, with the next id of `ids`, black
    /// background, sized to the view, at layer 0, not yet sent.
    pub fn from_bytes(bounds: Rect, png_data: Vec<u8>, ids: &mut ImageIds) -> (k: Self)
        ensures
            k.spec_bounds() == bounds,
            k.spec_state() == 0,
            k.spec_data() == png_data@,
            k.spec_id() == old(ids).spec_next(),
            final(ids).spec_next() == old(ids).spec_next().wrapping_add(1),
            !k.spec_transmitted(),
            k.spec_background() == (Attr { value: 0 }),
            k.spec_columns() == 0,
            k.spec_rows() == 0,
            k.spec_z() == 0,
            k.spec_last_bounds() is None,
    {
        let image_id = ids.take();
        KittyImage {
            bounds,
            state: 0,
            png_data,
            image_id,
            transmitted: false,
            background_attr: Attr::from_u8(0),
            columns: 0,
            rows: 0,
            z_index: 0,
            last_bounds: None,
        }
    }

    pub fn background(self, attr: Attr) -> (k: Self)
        ensures
            k.spec_background() == attr,
            k.spec_bounds() == self.spec_bounds(),
            k.spec_data() == self.spec_data(),
            k.spec_id() == self.spec_id(),
            k.spec_columns() == self.spec_columns(),
            k.spec_rows() == self.spec_rows(),
            k.spec_z() == self.spec_z(),
            k.spec_transmitted() == self.spec_transmitted(),
            k.spec_last_bounds() == self.spec_last_bounds(),
            k.spec_state() == self.spec_state(),
    {
        KittyImage { background_attr: attr, ..self }
    }

    /// Show the image `cols` cells wide; 0 means the width of the view.
    pub fn columns(self, cols: u16) -> (k: Self)
        ensures
            k.spec_columns() == cols,
            k.spec_background() == self.spec_background(),
            k.spec_bounds() == self.spec_bounds(),
            k.spec_data() == self.spec_data(),
            k.spec_id() == self.spec_id(),
            k.spec_rows() == self.spec_rows(),
            k.spec_z() == self.spec_z(),
            k.spec_transmitted() == self.spec_transmitted(),
            k.spec_last_bounds() == self.spec_last_bounds(),
            k.spec_state() == self.spec_state(),
    {
        KittyImage { columns: cols, ..self }
    }

    /// Show the image `rows` cells high; 0 means the height of the view.
    pub fn rows(self, rows: u16) -> (k: Self)
        ensures
            k.spec_rows() == rows,
            k.spec_background() == self.spec_background(),
            k.spec_bounds() == self.spec_bounds(),
            k.spec_data() == self.spec_data(),
            k.spec_id() == self.spec_id(),
            k.spec_columns() == self.spec_columns(),
            k.spec_z() == self.spec_z(),
            k.spec_transmitted() == self.spec_transmitted(),
            k.spec_last_bounds() == self.spec_last_bounds(),
            k.spec_state() == self.spec_state(),
    {
        KittyImage { rows, ..self }
    }

    /// Place the image at layer `z`.
    pub fn z_index(self, z: i32) -> (k: Self)
        ensures
            k.spec_z() == z,
            k.spec_background() == self.spec_background(),
            k.spec_bounds() == self.spec_bounds(),
            k.spec_data() == self.spec_data(),
            k.spec_id() == self.spec_id(),
            k.spec_columns() == self.spec_columns(),
            k.spec_rows() == self.spec_rows(),
            k.spec_transmitted() == self.spec_transmitted(),
            k.spec_last_bounds() == self.spec_last_bounds(),
            k.spec_state() == self.spec_state(),
    {
        KittyImage { z_index: z, ..self }
    }

    pub fn image_id(&self) -> (id: u32)
        ensures
            id == self.spec_id(),
    {
        self.image_id
    }

    /// Show other PNG bytes, under the next id of `ids`; they are sent again.
    pub fn set_image(&mut self, png_data: Vec<u8>, ids: &mut ImageIds)
        ensures
            final(self).spec_data() == png_data@,
            !final(self).spec_transmitted(),
            final(self).spec_id() == old(ids).spec_next(),
            final(ids).spec_next() == old(ids).spec_next().wrapping_add(1),
            final(self).spec_bounds() == old(self).spec_bounds(),
            final(self).spec_background() == old(self).spec_background(),
            final(self).spec_columns() == old(self).spec_columns(),
            final(self).spec_rows() == old(self).spec_rows(),
            final(self).spec_z() == old(self).spec_z(),
            final(self).spec_last_bounds() == old(self).spec_last_bounds(),
            final(self).spec_state() == old(self).spec_state(),
    {
        self.png_data = png_data;
        self.transmitted = false;
        self.image_id = ids.take();
    }

    /// Send the image again at the next draw.
    pub fn invalidate(&mut self)
        ensures
            !final(self).spec_transmitted(),
            final(self).spec_data() == old(self).spec_data(),
            final(self).spec_id() == old(self).spec_id(),
            final(self).spec_bounds() == old(self).spec_bounds(),
            final(self).spec_background() == old(self).spec_background(),
            final(self).spec_columns() == old(self).spec_columns(),
            final(self).spec_rows() == old(self).spec_rows(),
            final(self).spec_z() == old(self).spec_z(),
            final(self).spec_last_bounds() == old(self).spec_last_bounds(),
            final(self).spec_state() == old(self).spec_state(),
    {
        self.transmitted = false;
    }

    /// The commands that send the image data, base64 encoded, in chunks.
    pub fn build_transmit_sequence(&self) -> (seq: Vec<u8>)
        requires
            4 * ((self.spec_data().len() + 2) / 3) <= usize::MAX,
        ensures
            seq@ == transmit_sequence(base64_standard(self.spec_data()), self.spec_id()),
    {
        let encoded = encode_base64(&self.png_data);
        let n = encoded.len();
        let count: usize = n / CHUNK_SIZE + if n % CHUNK_SIZE == 0 { 0 } else { 1 };
        assert(count == chunk_count(n as int)) by (nonlinear_arith)
            requires
                count == n / 4096 + if n % 4096 == 0 { 0int } else { 1int },
        ;
        let mut result: Vec<u8> = Vec::new();
        let mut k: usize = 0;
        let id_digits = decimal_bytes(self.image_id as u64);
        while k < count
            invariant
                n == encoded@.len(),
                count == chunk_count(n as int),
                k <= count,
                id_digits@ == ascii_bytes(decimal(self.spec_id() as nat)),
                result@ == transmit_upto(encoded@, self.spec_id(), k as int),
            decreases count - k,
        {
            let part = transmit_chunk(&encoded, &id_digits, Ghost(self.spec_id()), k, count);
            extend_bytes(&mut result, &part);
            k = k + 1;
        }
        result
    }

    /// The command that places the image at column `x`, row `y`, `cols` by `rows` cells.
    pub fn build_display_sequence(&self, x: u16, y: u16, cols: u16, rows: u16) -> (seq: Vec<u8>)
        requires
            x < u16::MAX,
            y < u16::MAX,
        ensures
            seq@ == display_sequence(self.spec_id(), x, y, cols, rows, self.spec_z()),
    {
        let mut result = chars_to_bytes(&vec!['\u{1b}', '[']);
        extend_bytes(&mut result, &decimal_bytes((y + 1) as u64));
        extend_bytes(&mut result, &chars_to_bytes(&vec![';']));
        extend_bytes(&mut result, &decimal_bytes((x + 1) as u64));
        extend_bytes(&mut result, &chars_to_bytes(&vec!['H']));
        extend_bytes(&mut result, &vec![0x1bu8, 0x5fu8, 0x47u8]);
        extend_bytes(&mut result, &chars_to_bytes(&vec!['a', '=', 'p', ',', 'i', '=']));
        extend_bytes(&mut result, &decimal_bytes(self.image_id as u64));
        extend_bytes(&mut result, &chars_to_bytes(&vec![',', 'c', '=']));
        extend_bytes(&mut result, &decimal_bytes(cols as u64));
        extend_bytes(&mut result, &chars_to_bytes(&vec![',', 'r', '=']));
        extend_bytes(&mut result, &decimal_bytes(rows as u64));
        extend_bytes(&mut result, &chars_to_bytes(&vec![',', 'z', '=']));
        extend_bytes(&mut result, &chars_to_bytes(&signed_decimal_chars(self.z_index as i64)));
        extend_bytes(&mut result, &chars_to_bytes(&vec![',', 'q', '=', '2', ';']));
        extend_bytes(&mut result, &vec![0x1bu8, 0x5cu8]);
        result
    }

    /// The command deleting the image or (`which == 'a'`) its placements.
    fn build_delete_with(&self, which: char) -> (seq: Vec<u8>)
        ensures
            seq@ == delete_sequence(self.spec_id(), which),
    {
        let mut result: Vec<u8> = vec![0x1bu8, 0x5fu8, 0x47u8];
        extend_bytes(&mut result, &chars_to_bytes(&vec!['a', '=', 'd', ',', 'd', '=', which, ',', 'i', '=']));
        extend_bytes(&mut result, &decimal_bytes(self.image_id as u64));
        extend_bytes(&mut result, &chars_to_bytes(&vec![',', 'q', '=', '2', ';']));
        extend_bytes(&mut result, &vec![0x1bu8, 0x5cu8]);
        result
    }

    /// The command that deletes the image.
    pub fn build_delete_sequence(&self) -> (seq: Vec<u8>)
        ensures
            seq@ == delete_sequence(self.spec_id(), 'I'),
    {
        self.build_delete_with('I')
    }

    /// The command that deletes the image's placements, keeping its data.
    pub fn build_delete_placements_sequence(&self) -> (seq: Vec<u8>)
        ensures
            seq@ == delete_sequence(self.spec_id(), 'a'),
    {
        self.build_delete_with('a')
    }

    pub fn bounds(&self) -> (r: Rect)
        ensures
            r == self.spec_bounds(),
    {
        self.bounds
    }

    /// Move the view; the image is sent again.
    pub fn set_bounds(&mut self, bounds: Rect)
        ensures
            final(self).spec_bounds() == bounds,
            !final(self).spec_transmitted(),
            final(self).spec_data() == old(self).spec_data(),
            final(self).spec_id() == old(self).spec_id(),
            final(self).spec_background() == old(self).spec_background(),
            final(self).spec_columns() == old(self).spec_columns(),
            final(self).spec_rows() == old(self).spec_rows(),
            final(self).spec_z() == old(self).spec_z(),
            final(self).spec_last_bounds() == old(self).spec_last_bounds(),
            final(self).spec_state() == old(self).spec_state(),
    {
        self.bounds = bounds;
        self.transmitted = false;
    }

    pub fn state(&self) -> (s: u16)
        ensures
            s == self.spec_state(),
    {
        self.state
    }

    pub fn set_state(&mut self, state: u16)
        ensures
            final(self).spec_state() == state,
            final(self).spec_bounds() == old(self).spec_bounds(),
            final(self).spec_transmitted() == old(self).spec_transmitted(),
            final(self).spec_data() == old(self).spec_data(),
            final(self).spec_id() == old(self).spec_id(),
            final(self).spec_background() == old(self).spec_background(),
            final(self).spec_columns() == old(self).spec_columns(),
            final(self).spec_rows() == old(self).spec_rows(),
            final(self).spec_z() == old(self).spec_z(),
            final(self).spec_last_bounds() == old(self).spec_last_bounds(),
    {
        self.state = state;
    }

    /// The view takes no events.
    pub fn handle_event(&mut self, event: &mut Event)
        ensures
            *final(event) == *old(event),
    {
    }

    /// The rows of the view, cleared to the background.
    fn clear_lines(&self) -> (cleared: Vec<DrawLine>)
        requires
            0 <= spec_height(self.spec_bounds()) <= i16::MAX,
        ensures
            cleared@.len() == spec_height(self.spec_bounds()),
            forall|r: int| #![trigger cleared@[r]] 0 <= r < cleared@.len() ==> {
                &&& cleared@[r].x == self.spec_bounds().a.x
                &&& cleared@[r].y == self.spec_bounds().a.y + r
                &&& cleared@[r].buf.data@ == filled_row(clamp_extent(spec_width(self.spec_bounds())), Cell { ch: ' ', attr: self.spec_background() })
            },
    {
        let width = self.bounds.width_clamped() as usize;
        let height = (self.bounds.b.y as i32 - self.bounds.a.y as i32) as usize;
        let mut lines: Vec<DrawLine> = Vec::new();
        let mut row: usize = 0;
        while row < height
            invariant
                height == spec_height(self.spec_bounds()),
                height <= i16::MAX,
                width == clamp_extent(spec_width(self.spec_bounds())),
                row <= height,
                lines@.len() == row,
                forall|r: int| #![trigger lines@[r]] 0 <= r < row ==> {
                    &&& lines@[r].x == self.spec_bounds().a.x
                    &&& lines@[r].y == self.spec_bounds().a.y + r
                    &&& lines@[r].buf.data@ == filled_row(width as int, Cell { ch: ' ', attr: self.spec_background() })
                },
            decreases height - row,
        {
            let mut buf = DrawBuffer::new(width);
            buf.move_char(0, ' ', self.background_attr, width);
            assert(buf.data@ =~= filled_row(width as int, Cell { ch: ' ', attr: self.spec_background() }));
            let ghost cells = buf.data@;
            let y: i16 = (self.bounds.a.y as i32 + row as i32) as i16;
            lines.push(DrawLine::new(self.bounds.a.x, y, buf));
            assert(lines@[row as int].buf.data@ == cells);
            row = row + 1;
        }
        lines
    }

    /// Draw the view: its rows cleared to the background, and, when the image
    /// has data and either it was not sent or the view moved since it was last
    /// placed, the commands that delete the old placement (after a move), send
    /// the image (when not sent) and place it over the view.
    pub fn draw(&mut self) -> (out: KittyDraw)
        requires
            0 <= spec_height(old(self).spec_bounds()) <= i16::MAX,
            4 * ((old(self).spec_data().len() + 2) / 3) <= usize::MAX,
            old(self).spec_bounds().a.x != -1,
            old(self).spec_bounds().a.y != -1,
        ensures
            ({
                let s = *old(self);
                let b = s.spec_bounds();
                let w = clamp_extent(spec_width(b));
                let h = spec_height(b);
                let changed = match s.spec_last_bounds() { Some(l) => l != b, None => true };
                let act = s.spec_data().len() > 0 && (changed || !s.spec_transmitted());
                &&& out.lines@.len() == h
                &&& forall|r: int| 0 <= r < h ==> {
                    &&& #[trigger] out.lines@[r].x == b.a.x
                    &&& out.lines@[r].y == b.a.y + r
                    &&& out.lines@[r].buf.data@ == filled_row(w, Cell { ch: ' ', attr: s.spec_background() })
                }
                &&& (match out.delete {
                    Some(d) => act && s.spec_last_bounds() is Some && changed && d@ == delete_sequence(s.spec_id(), 'a'),
                    None => !(act && s.spec_last_bounds() is Some && changed),
                })
                &&& (match out.transmit {
                    Some(t) => act && !s.spec_transmitted() && t@ == transmit_sequence(base64_standard(s.spec_data()), s.spec_id()),
                    None => !(act && !s.spec_transmitted()),
                })
                &&& (match out.display {
                    Some(d) => act && d@ == display_sequence(
                        s.spec_id(),
                        b.a.x as u16,
                        b.a.y as u16,
                        if s.spec_columns() > 0 { s.spec_columns() } else { w as u16 },
                        if s.spec_rows() > 0 { s.spec_rows() } else { h as u16 },
                        s.spec_z(),
                    ),
                    None => !act,
                })
                &&& final(self).spec_transmitted() == (s.spec_transmitted() || act)
                &&& final(self).spec_last_bounds() == (if act { Some(b) } else { s.spec_last_bounds() })
                &&& final(self).spec_bounds() == b
                &&& final(self).spec_data() == s.spec_data()
                &&& final(self).spec_id() == s.spec_id()
                &&& final(self).spec_background() == s.spec_background()
                &&& final(self).spec_columns() == s.spec_columns()
                &&& final(self).spec_rows() == s.spec_rows()
                &&& final(self).spec_z() == s.spec_z()
                &&& final(self).spec_state() == s.spec_state()
            }),
    {
        let width = self.bounds.width_clamped() as usize;
        let height = (self.bounds.b.y as i32 - self.bounds.a.y as i32) as usize;
        let cols = if self.columns > 0 { self.columns } else { width as u16 };
        let rows = if self.rows > 0 { self.rows } else { height as u16 };
        let lines = self.clear_lines();
        let mut out = KittyDraw { lines, delete: None, transmit: None, display: None };
        if self.png_data.len() == 0 {
            return out;
        }
        let changed = match self.last_bounds {
            Some(last) => last != self.bounds,
            None => true,
        };
        if changed || !self.transmitted {
            if self.last_bounds.is_some() && changed {
                out.delete = Some(self.build_delete_placements_sequence());
            }
            if !self.transmitted {
                out.transmit = Some(self.build_transmit_sequence());
                self.transmitted = true;
            }
            let ax = self.bounds.a.x;
            let ay = self.bounds.a.y;
            assert(ax != -1 ==> (ax as u16) < 65535) by (bit_vector);
            assert(ay != -1 ==> (ay as u16) < 65535) by (bit_vector);
            out.display = Some(self.build_display_sequence(ax as u16, ay as u16, cols, rows));
            self.last_bounds = Some(self.bounds);
        }
        out
    }
}

/// Builds a kitty image from its bounds, PNG bytes and display settings.
pub struct KittyImageBuilder {
    bounds: Option<Rect>,
    png_data: Option<Vec<u8>>,
    background_attr: Option<Attr>,
    columns: u16,
    rows: u16,
    z_index: i32,
}

impl KittyImageBuilder {
    pub closed spec fn spec_bounds(&self) -> Option<Rect> { self.bounds }
    pub closed spec fn spec_data(&self) -> Option<Seq<u8>> {
        match self.png_data { Some(d) => Some(d@), None => None }
    }
    pub closed spec fn spec_background(&self) -> Option<Attr> { self.background_attr }
    pub closed spec fn spec_columns(&self) -> u16 { self.columns }
    pub closed spec fn spec_rows(&self) -> u16 { self.rows }
    pub closed spec fn spec_z(&self) -> i32 { self.z_index }

    pub fn new() -> (b: Self)
        ensures
            b.spec_bounds() is None,
            b.spec_data() is None,
            b.spec_background() is None,
            b.spec_columns() == 0,
            b.spec_rows() == 0,
            b.spec_z() == 0,
    {
        KittyImageBuilder { bounds: None, png_data: None, background_attr: None, columns: 0, rows: 0, z_index: 0 }
    }

    pub fn bounds(self, bounds: Rect) -> (b: Self)
        ensures
            b.spec_bounds() == Some(bounds),
            b.spec_data() == self.spec_data(),
            b.spec_background() == self.spec_background(),
            b.spec_columns() == self.spec_columns(),
            b.spec_rows() == self.spec_rows(),
            b.spec_z() == self.spec_z(),
    {
        KittyImageBuilder { bounds: Some(bounds), ..self }
    }

    pub fn bytes(self, data: Vec<u8>) -> (b: Self)
        ensures
            b.spec_bounds() == self.spec_bounds(),
            b.spec_data() == Some(data@),
            b.spec_background() == self.spec_background(),
            b.spec_columns() == self.spec_columns(),
            b.spec_rows() == self.spec_rows(),
            b.spec_z() == self.spec_z(),
    {
        KittyImageBuilder { png_data: Some(data), ..self }
    }

    pub fn background(self, attr: Attr) -> (b: Self)
        ensures
            b.spec_bounds() == self.spec_bounds(),
            b.spec_data() == self.spec_data(),
            b.spec_background() == Some(attr),
            b.spec_columns() == self.spec_columns(),
            b.spec_rows() == self.spec_rows(),
            b.spec_z() == self.spec_z(),
    {
        KittyImageBuilder { background_attr: Some(attr), ..self }
    }

    pub fn columns(self, cols: u16) -> (b: Self)
        ensures
            b.spec_bounds() == self.spec_bounds(),
            b.spec_data() == self.spec_data(),
            b.spec_background() == self.spec_background(),
            b.spec_columns() == cols,
            b.spec_rows() == self.spec_rows(),
            b.spec_z() == self.spec_z(),
    {
        KittyImageBuilder { columns: cols, ..self }
    }

    pub fn rows(self, rows: u16) -> (b: Self)
        ensures
            b.spec_bounds() == self.spec_bounds(),
            b.spec_data() == self.spec_data(),
            b.spec_background() == self.spec_background(),
            b.spec_columns() == self.spec_columns(),
            b.spec_rows() == rows,
            b.spec_z() == self.spec_z(),
    {
        KittyImageBuilder { rows, ..self }
    }

    pub fn z_index(self, z: i32) -> (b: Self)
        ensures
            b.spec_bounds() == self.spec_bounds(),
            b.spec_data() == self.spec_data(),
            b.spec_background() == self.spec_background(),
            b.spec_columns() == self.spec_columns(),
            b.spec_rows() == self.spec_rows(),
            b.spec_z() == z,
    {
        KittyImageBuilder { z_index: z, ..self }
    }

    /// The image, with the next id of `ids`; bounds and bytes must have been given.
    pub fn build(self, ids: &mut ImageIds) -> (k: KittyImage)
        requires
            self.spec_bounds() is Some,
            self.spec_data() is Some,
        ensures
            k.spec_bounds() == self.spec_bounds()->0,
            k.spec_data() == self.spec_data()->0,
            k.spec_id() == old(ids).spec_next(),
            final(ids).spec_next() == old(ids).spec_next().wrapping_add(1),
            k.spec_background() == (match self.spec_background() { Some(a) => a, None => Attr { value: 0 } }),
            k.spec_columns() == self.spec_columns(),
            k.spec_rows() == self.spec_rows(),
            k.spec_z() == self.spec_z(),
            !k.spec_transmitted(),
            k.spec_last_bounds() is None,
    {
        let bounds = match self.bounds {
            Some(b) => b,
            None => Rect::new(0, 0, 0, 0),
        };
        let data = match self.png_data {
            Some(d) => d,
            None => Vec::new(),
        };
        let mut image = KittyImage::from_bytes(bounds, data, ids);
        match self.background_attr {
            Some(a) => {
                image = image.background(a);
            },
            None => {},
        }
        image.columns(self.columns).rows(self.rows).z_index(self.z_index)
    }

    pub fn build_boxed(self, ids: &mut ImageIds) -> (k: Box<KittyImage>)
        requires
            self.spec_bounds() is Some,
            self.spec_data() is Some,
        ensures
            k.spec_bounds() == self.spec_bounds()->0,
            k.spec_data() == self.spec_data()->0,
            k.spec_id() == old(ids).spec_next(),
            final(ids).spec_next() == old(ids).spec_next().wrapping_add(1),
    {
        Box::new(self.build(ids))
    }
}

impl Default for KittyImageBuilder {
    fn default() -> (b: Self)
        ensures
            b.spec_bounds() is None,
            b.spec_data() is None,
            b.spec_background() is None,
            b.spec_columns() == 0,
            b.spec_rows() == 0,
            b.spec_z() == 0,
    {
        KittyImageBuilder::new()
    }
}

} // verus!
