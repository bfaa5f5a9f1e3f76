//! Determinate and marquee progress indicator.
use vstd::prelude::*;
use std::time::Duration;
use crate::draw::{Attr, Cell, DrawBuffer, blank_cell, fill_cells};
use crate::geometry::{Rect, clamp_extent, spec_width};
use crate::text::{char_at, decimal, decimal_chars, str_chars, string_chars, string_from_chars};

verus! {

/// Fill mode of a progress bar.
#[derive(Clone, Copy, Debug, PartialEq, Eq, Structural)]
pub enum ProgressMode {
    /// Fill proportional to `value / max`.
    Determinate,
    /// A block sweeping back and forth; progress unknown.
    Marquee,
}

/// Glyphs used to draw the track.
#[derive(Clone, Copy, Debug, PartialEq, Eq, Structural)]
pub enum ProgressStyle {
    /// Full block filled, light shade empty; whole cells only.
    Blocks,
    /// Like `Blocks`, with eighth-of-a-cell partial blocks at the edge.
    Smooth,
    /// `#` filled, `-` empty.
    Ascii,
}

pub open spec fn filled_glyph(s: ProgressStyle) -> char {
    match s {
        ProgressStyle::Ascii => '#',
        _ => '\u{2588}',
    }
}

pub open spec fn empty_glyph(s: ProgressStyle) -> char {
    match s {
        ProgressStyle::Ascii => '-',
        _ => '\u{2591}',
    }
}

/// The partial block for `e` eighths, `1 <= e <= 7`, in the smooth style.
pub open spec fn partial_glyph(s: ProgressStyle, e: int) -> Option<char> {
    if s != ProgressStyle::Smooth || e == 0 || e >= 8 {
        None
    } else {
        Some((0x2590 - e) as char)
    }
}

impl ProgressStyle {
    pub fn filled_char(self) -> (c: char)
        ensures
            c == filled_glyph(self),
    {
        match self {
            ProgressStyle::Ascii => '#',
            _ => '\u{2588}',
        }
    }

    pub fn empty_char(self) -> (c: char)
        ensures
            c == empty_glyph(self),
    {
        match self {
            ProgressStyle::Ascii => '-',
            _ => '\u{2591}',
        }
    }

    pub fn partial_char(self, eighths: u32) -> (c: Option<char>)
        ensures
            c == partial_glyph(self, eighths as int),
    {
        if self != ProgressStyle::Smooth || eighths == 0 || eighths >= 8 {
            return None;
        }
        let c = if eighths == 1 {
            '\u{258F}'
        } else if eighths == 2 {
            '\u{258E}'
        } else if eighths == 3 {
            '\u{258D}'
        } else if eighths == 4 {
            '\u{258C}'
        } else if eighths == 5 {
            '\u{258B}'
        } else if eighths == 6 {
            '\u{258A}'
        } else {
            '\u{2589}'
        };
        Some(c)
    }
}

/// What is overlaid on the middle of the track.
pub enum Caption {
    Hidden,
    Percent,
    Text(String),
}

/// The abstract caption.
pub enum CaptionView {
    Hidden,
    Percent,
    Text(Seq<char>),
}

impl View for Caption {
    type V = CaptionView;

    open spec fn view(&self) -> CaptionView {
        match self {
            Caption::Hidden => CaptionView::Hidden,
            Caption::Percent => CaptionView::Percent,
            Caption::Text(t) => CaptionView::Text(t@),
        }
    }
}

/// The abstract state of a progress bar.
pub struct ProgressView {
    pub bounds: Rect,
    pub value: u64,
    pub max: u64,
    pub mode: ProgressMode,
    pub style: ProgressStyle,
    pub caption: CaptionView,
    pub marquee_pos: u16,
    pub marquee_forward: bool,
    pub tick_interval: Duration,
}

/// A horizontal progress indicator.
pub struct ProgressBar {
    bounds: Rect,
    value: u64,
    max: u64,
    mode: ProgressMode,
    style: ProgressStyle,
    caption: Caption,
    marquee_pos: u16,
    marquee_forward: bool,
    tick_interval: Duration,
}

impl View for ProgressBar {
    type V = ProgressView;

    closed spec fn view(&self) -> ProgressView {
        ProgressView {
            bounds: self.bounds,
            value: self.value,
            max: self.max,
            mode: self.mode,
            style: self.style,
            caption: self.caption@,
            marquee_pos: self.marquee_pos,
            marquee_forward: self.marquee_forward,
            tick_interval: self.tick_interval,
        }
    }
}

/// Default gap between marquee steps when animated from idle, in milliseconds.
pub const DEFAULT_TICK_MS: u64 = 80;

/// The duration `Duration::from_millis(ms)` gives: `ms` milliseconds.
pub uninterp spec fn duration_of_millis(ms: u64) -> Duration;

/// `std::time::Duration::from_millis`: a duration of `ms` milliseconds. It
/// depends on `ms` alone and never panics; nothing more of its value is
/// stated here.
#[verifier::external_body]
fn duration_from_millis(ms: u64) -> (d: Duration)
    ensures
        d == duration_of_millis(ms),
{
    Duration::from_millis(ms)
}

/// Whether duration `a` is at least duration `b`, as `Duration`'s ordering has it.
pub uninterp spec fn duration_ge(a: Duration, b: Duration) -> bool;

/// `a >= b` on `std::time::Duration`, by its `PartialOrd`. Claimed: the answer
/// is `duration_ge(a, b)`, a function of the two durations alone; which
/// durations are longer is left unsaid.
#[verifier::external_body]
fn duration_at_least(a: Duration, b: Duration) -> (r: bool)
    ensures
        r == duration_ge(a, b),
{
    a >= b
}

/// The completed percentage, truncated.
pub open spec fn percent_of(value: int, max: int) -> int {
    value * 100 / max
}

/// Width of the marquee block: a quarter of the track, at least one cell,
/// never wider than the track.
pub open spec fn marquee_block(w: int) -> int {
    let q = if w / 4 >= 1 { w / 4 } else { 1 };
    if q <= w { q } else { w }
}

/// The marquee after one step on a track `w` cells wide.
pub open spec fn ticked(pos: int, forward: bool, w: int) -> (int, bool) {
    let span = if w > marquee_block(w) { w - marquee_block(w) } else { 0 };
    if span == 0 {
        (0, forward)
    } else if forward {
        if pos >= span { (span - 1, false) } else { (pos + 1, true) }
    } else if pos == 0 {
        (if 1 <= span { 1 } else { span }, true)
    } else {
        (pos - 1, false)
    }
}

/// The text overlaid on the track, if any.
pub open spec fn caption_of(v: ProgressView) -> Option<Seq<char>> {
    match v.caption {
        CaptionView::Hidden => None,
        CaptionView::Text(t) => Some(t),
        CaptionView::Percent => match v.mode {
            ProgressMode::Marquee => None,
            ProgressMode::Determinate => Some(decimal(percent_of(v.value as int, v.max as int) as nat).push('%')),
        },
    }
}

/// Eighths of a cell filled on a track of `w` cells.
pub open spec fn filled_eighths(v: ProgressView, w: int) -> int {
    v.value * (w * 8) / v.max as int
}

/// Whole cells filled and the eighths of the next cell.
pub open spec fn fill_split(v: ProgressView, w: int) -> (int, int) {
    if w == 0 {
        (0, 0)
    } else {
        let fe = filled_eighths(v, w);
        (if fe / 8 <= w { fe / 8 } else { w }, fe % 8)
    }
}

/// The track before the caption is drawn, with the number of filled cells.
pub open spec fn track(v: ProgressView, width: int, fa: Attr, ea: Attr) -> (Seq<Cell>, int) {
    let w = (width as u16) as int;
    let base = fill_cells(
        Seq::new(width as nat, |i: int| blank_cell()),
        0,
        Cell { ch: empty_glyph(v.style), attr: ea },
        width,
    );
    match v.mode {
        ProgressMode::Determinate => {
            let (whole, rem) = fill_split(v, w);
            let r1 = if whole > 0 {
                fill_cells(base, 0, Cell { ch: filled_glyph(v.style), attr: fa }, whole)
            } else {
                base
            };
            let r2 = match partial_glyph(v.style, rem) {
                Some(ch) => if whole < w { fill_cells(r1, whole, glyph_cell(ch, fa), 1) } else { r1 },
                None => r1,
            };
            (r2, whole)
        },
        ProgressMode::Marquee => {
            let block = marquee_block(w);
            let room = if w > block { w - block } else { 0 };
            let start = if v.marquee_pos <= room { v.marquee_pos as int } else { room };
            (fill_cells(base, start, Cell { ch: filled_glyph(v.style), attr: fa }, block), 0)
        },
    }
}

pub open spec fn glyph_cell(ch: char, a: Attr) -> Cell {
    Cell { ch: ch, attr: a }
}

/// The whole rendered track of `width` cells.
pub open spec fn rendered(v: ProgressView, width: int, fa: Attr, ea: Attr) -> Seq<Cell> {
    if width == 0 {
        Seq::empty()
    } else {
        let (t, filled) = track(v, width, fa, ea);
        match caption_of(v) {
            Some(text) => if text.len() <= width {
                let start = (width - text.len()) / 2;
                Seq::new(
                    width as nat,
                    |j: int|
                        if start <= j < start + text.len() {
                            glyph_cell(text[j - start], if ((j as u16) as int) < filled { fa } else { ea })
                        } else {
                            t[j]
                        },
                )
            } else {
                t
            },
            None => t,
        }
    }
}

impl ProgressBar {
    /// The value never exceeds the maximum, which is at least one.
    pub closed spec fn wf(&self) -> bool {
        1 <= self.max && self.value <= self.max
    }

    /// A determinate bar; a maximum of zero is raised to one.
    pub fn new(bounds: Rect, max: u64) -> (b: Self)
        ensures
            b.wf(),
            b@.bounds == bounds,
            b@.value == 0,
            b@.max == (if max >= 1 { max } else { 1 }),
            b@.mode == ProgressMode::Determinate,
            b@.style == ProgressStyle::Smooth,
            b@.caption == CaptionView::Percent,
            b@.marquee_pos == 0,
            b@.marquee_forward,
            b@.tick_interval == duration_of_millis(DEFAULT_TICK_MS),
    {
        ProgressBar {
            bounds,
            value: 0,
            max: if max >= 1 { max } else { 1 },
            mode: ProgressMode::Determinate,
            style: ProgressStyle::Smooth,
            caption: Caption::Percent,
            marquee_pos: 0,
            marquee_forward: true,
            tick_interval: duration_from_millis(DEFAULT_TICK_MS),
        }
    }

    pub fn bounds(&self) -> (r: Rect)
        ensures
            r == self@.bounds,
    {
        self.bounds
    }

    pub fn set_bounds(&mut self, bounds: Rect)
        ensures
            final(self).wf() == old(self).wf(),
            final(self)@ == (ProgressView { bounds: bounds, ..old(self)@ }),
    {
        self.bounds = bounds;
    }

    /// Current value, within `0..=max`.
    pub fn value(&self) -> (v: u64)
        ensures
            v == self@.value,
    {
        self.value
    }

    /// Set the value, clamped to the maximum.
    pub fn set_value(&mut self, value: u64)
        requires
            old(self).wf(),
        ensures
            final(self).wf(),
            final(self)@ == (ProgressView {
                value: if value <= old(self)@.max { value } else { old(self)@.max },
                ..old(self)@
            }),
    {
        self.value = if value <= self.max { value } else { self.max };
    }

    /// Add to the value, clamping at the maximum, saturating on overflow.
    pub fn advance(&mut self, delta: u64)
        requires
            old(self).wf(),
        ensures
            final(self).wf(),
            final(self)@ == (ProgressView {
                value: if old(self)@.value + delta <= old(self)@.max { (old(self)@.value + delta) as u64 } else { old(self)@.max },
                ..old(self)@
            }),
    {
        let v = self.value.saturating_add(delta);
        self.set_value(v);
    }

    /// Upper bound of the bar.
    pub fn max(&self) -> (m: u64)
        ensures
            m == self@.max,
    {
        self.max
    }

    /// Set the upper bound (zero becomes one) and re-clamp the value.
    pub fn set_max(&mut self, max: u64)
        requires
            old(self).wf(),
        ensures
            final(self).wf(),
            final(self)@ == ({
                let m = if max >= 1 { max } else { 1 };
                ProgressView { max: m, value: if old(self)@.value <= m { old(self)@.value } else { m }, ..old(self)@ }
            }),
    {
        self.max = if max >= 1 { max } else { 1 };
        if self.value > self.max {
            self.value = self.max;
        }
    }

    /// Zero the value and rewind the marquee.
    pub fn reset(&mut self)
        requires
            old(self).wf(),
        ensures
            final(self).wf(),
            final(self)@ == (ProgressView { value: 0, marquee_pos: 0, marquee_forward: true, ..old(self)@ }),
    {
        self.value = 0;
        self.marquee_pos = 0;
        self.marquee_forward = true;
    }

    /// Completion as a whole percentage, truncated, `0..=100`.
    pub fn percent(&self) -> (p: u32)
        requires
            self.wf(),
        ensures
            p == percent_of(self@.value as int, self@.max as int),
            p <= 100,
    {
        let v = self.value as u128;
        let m = self.max as u128;
        assert(v * 100 <= m * 100) by (nonlinear_arith) requires v <= m;
        let q = (v * 100) / m;
        assert(q <= 100) by (nonlinear_arith) requires q as int == (v as int * 100) / (m as int), v <= m, m >= 1;
        q as u32
    }

    pub fn mode(&self) -> (m: ProgressMode)
        ensures
            m == self@.mode,
    {
        self.mode
    }

    pub fn set_mode(&mut self, mode: ProgressMode)
        ensures
            final(self).wf() == old(self).wf(),
            final(self)@ == (ProgressView { mode: mode, ..old(self)@ }),
    {
        self.mode = mode;
    }

    pub fn set_style(&mut self, style: ProgressStyle)
        ensures
            final(self).wf() == old(self).wf(),
            final(self)@ == (ProgressView { style: style, ..old(self)@ }),
    {
        self.style = style;
    }

    /// Overlay the percentage (the default).
    pub fn show_percent(&mut self)
        ensures
            final(self).wf() == old(self).wf(),
            final(self)@ == (ProgressView { caption: CaptionView::Percent, ..old(self)@ }),
    {
        self.caption = Caption::Percent;
    }

    /// Turn the percentage overlay on, or off when it is what is shown; a
    /// fixed caption is never dropped by turning it off.
    pub fn set_show_percent(&mut self, show: bool)
        ensures
            final(self).wf() == old(self).wf(),
            final(self)@ == (if show {
                ProgressView { caption: CaptionView::Percent, ..old(self)@ }
            } else if old(self)@.caption is Percent {
                ProgressView { caption: CaptionView::Hidden, ..old(self)@ }
            } else {
                old(self)@
            }),
    {
        if show {
            self.caption = Caption::Percent;
        } else if let Caption::Percent = self.caption {
            self.caption = Caption::Hidden;
        }
    }

    pub fn is_percent_shown(&self) -> (b: bool)
        ensures
            b == (self@.caption is Percent),
    {
        if let Caption::Percent = self.caption { true } else { false }
    }

    /// Overlay fixed text instead of a percentage.
    pub fn set_caption(&mut self, text: &str)
        ensures
            final(self).wf() == old(self).wf(),
            final(self)@ == (ProgressView { caption: CaptionView::Text(text@), ..old(self)@ }),
    {
        let chars = str_chars(text);
        self.caption = Caption::Text(string_from_chars(&chars));
    }

    /// Draw the track with nothing overlaid.
    pub fn hide_caption(&mut self)
        ensures
            final(self).wf() == old(self).wf(),
            final(self)@ == (ProgressView { caption: CaptionView::Hidden, ..old(self)@ }),
    {
        self.caption = Caption::Hidden;
    }

    /// Width of the marquee block on a track `track_width` cells wide.
    pub fn marquee_width(track_width: u16) -> (b: u16)
        ensures
            b == marquee_block(track_width as int),
    {
        let q = track_width / 4;
        let q = if q >= 1 { q } else { 1 };
        if q <= track_width { q } else { track_width }
    }

    /// The idle step of a marquee bar, `elapsed` after its last step: once at
    /// least the tick interval has gone by it steps, and tells so (the caller
    /// then starts timing again); determinate bars are left alone.
    pub fn idle(&mut self, elapsed: Duration) -> (stepped: bool)
        ensures
            final(self).wf() == old(self).wf(),
            stepped == (old(self)@.mode == ProgressMode::Marquee && duration_ge(elapsed, old(self)@.tick_interval)),
            final(self)@ == (if stepped {
                let (p, f) = ticked(
                    old(self)@.marquee_pos as int,
                    old(self)@.marquee_forward,
                    (clamp_extent(spec_width(old(self)@.bounds)) as u16) as int,
                );
                ProgressView { marquee_pos: p as u16, marquee_forward: f, ..old(self)@ }
            } else {
                old(self)@
            }),
    {
        if self.mode != ProgressMode::Marquee {
            return false;
        }
        if duration_at_least(elapsed, self.tick_interval) {
            self.tick();
            return true;
        }
        false
    }

    /// Step the marquee one cell, turning round at either end; nothing in
    /// determinate mode.
    pub fn tick(&mut self)
        ensures
            final(self).wf() == old(self).wf(),
            final(self)@ == (if old(self)@.mode != ProgressMode::Marquee {
                old(self)@
            } else {
                let (p, f) = ticked(
                    old(self)@.marquee_pos as int,
                    old(self)@.marquee_forward,
                    (clamp_extent(spec_width(old(self)@.bounds)) as u16) as int,
                );
                ProgressView { marquee_pos: p as u16, marquee_forward: f, ..old(self)@ }
            }),
    {
        if self.mode != ProgressMode::Marquee {
            return;
        }
        let width = self.bounds.width_clamped() as u16;
        let block = Self::marquee_width(width);
        let span = if width > block { width - block } else { 0 };
        if span == 0 {
            self.marquee_pos = 0;
            return;
        }
        if self.marquee_forward {
            if self.marquee_pos >= span {
                self.marquee_forward = false;
                self.marquee_pos = span - 1;
            } else {
                self.marquee_pos = self.marquee_pos + 1;
            }
        } else if self.marquee_pos == 0 {
            self.marquee_forward = true;
            self.marquee_pos = if 1 <= span { 1 } else { span };
        } else {
            self.marquee_pos = self.marquee_pos - 1;
        }
    }

    /// Leading edge of the marquee block.
    pub fn marquee_pos(&self) -> (p: u16)
        ensures
            p == self@.marquee_pos,
    {
        self.marquee_pos
    }

    /// Whether the marquee moves right.
    pub fn marquee_forward(&self) -> (b: bool)
        ensures
            b == self@.marquee_forward,
    {
        self.marquee_forward
    }

    /// Set how often the idle animation steps the marquee.
    pub fn set_tick_interval(&mut self, interval: Duration)
        ensures
            final(self).wf() == old(self).wf(),
            final(self)@ == (ProgressView { tick_interval: interval, ..old(self)@ }),
    {
        self.tick_interval = interval;
    }

    /// The gap between idle animation steps.
    pub fn tick_interval(&self) -> (d: Duration)
        ensures
            d == self@.tick_interval,
    {
        self.tick_interval
    }

    /// The text overlaid on the track, or `None`.
    pub fn caption_text(&self) -> (t: Option<String>)
        requires
            self.wf(),
        ensures
            match caption_of(self@) {
                Some(c) => t matches Some(s) && s@ == c,
                None => t is None,
            },
    {
        match &self.caption {
            Caption::Hidden => None,
            Caption::Text(t) => {
                let chars = string_chars(t);
                Some(string_from_chars(&chars))
            },
            Caption::Percent => match self.mode {
                ProgressMode::Marquee => None,
                ProgressMode::Determinate => {
                    let mut chars = decimal_chars(self.percent() as u64);
                    chars.push('%');
                    Some(string_from_chars(&chars))
                },
            },
        }
    }

    /// Whole filled cells and the eighths of the next one on a `width`-cell track.
    pub fn fill_split(&self, width: u16) -> (r: (u16, u32))
        requires
            self.wf(),
        ensures
            r.0 == fill_split(self@, width as int).0,
            r.1 == fill_split(self@, width as int).1,
            r.0 <= width,
    {
        if width == 0 {
            return (0, 0);
        }
        let e: u128 = width as u128 * 8;
        let v = self.value as u128;
        let m = self.max as u128;
        assert(v * e <= m * e) by (nonlinear_arith) requires v <= m, e >= 0;
        assert(v * e <= 0x1_0000_0000_0000_0000 * 0x8_0000) by (nonlinear_arith)
            requires v < 0x1_0000_0000_0000_0000, e <= 0x8_0000;
        let fe = (v * e) / m;
        assert(fe <= e) by (nonlinear_arith) requires fe as int == (v as int * e as int) / (m as int), v <= m, m >= 1, e >= 0;
        let whole128 = fe / 8;
        let whole: u16 = if whole128 <= width as u128 { whole128 as u16 } else { width };
        (whole, (fe % 8) as u32)
    }

    /// The track drawn into a row of `width` cells.
    pub fn render(&self, width: usize, filled_attr: Attr, empty_attr: Attr) -> (buf: DrawBuffer)
        requires
            self.wf(),
        ensures
            buf.data@ == rendered(self@, width as int, filled_attr, empty_attr),
    {
        let mut buf = DrawBuffer::new(width);
        if width == 0 {
            assert(buf.data@ =~= rendered(self@, width as int, filled_attr, empty_attr));
            return buf;
        }
        let w = width as u16;
        buf.move_char(0, self.style.empty_char(), empty_attr, width);
        let filled: u16 = match self.mode {
            ProgressMode::Determinate => {
                let (whole, rem) = self.fill_split(w);
                if whole > 0 {
                    buf.move_char(0, self.style.filled_char(), filled_attr, whole as usize);
                }
                match self.style.partial_char(rem) {
                    Some(ch) => {
                        if whole < w {
                            buf.put_char(whole as usize, ch, filled_attr);
                        }
                    },
                    None => {},
                }
                whole
            },
            ProgressMode::Marquee => {
                let block = Self::marquee_width(w);
                let room = if w > block { w - block } else { 0 };
                let start = if self.marquee_pos <= room { self.marquee_pos } else { room };
                buf.move_char(start as usize, self.style.filled_char(), filled_attr, block as usize);
                0
            },
        };
        let ghost t = buf.data@;
        assert(t =~= track(self@, width as int, filled_attr, empty_attr).0);
        match self.caption_text() {
            Some(text) => {
                let chars = string_chars(&text);
                if chars.len() <= width {
                    let start = (width - chars.len()) / 2;
                    let mut i: usize = 0;
                    while i < chars.len()
                        invariant
                            chars@.len() <= width,
                            start == (width - chars@.len()) / 2,
                            i <= chars@.len(),
                            buf.data@.len() == width,
                            forall|j: int| 0 <= j < width ==> #[trigger] buf.data@[j] == (
                                if start <= j < start + i {
                                    glyph_cell(chars@[j - start], if ((j as u16) as int) < filled { filled_attr } else { empty_attr })
                                } else {
                                    t[j]
                                }),
                        decreases chars.len() - i,
                    {
                        let pos = start + i;
                        let attr = if (pos as u16) < filled { filled_attr } else { empty_attr };
                        let c: char = char_at(&chars, i);
                        buf.put_char(pos, c, attr);
                        i = i + 1;
                    }
                    assert(buf.data@ =~= rendered(self@, width as int, filled_attr, empty_attr));
                } else {
                    assert(buf.data@ =~= rendered(self@, width as int, filled_attr, empty_attr));
                }
            },
            None => {
                assert(buf.data@ =~= rendered(self@, width as int, filled_attr, empty_attr));
            },
        }
        buf
    }
}


/// Builder for progress bars.
pub struct ProgressBarBuilder {
    bounds: Option<Rect>,
    max: u64,
    mode: ProgressMode,
    style: ProgressStyle,
    caption: Caption,
}

/// The abstract state of a progress bar builder.
pub struct ProgressBuilderView {
    pub bounds: Option<Rect>,
    pub max: u64,
    pub mode: ProgressMode,
    pub style: ProgressStyle,
    pub caption: CaptionView,
}

impl View for ProgressBarBuilder {
    type V = ProgressBuilderView;

    closed spec fn view(&self) -> ProgressBuilderView {
        ProgressBuilderView {
            bounds: self.bounds,
            max: self.max,
            mode: self.mode,
            style: self.style,
            caption: self.caption@,
        }
    }
}

impl ProgressBarBuilder {
    pub fn new() -> (b: Self)
        ensures
            b@ == (ProgressBuilderView {
                bounds: None,
                max: 100,
                mode: ProgressMode::Determinate,
                style: ProgressStyle::Smooth,
                caption: CaptionView::Percent,
            }),
    {
        ProgressBarBuilder {
            bounds: None,
            max: 100,
            mode: ProgressMode::Determinate,
            style: ProgressStyle::Smooth,
            caption: Caption::Percent,
        }
    }

    pub fn bounds(self, bounds: Rect) -> (b: Self)
        ensures
            b@ == (ProgressBuilderView { bounds: Some(bounds), ..self@ }),
    {
        ProgressBarBuilder { bounds: Some(bounds), ..self }
    }

    pub fn max(self, max: u64) -> (b: Self)
        ensures
            b@ == (ProgressBuilderView { max: max, ..self@ }),
    {
        ProgressBarBuilder { max, ..self }
    }

    pub fn marquee(self) -> (b: Self)
        ensures
            b@ == (ProgressBuilderView { mode: ProgressMode::Marquee, ..self@ }),
    {
        ProgressBarBuilder { mode: ProgressMode::Marquee, ..self }
    }

    pub fn style(self, style: ProgressStyle) -> (b: Self)
        ensures
            b@ == (ProgressBuilderView { style: style, ..self@ }),
    {
        ProgressBarBuilder { style, ..self }
    }

    pub fn caption(self, text: &str) -> (b: Self)
        ensures
            b@ == (ProgressBuilderView { caption: CaptionView::Text(text@), ..self@ }),
    {
        let chars = str_chars(text);
        ProgressBarBuilder { caption: Caption::Text(string_from_chars(&chars)), ..self }
    }

    /// Show or hide the percentage overlay.
    pub fn show_percent(self, show: bool) -> (b: Self)
        ensures
            b@ == (ProgressBuilderView {
                caption: if show { CaptionView::Percent } else { CaptionView::Hidden },
                ..self@
            }),
    {
        ProgressBarBuilder { caption: if show { Caption::Percent } else { Caption::Hidden }, ..self }
    }

    pub fn no_caption(self) -> (b: Self)
        ensures
            b@ == (ProgressBuilderView { caption: CaptionView::Hidden, ..self@ }),
    {
        ProgressBarBuilder { caption: Caption::Hidden, ..self }
    }

    /// The configured bar; the bounds must have been set.
    pub fn build(self) -> (bar: ProgressBar)
        requires
            self@.bounds is Some,
        ensures
            bar.wf(),
            bar@.bounds == self@.bounds->0,
            bar@.value == 0,
            bar@.max == (if self@.max >= 1 { self@.max } else { 1 }),
            bar@.mode == self@.mode,
            bar@.style == self@.style,
            bar@.caption == self@.caption,
            bar@.marquee_pos == 0,
            bar@.marquee_forward,
    {
        let bounds = match self.bounds {
            Some(b) => b,
            None => Rect::new(0, 0, 0, 0),
        };
        let mut bar = ProgressBar::new(bounds, self.max);
        bar.mode = self.mode;
        bar.style = self.style;
        bar.caption = self.caption;
        bar
    }

    pub fn build_boxed(self) -> (bar: Box<ProgressBar>)
        requires
            self@.bounds is Some,
        ensures
            bar.wf(),
            bar@.bounds == self@.bounds->0,
            bar@.value == 0,
            bar@.max == (if self@.max >= 1 { self@.max } else { 1 }),
            bar@.mode == self@.mode,
            bar@.style == self@.style,
            bar@.caption == self@.caption,
            bar@.marquee_pos == 0,
            bar@.marquee_forward,
    {
        Box::new(self.build())
    }
}

} // verus!
