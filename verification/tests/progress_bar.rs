use turbo_vision::draw::Attr;
use turbo_vision::geometry::Rect;
use turbo_vision::views::progress_bar::{ProgressBar, ProgressBarBuilder, ProgressMode, ProgressStyle};

fn bar(width: i16, max: u64) -> ProgressBar {
    ProgressBar::new(Rect::new(0, 0, width, 1), max)
}

fn glyphs(b: &ProgressBar, width: usize) -> String {
    let attr = Attr::from_u8(0x07);
    let buf = b.render(width, attr, attr);
    buf.data.iter().map(|c| c.ch).collect::<String>()
}

#[test]
fn value_and_max_are_clamped() {
    let mut b = bar(10, 50);
    b.set_value(999);
    assert_eq!(b.value(), 50);
    b.set_max(10);
    assert_eq!(b.value(), 10, "value re-clamps when max shrinks");
}

#[test]
fn zero_max_does_not_divide_by_zero() {
    let b = bar(10, 0);
    assert_eq!(b.max(), 1);
    assert_eq!(b.percent(), 0);
}

#[test]
fn percent_truncates_instead_of_rounding_up() {
    let mut b = bar(10, 1000);
    b.set_value(999);
    assert_eq!(b.percent(), 99, "99.9% must not read as complete");
}

#[test]
fn advance_saturates() {
    let mut b = bar(10, 100);
    b.advance(u64::MAX);
    assert_eq!(b.value(), 100);
}

#[test]
fn determinate_fill_is_proportional() {
    let mut b = bar(10, 100);
    b.set_style(ProgressStyle::Ascii);
    b.hide_caption();
    b.set_value(30);
    assert_eq!(glyphs(&b, 10), "###-------");
    b.set_value(100);
    assert_eq!(glyphs(&b, 10), "##########");
}

#[test]
fn smooth_style_renders_a_partial_cell() {
    let mut b = bar(4, 8);
    b.hide_caption();
    b.set_value(3);
    let g = glyphs(&b, 4);
    assert_eq!(g.chars().next(), Some('\u{2588}'));
    assert_eq!(g.chars().nth(1), Some('\u{258C}'), "half-filled second cell");
}

#[test]
fn caption_is_centred_over_the_track() {
    let mut b = bar(10, 100);
    b.set_style(ProgressStyle::Ascii);
    b.set_value(0);
    assert_eq!(glyphs(&b, 10), "----0%----");
}

#[test]
fn marquee_has_no_percentage() {
    let mut b = bar(12, 100);
    b.set_mode(ProgressMode::Marquee);
    b.set_style(ProgressStyle::Ascii);
    b.set_value(50);
    assert_eq!(glyphs(&b, 12), "###---------", "block at the left edge");
}

#[test]
fn marquee_sweeps_and_reverses() {
    let mut b = bar(8, 100);
    b.set_mode(ProgressMode::Marquee);
    let span = 8 - ProgressBar::marquee_width(8);
    for _ in 0..span {
        b.tick();
    }
    assert_eq!(b.marquee_pos(), span, "reached the right end");
    b.tick();
    assert!(!b.marquee_forward(), "turned around");
    assert_eq!(b.marquee_pos(), span - 1);
    for _ in 0..span {
        b.tick();
    }
    assert!(b.marquee_forward(), "turned around again at the left");
}

#[test]
fn tick_is_inert_in_determinate_mode() {
    let mut b = bar(20, 100);
    b.tick();
    assert_eq!(b.marquee_pos(), 0);
}

#[test]
fn zero_width_renders_nothing() {
    let b = bar(0, 100);
    assert_eq!(glyphs(&b, 0), "");
}

#[test]
fn oversized_caption_is_dropped_rather_than_truncated() {
    let mut b = bar(4, 100);
    b.set_style(ProgressStyle::Ascii);
    b.set_caption("far too long");
    assert_eq!(glyphs(&b, 4), "----");
}

#[test]
fn percent_overlay_toggles() {
    let mut b = bar(10, 100);
    b.set_style(ProgressStyle::Ascii);
    assert!(b.is_percent_shown());
    b.set_show_percent(false);
    assert!(!b.is_percent_shown());
    assert_eq!(glyphs(&b, 10), "----------");
    b.set_show_percent(true);
    assert_eq!(glyphs(&b, 10), "----0%----");
}

#[test]
fn disabling_percent_leaves_a_fixed_caption_alone() {
    let mut b = bar(10, 100);
    b.set_style(ProgressStyle::Ascii);
    b.set_caption("Busy");
    b.set_show_percent(false);
    assert_eq!(b.caption_text().as_deref(), Some("Busy"));
}

#[test]
fn builder_can_suppress_the_percentage() {
    let b = ProgressBarBuilder::new()
        .bounds(Rect::new(0, 0, 10, 1))
        .show_percent(false)
        .build();
    assert!(!b.is_percent_shown());
    assert_eq!(b.caption_text(), None);
}

#[test]
fn builder_configures_the_bar() {
    let b = ProgressBarBuilder::new()
        .bounds(Rect::new(0, 0, 10, 1))
        .max(7)
        .style(ProgressStyle::Ascii)
        .caption("Loading")
        .build();
    assert_eq!(b.max(), 7);
    assert_eq!(b.caption_text().as_deref(), Some("Loading"));
}

#[test]
fn idle_steps_the_marquee_once_the_tick_interval_passed() {
    let mut b = bar(8, 100);
    assert!(!b.idle(std::time::Duration::from_millis(500)), "determinate bars stay");
    b.set_mode(ProgressMode::Marquee);
    assert_eq!(b.tick_interval(), std::time::Duration::from_millis(80));
    assert!(!b.idle(std::time::Duration::from_millis(79)));
    assert_eq!(b.marquee_pos(), 0);
    assert!(b.idle(std::time::Duration::from_millis(80)));
    assert_eq!(b.marquee_pos(), 1);
}
