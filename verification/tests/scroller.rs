use turbo_vision::draw::Attr;
use turbo_vision::views::scrollbar::ScrollBar;
use turbo_vision::geometry::{Point, Rect};
use turbo_vision::views::scroller::Scroller;

#[test]
fn test_scroller_scroll_to() {
    let scroller = Scroller::new(Rect::new(0, 0, 80, 25), None, None);
    let mut scroller = scroller;
    scroller.set_limit(100, 100);

    scroller.scroll_to(10, 20);
    assert_eq!(scroller.get_delta(), Point::new(10, 20));

    // Test clamping to limit
    scroller.scroll_to(150, 150);
    assert_eq!(scroller.get_delta(), Point::new(100, 100));

    // Test clamping to zero
    scroller.scroll_to(-10, -10);
    assert_eq!(scroller.get_delta(), Point::new(0, 0));
}

#[test]
fn test_scroller_set_limit() {
    let scroller = Scroller::new(Rect::new(0, 0, 80, 25), None, None);
    let mut scroller = scroller;

    // First set a large limit
    scroller.set_limit(100, 100);
    scroller.scroll_to(50, 50);
    assert_eq!(scroller.get_delta(), Point::new(50, 50));

    // Reducing limit should clamp delta
    scroller.set_limit(30, 30);
    assert_eq!(scroller.get_delta(), Point::new(30, 30));
    assert_eq!(scroller.get_limit(), Point::new(30, 30));
}

#[test]
fn the_bars_are_drawn_horizontal_first() {
    let h = ScrollBar::new_horizontal(Rect::new(0, 10, 6, 11));
    let v = ScrollBar::new_vertical(Rect::new(20, 0, 21, 4));
    let s = Scroller::new(Rect::new(0, 0, 20, 10), Some(Box::new(h)), Some(Box::new(v)));
    let lines = s.draw_scrollbars(Attr::from_u8(0x10), Attr::from_u8(0x20));
    assert_eq!(lines.len(), 5);
    assert_eq!((lines[0].x, lines[0].y), (0, 10));
    assert_eq!(lines[0].buf.data.len(), 6);
    assert_eq!((lines[1].x, lines[1].y), (20, 0));
    assert_eq!((lines[4].x, lines[4].y), (20, 3));
    let none = Scroller::new(Rect::new(0, 0, 20, 10), None, None);
    assert!(none.draw_scrollbars(Attr::from_u8(0x10), Attr::from_u8(0x20)).is_empty());
}
