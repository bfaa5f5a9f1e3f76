use turbo_vision::event::{Event, EventType, MB_LEFT_BUTTON};
use turbo_vision::geometry::{Point, Rect};
use turbo_vision::state::{OF_CENTERED, OF_CENTER_X, OF_TOP_SELECT, SF_CLOSED, SF_FOCUSED, SF_MODAL};
use turbo_vision::views::desktop::{Desktop, DesktopRoute};
use turbo_vision::views::group::ChildInfo;

fn window(ax: i16, ay: i16, bx: i16, by: i16) -> ChildInfo {
    let mut c = ChildInfo::new(Rect::new(ax, ay, bx, by), true);
    c.options = OF_TOP_SELECT;
    c
}

#[test]
fn a_new_desktop_holds_only_its_background() {
    let d = Desktop::new(Rect::new(0, 1, 80, 24));
    assert_eq!(d.child_count(), 0);
    assert_eq!(d.get_bounds(), Rect::new(0, 1, 80, 24));
    assert_eq!(d.background().bounds(), Rect::new(0, 0, 80, 23));
}

#[test]
fn an_added_window_is_counted_and_focused() {
    let mut d = Desktop::new(Rect::new(0, 0, 80, 25));
    d.add(window(1, 1, 20, 10));
    let id2 = d.add(window(5, 5, 30, 15));
    assert_eq!(d.child_count(), 2);
    assert_eq!(d.child_at(1).id, id2);
    assert!(d.child_at(1).state & SF_FOCUSED != 0);
    assert!(d.child_at(0).state & SF_FOCUSED == 0);
}

#[test]
fn a_centered_window_is_placed_in_the_middle() {
    let mut d = Desktop::new(Rect::new(0, 0, 80, 25));
    let mut c = window(0, 0, 20, 10);
    c.options |= OF_CENTERED;
    d.add(c);
    assert_eq!(d.child_at(0).bounds, Rect::new(30, 7, 50, 17));

    // Only horizontally; a window wider than the desktop goes left of 0,
    // the half rounded toward zero.
    let mut c = window(3, 4, 85, 9);
    c.options = OF_CENTER_X;
    d.add(c);
    assert_eq!(d.child_at(1).bounds, Rect::new(-1, 4, 81, 9));
}

#[test]
fn select_next_and_select_prev_cycle_the_windows() {
    let mut d = Desktop::new(Rect::new(0, 0, 80, 25));
    let a = d.add(window(0, 0, 10, 10));
    let b = d.add(window(5, 5, 15, 15));
    let c = d.add(window(10, 10, 20, 20));

    d.select_next();
    assert_eq!(d.child_at(0).id, c);
    assert_eq!(d.child_at(1).id, a);
    assert_eq!(d.child_at(2).id, b);

    d.select_prev();
    assert_eq!(d.child_at(0).id, a);
    assert_eq!(d.child_at(1).id, b);
    assert_eq!(d.child_at(2).id, c);
}

#[test]
fn one_window_does_not_cycle() {
    let mut d = Desktop::new(Rect::new(0, 0, 80, 25));
    let a = d.add(window(0, 0, 10, 10));
    d.select_next();
    d.select_prev();
    assert_eq!(d.child_count(), 1);
    assert_eq!(d.child_at(0).id, a);
}

#[test]
fn closed_windows_are_removed_and_the_background_stays() {
    let mut d = Desktop::new(Rect::new(0, 0, 80, 25));
    let a = d.add(window(0, 0, 10, 10));
    d.add(window(5, 5, 15, 15));
    let c = d.add(window(10, 10, 20, 20));
    assert!(!d.remove_closed_windows());

    let mut closed = *d.child_at(1);
    closed.state |= SF_CLOSED;
    assert!(d.window_at_mut(1, closed));
    assert!(!d.window_at_mut(7, closed));

    assert!(d.remove_closed_windows());
    assert_eq!(d.child_count(), 2);
    assert_eq!(d.child_at(0).id, a);
    assert_eq!(d.child_at(1).id, c);
}

#[test]
fn a_click_raises_the_window_under_it() {
    let mut d = Desktop::new(Rect::new(0, 0, 80, 25));
    let a = d.add(window(0, 0, 10, 10));
    let b = d.add(window(20, 0, 30, 10));
    let e = Event::mouse(EventType::MouseDown, Point::new(2, 2), MB_LEFT_BUTTON, false);
    assert_eq!(d.handle_event(&e), DesktopRoute::Children);
    assert_eq!(d.child_at(0).id, b);
    assert_eq!(d.child_at(1).id, a);

    // A click on the background raises nothing.
    let e = Event::mouse(EventType::MouseDown, Point::new(50, 20), MB_LEFT_BUTTON, false);
    d.handle_event(&e);
    assert_eq!(d.child_at(1).id, a);
}

#[test]
fn a_modal_window_takes_every_event() {
    let mut d = Desktop::new(Rect::new(0, 0, 80, 25));
    let a = d.add(window(0, 0, 10, 10));
    let mut m = window(20, 0, 30, 10);
    m.state = SF_MODAL;
    d.add(m);
    let e = Event::mouse(EventType::MouseDown, Point::new(2, 2), MB_LEFT_BUTTON, false);
    assert_eq!(d.handle_event(&e), DesktopRoute::Modal(2));
    assert_eq!(d.child_at(0).id, a);
}

#[test]
fn moved_windows_are_redrawn_from_their_place() {
    let mut d = Desktop::new(Rect::new(0, 0, 80, 25));
    d.add(window(0, 0, 10, 10));
    d.add(window(20, 0, 30, 10));
    let r = Rect::new(18, 0, 32, 10);
    let redraws = d.handle_moved_windows(&vec![None, None, Some(r)]);
    assert_eq!(redraws, vec![(r, 1)]);

    // The background first, then the windows from the given one on that meet the area.
    assert_eq!(d.draw_under_rect(r, 0), vec![0, 2]);
    assert_eq!(d.draw_under_rect(Rect::new(0, 0, 80, 25), 0), vec![0, 1, 2]);
}

#[test]
fn remove_child_skips_the_background() {
    let mut d = Desktop::new(Rect::new(0, 0, 80, 25));
    d.add(window(0, 0, 10, 10));
    let b = d.add(window(20, 0, 30, 10));
    d.remove_child(0);
    assert_eq!(d.child_count(), 1);
    assert_eq!(d.child_at(0).id, b);
    d.remove_child(5);
    assert_eq!(d.child_count(), 1);
}
