use turbo_vision::command::CM_SHOW_DROPDOWN;
use turbo_vision::event::{Event, EventType, KB_DOWN, KB_END, KB_F4, KB_HOME, KB_UP};
use turbo_vision::geometry::{Point, Rect};
use turbo_vision::state::SF_FOCUSED;
use turbo_vision::views::combo_box::{ComboBox, DropdownWindow, MAX_DROPDOWN_ROWS};

fn combo(id: u16) -> ComboBox {
    ComboBox::with_items(
        Rect::new(0, 0, 20, 1),
        id,
        vec!["one".into(), "two".into(), "three".into()],
    )
}

fn key(code: u16) -> Event {
    Event::keyboard(code)
}

#[test]
fn first_item_is_selected_by_default() {
    let c = combo(900);
    assert_eq!(c.selected(), Some(0));
    assert_eq!(c.selected_text().as_deref(), Some("one"));
}

#[test]
fn empty_combo_has_no_selection() {
    let c = ComboBox::new(Rect::new(0, 0, 10, 1), 901);
    assert_eq!(c.selected(), None);
    assert_eq!(c.selected_text(), None);
}

#[test]
fn out_of_range_selection_is_ignored() {
    let mut c = combo(902);
    c.set_selected(Some(99));
    assert_eq!(
        c.selected(),
        Some(0),
        "stale index must not move the choice"
    );
}

#[test]
fn shrinking_the_item_list_clamps_the_choice() {
    let mut c = combo(903);
    c.set_selected(Some(2));
    c.set_items(vec!["only".into()]);
    assert_eq!(c.selected(), Some(0));
}

#[test]
fn arrows_step_the_choice_and_clamp() {
    let mut c = combo(904);
    c.set_state(SF_FOCUSED);
    let mut e = key(KB_DOWN);
    c.handle_event(&mut e);
    assert_eq!(c.selected(), Some(1));
    for _ in 0..5 {
        let mut e = key(KB_DOWN);
        c.handle_event(&mut e);
    }
    assert_eq!(c.selected(), Some(2), "clamped at the last item");
    let mut e = key(KB_UP);
    c.handle_event(&mut e);
    assert_eq!(c.selected(), Some(1));
}

#[test]
fn home_and_end_jump_to_the_ends() {
    let mut c = combo(905);
    c.set_state(SF_FOCUSED);
    let mut e = key(KB_END);
    c.handle_event(&mut e);
    assert_eq!(c.selected(), Some(2));
    let mut e = key(KB_HOME);
    c.handle_event(&mut e);
    assert_eq!(c.selected(), Some(0));
}

#[test]
fn f4_asks_the_dialog_to_open_the_list() {
    let mut c = combo(906);
    c.set_state(SF_FOCUSED);
    let mut e = key(KB_F4);
    c.handle_event(&mut e);
    assert_eq!(e.what, EventType::Command);
    assert_eq!(e.command, CM_SHOW_DROPDOWN);
    assert_eq!(e.info, 906, "the popup is told which combo asked");
}

#[test]
fn a_click_opens_the_list_even_when_unfocused() {
    let mut c = combo(907);
    let mut e = Event::nothing();
    e.what = EventType::MouseDown;
    e.mouse.pos = Point::new(3, 0);
    c.handle_event(&mut e);
    assert_eq!(e.command, CM_SHOW_DROPDOWN);
}

#[test]
fn keys_are_ignored_when_not_focused() {
    let mut c = combo(908);
    let mut e = key(KB_DOWN);
    c.handle_event(&mut e);
    assert_eq!(c.selected(), Some(0));
    assert_eq!(e.what, EventType::Keyboard, "event left for other views");
}

#[test]
fn on_change_command_is_broadcast_when_the_choice_moves() {
    let mut c = combo(909);
    c.set_state(SF_FOCUSED);
    c.set_on_change(777);
    let mut e = key(KB_DOWN);
    c.handle_event(&mut e);
    assert_eq!(e.what, EventType::Broadcast);
    assert_eq!(e.command, 777);

    // Already at the last item: no change, so no broadcast.
    c.set_selected(Some(2));
    let mut e = key(KB_DOWN);
    c.handle_event(&mut e);
    assert_eq!(e.what, EventType::Nothing);
}

#[test]
fn moving_the_control_moves_the_popup_anchor() {
    let mut c = combo(911);
    c.set_bounds(Rect::new(5, 9, 25, 10));
    assert_eq!(c.state().field, Rect::new(5, 9, 25, 10));
}

#[test]
fn popup_sits_under_the_field() {
    let c = combo(912);
    let screen = Rect::new(0, 0, 80, 25);
    let popup = DropdownWindow::new(c.state(), screen);
    assert_eq!(popup.bounds().a, Point::new(0, 1), "just below");
    assert_eq!(popup.visible_rows(), 3, "one row per item");
}

#[test]
fn popup_flips_above_a_field_near_the_bottom() {
    let mut c = combo(913);
    c.set_bounds(Rect::new(0, 23, 20, 24));
    let screen = Rect::new(0, 0, 80, 25);
    let popup = DropdownWindow::new(c.state(), screen);
    assert!(
        popup.bounds().b.y <= 23,
        "popup must not run off the bottom: {:?}",
        popup.bounds()
    );
}

#[test]
fn popup_height_is_capped_for_long_lists() {
    let mut c = combo(914);
    c.set_items((0..50).map(|i| format!("item {i}")).collect());
    let popup = DropdownWindow::new(c.state(), Rect::new(0, 0, 80, 25));
    assert_eq!(popup.visible_rows(), MAX_DROPDOWN_ROWS as usize);
}

#[test]
fn popup_scrolls_to_keep_the_cursor_visible() {
    let mut c = combo(915);
    c.set_items((0..20).map(|i| format!("item {i}")).collect());
    let mut popup = DropdownWindow::new(c.state(), Rect::new(0, 0, 80, 25));
    popup.move_cursor(15);
    assert!(popup.top() > 0, "list scrolled");
    assert!(popup.cursor() >= popup.top() && popup.cursor() < popup.top() + popup.visible_rows());
}

#[test]
fn popup_commit_writes_the_choice_back() {
    let mut c = combo(916);
    let mut popup = DropdownWindow::new(c.state(), Rect::new(0, 0, 80, 25));
    popup.move_cursor(2);
    assert_eq!(popup.commit(c.state_mut()), Some(2));
    assert_eq!(c.selected(), Some(2));
}

#[test]
fn popup_click_maps_to_the_right_item() {
    let c = combo(917);
    let popup = DropdownWindow::new(c.state(), Rect::new(0, 0, 80, 25));
    let inside = Point::new(popup.list_rect().a.x, popup.list_rect().a.y + 1);
    assert_eq!(popup.item_at(inside), Some(1));
    assert_eq!(popup.item_at(Point::new(0, 0)), None, "outside the list");
}
