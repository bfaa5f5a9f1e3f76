use turbo_vision::event::{Event, EventType, KB_DOWN, KB_END, KB_ENTER, KB_HOME, KB_SPACE, KB_TAB, KM_ALT, MB_LEFT_BUTTON};
use turbo_vision::geometry::{Point, Rect};
use turbo_vision::state::SF_FOCUSED;
use turbo_vision::views::cluster_group::{parse_label, CheckBoxes, RadioButtons, MAX_CLUSTER_ITEMS};

fn labels() -> Vec<String> {
    vec!["~B~old".into(), "~I~talic".into(), "~U~nderline".into()]
}

fn boxes() -> CheckBoxes {
    let mut c = CheckBoxes::new(Rect::new(0, 0, 20, 3), labels());
    c.set_state(SF_FOCUSED);
    c
}

fn radios() -> RadioButtons {
    let mut r = RadioButtons::new(Rect::new(0, 0, 20, 3), labels());
    r.set_state(SF_FOCUSED);
    r
}

fn key(code: u16) -> Event {
    Event::keyboard(code)
}

fn alt(letter: char) -> Event {
    let mut e = Event::keyboard(letter as u16);
    e.key_modifiers = KM_ALT;
    e
}

fn click(row: i16) -> Event {
    let mut e = Event::nothing();
    e.what = EventType::MouseDown;
    e.mouse.buttons = MB_LEFT_BUTTON;
    e.mouse.pos = Point::new(1, row);
    e
}

#[test]
fn labels_lose_their_tilde_markers() {
    let item = parse_label("~B~old");
    assert_eq!(item.label, "Bold");
    assert_eq!(item.hotkey, Some('b'));
    assert_eq!(item.hotkey_pos, Some(0));
}

#[test]
fn a_label_without_tildes_has_no_hotkey() {
    let item = parse_label("Plain");
    assert_eq!(item.label, "Plain");
    assert_eq!(item.hotkey, None);
}

#[test]
fn check_boxes_start_empty() {
    let c = boxes();
    assert_eq!(c.value(), 0);
    assert_eq!(c.checked_items(), Vec::<usize>::new());
}

#[test]
fn each_box_owns_one_bit() {
    let mut c = boxes();
    c.set_checked(0, true);
    c.set_checked(2, true);
    assert_eq!(c.value(), 0b101);
    assert_eq!(c.checked_items(), vec![0, 2]);
    assert!(c.is_checked(0));
    assert!(!c.is_checked(1));
}

#[test]
fn space_toggles_the_focused_box() {
    let mut c = boxes();
    let mut e = key(KB_SPACE);
    c.handle_event(&mut e);
    assert_eq!(c.value(), 0b001);
    let mut e = key(KB_SPACE);
    c.handle_event(&mut e);
    assert_eq!(c.value(), 0, "toggled back off");
}

#[test]
fn arrows_move_within_the_cluster() {
    let mut c = boxes();
    c.handle_event(&mut key(KB_DOWN));
    assert_eq!(c.focused_item(), 1);
    c.handle_event(&mut key(KB_SPACE));
    assert_eq!(c.value(), 0b010, "the second box, not the first");

    for _ in 0..5 {
        c.handle_event(&mut key(KB_DOWN));
    }
    assert_eq!(c.focused_item(), 2, "clamped at the last item");
}

#[test]
fn home_and_end_jump_within_the_cluster() {
    let mut c = boxes();
    c.handle_event(&mut key(KB_END));
    assert_eq!(c.focused_item(), 2);
    c.handle_event(&mut key(KB_HOME));
    assert_eq!(c.focused_item(), 0);
}

#[test]
fn tab_and_enter_are_left_for_the_dialog() {
    let mut c = boxes();
    for code in [KB_TAB, KB_ENTER] {
        let mut e = key(code);
        c.handle_event(&mut e);
        assert_eq!(e.what, EventType::Keyboard, "key {code:#x} must pass through");
    }
}

#[test]
fn hotkeys_work_without_the_focus() {
    let mut c = CheckBoxes::new(Rect::new(0, 0, 20, 3), labels());
    let mut e = alt('u');
    c.handle_event(&mut e);
    assert_eq!(c.value(), 0b100, "Alt+U ticked Underline");
    assert_eq!(e.what, EventType::Nothing);
}

#[test]
fn an_unknown_hotkey_passes_through() {
    let mut c = boxes();
    let mut e = alt('z');
    c.handle_event(&mut e);
    assert_eq!(c.value(), 0);
    assert_eq!(e.what, EventType::Keyboard);
}

#[test]
fn clicking_a_row_toggles_that_item() {
    let mut c = boxes();
    c.handle_event(&mut click(1));
    assert_eq!(c.value(), 0b010);
    assert_eq!(c.focused_item(), 1, "the click also moved the focus");
}

#[test]
fn clicking_past_the_last_item_does_nothing() {
    let mut c = boxes();
    let mut e = click(2);
    e.mouse.pos = Point::new(1, 9);
    c.handle_event(&mut e);
    assert_eq!(c.value(), 0);
}

#[test]
fn disabled_items_cannot_be_chosen() {
    let mut c = boxes();
    c.set_enabled(1, false);
    assert!(!c.is_enabled(1));
    c.handle_event(&mut click(1));
    assert_eq!(c.value(), 0);
    c.handle_event(&mut alt('i'));
    assert_eq!(c.value(), 0);
}

#[test]
fn on_change_broadcasts_only_on_a_real_change() {
    let mut c = boxes();
    c.set_on_change(321);
    let mut e = key(KB_SPACE);
    c.handle_event(&mut e);
    assert_eq!(e.what, EventType::Broadcast);
    assert_eq!(e.command, 321);

    c.set_enabled(0, false);
    let mut e = key(KB_SPACE);
    c.handle_event(&mut e);
    assert_eq!(e.what, EventType::Nothing, "disabled, so nothing changed");
}

#[test]
fn setting_the_value_drops_bits_past_the_last_item() {
    let mut c = boxes();
    c.set_value(0xFFFF);
    assert_eq!(c.value(), 0b111, "three items, three bits");
}

#[test]
fn shrinking_the_label_list_drops_stale_bits() {
    let mut c = boxes();
    c.set_value(0b111);
    c.set_labels(vec!["only".into()]);
    assert_eq!(c.value(), 0b1);
    assert_eq!(c.focused_item(), 0);
}

#[test]
fn a_cluster_is_capped_at_the_value_width() {
    let many: Vec<String> = (0..40).map(|i| format!("item{i}")).collect();
    let c = CheckBoxes::new(Rect::new(0, 0, 20, 40), many);
    assert_eq!(c.item_count(), MAX_CLUSTER_ITEMS);
}

#[test]
fn a_radio_cluster_starts_on_its_first_button() {
    let r = radios();
    assert_eq!(r.selected(), Some(0));
    assert_eq!(r.selected_label(), Some("Bold"));
    assert_eq!(r.value(), 0b001);
}

#[test]
fn an_empty_radio_cluster_has_no_selection() {
    let r = RadioButtons::new(Rect::new(0, 0, 20, 3), vec![]);
    assert_eq!(r.selected(), None);
}

#[test]
fn selecting_a_radio_button_clears_the_others() {
    let mut r = radios();
    r.set_selected(2);
    assert_eq!(r.value(), 0b100, "exactly one bit");
    assert_eq!(r.selected(), Some(2));
}

#[test]
fn space_selects_rather_than_toggles() {
    let mut r = radios();
    r.handle_event(&mut key(KB_DOWN));
    r.handle_event(&mut key(KB_SPACE));
    assert_eq!(r.selected(), Some(1));
    r.handle_event(&mut key(KB_SPACE));
    assert_eq!(r.selected(), Some(1));
}

#[test]
fn a_radio_hotkey_selects_its_button() {
    let mut r = radios();
    r.handle_event(&mut alt('u'));
    assert_eq!(r.selected(), Some(2));
}

#[test]
fn shrinking_a_radio_cluster_keeps_something_selected() {
    let mut r = radios();
    r.set_selected(2);
    r.set_labels(vec!["one".into(), "two".into()]);
    assert_eq!(r.selected(), Some(0), "the stale bit fell away");
}

#[test]
fn a_radio_cluster_keeps_one_button_chosen() {
    let mut r = RadioButtons::new(Rect::new(0, 0, 20, 3), labels());
    r.set_selected(2);
    assert_eq!(r.value(), 0b100);
    assert_eq!(r.selected(), Some(2));
    r.set_value(0);
    assert_eq!(r.selected(), Some(2));
    assert_eq!(r.selected_label(), Some("Underline"));
    r.set_value(0b110);
    assert_eq!(r.value(), 0b010);
    assert_eq!(r.selected(), Some(1));
    r.set_value(0b1000);
    assert_eq!(r.selected(), Some(1));
    r.set_selected(7);
    assert_eq!(r.selected(), Some(1));
}

#[test]
fn no_box_past_the_last_is_ticked() {
    let mut c = CheckBoxes::new(Rect::new(0, 0, 20, 3), labels());
    c.set_value(0xFFFF_FFFF);
    assert_eq!(c.value(), 0b111);
    assert_eq!(c.checked_items(), vec![0, 1, 2]);
    assert_eq!(c.value().count_ones() as usize, c.checked_items().len());
}

#[test]
fn an_unterminated_tilde_marks_no_hotkey() {
    let item = parse_label("~Bold");
    assert_eq!(item.label, "Bold");
    assert_eq!(item.hotkey, None);
    assert_eq!(item.hotkey_pos, None);
    let item = parse_label("~ab~c~");
    assert_eq!(item.label, "abc");
    assert_eq!(item.hotkey, Some('c'));
    assert_eq!(item.hotkey_pos, Some(2));
}
