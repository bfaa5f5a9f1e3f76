use turbo_vision::event::{Event, EventType, KB_SPACE, KM_SHIFT, MB_LEFT_BUTTON};
use turbo_vision::geometry::{Point, Rect};
use turbo_vision::state::SF_FOCUSED;
use turbo_vision::views::listbox::ListBox;

#[test]
fn test_listbox_creation() {
    let listbox = ListBox::new(Rect::new(0, 0, 20, 10), 1000);
    assert_eq!(listbox.item_count(), 0);
    assert_eq!(listbox.get_selection(), None);
}

#[test]
fn test_listbox_add_items() {
    let mut listbox = ListBox::new(Rect::new(0, 0, 20, 10), 1000);
    listbox.add_item("Item 1".to_string());
    listbox.add_item("Item 2".to_string());
    listbox.add_item("Item 3".to_string());

    assert_eq!(listbox.item_count(), 3);
    assert_eq!(listbox.get_selection(), Some(0));
    assert_eq!(listbox.get_selected_item(), Some("Item 1"));
}

#[test]
fn test_listbox_set_items() {
    let mut listbox = ListBox::new(Rect::new(0, 0, 20, 10), 1000);
    let items = vec!["Alpha".to_string(), "Beta".to_string(), "Gamma".to_string()];
    listbox.set_items(items);

    assert_eq!(listbox.item_count(), 3);
    assert_eq!(listbox.get_selection(), Some(0));
}

#[test]
fn test_listbox_navigation() {
    let mut listbox = ListBox::new(Rect::new(0, 0, 20, 10), 1000);
    listbox.set_items(vec![
        "Item 1".to_string(),
        "Item 2".to_string(),
        "Item 3".to_string(),
    ]);

    assert_eq!(listbox.get_selection(), Some(0));

    listbox.select_next();
    assert_eq!(listbox.get_selection(), Some(1));

    listbox.select_next();
    assert_eq!(listbox.get_selection(), Some(2));

    listbox.select_next(); // Should stay at 2 (last item)
    assert_eq!(listbox.get_selection(), Some(2));

    listbox.select_prev();
    assert_eq!(listbox.get_selection(), Some(1));

    listbox.select_first();
    assert_eq!(listbox.get_selection(), Some(0));

    listbox.select_last();
    assert_eq!(listbox.get_selection(), Some(2));
}

#[test]
fn test_listbox_set_selection() {
    let mut listbox = ListBox::new(Rect::new(0, 0, 20, 10), 1000);
    listbox.set_items(vec![
        "A".to_string(),
        "B".to_string(),
        "C".to_string(),
        "D".to_string(),
    ]);

    listbox.set_selection(2);
    assert_eq!(listbox.get_selection(), Some(2));
    assert_eq!(listbox.get_selected_item(), Some("C"));

    listbox.set_selection(10); // Out of bounds, should be ignored
    assert_eq!(listbox.get_selection(), Some(2)); // Should not change
}

#[test]
fn test_listbox_clear() {
    let mut listbox = ListBox::new(Rect::new(0, 0, 20, 10), 1000);
    listbox.set_items(vec!["Item 1".to_string(), "Item 2".to_string()]);
    assert_eq!(listbox.item_count(), 2);

    listbox.clear();
    assert_eq!(listbox.item_count(), 0);
    assert_eq!(listbox.get_selection(), None);
}

// --- Multi-select ---------------------------------------------------

fn multi_list() -> ListBox {
    let mut lb = ListBox::new(Rect::new(0, 0, 20, 5), 1000);
    lb.set_items((0..8).map(|i| format!("item{i}")).collect());
    lb.set_multi_select(true);
    lb.set_state(SF_FOCUSED);
    lb
}

fn space(lb: &mut ListBox) {
    let mut e = Event::keyboard(KB_SPACE);
    lb.handle_event(&mut e);
}

fn shift_click(lb: &mut ListBox, row: i16) {
    let mut e = Event::nothing();
    e.what = EventType::MouseDown;
    e.mouse.buttons = MB_LEFT_BUTTON;
    e.mouse.pos = Point::new(1, row);
    e.key_modifiers = KM_SHIFT;
    lb.handle_event(&mut e);
}

#[test]
fn multi_select_is_off_by_default() {
    let lb = ListBox::new(Rect::new(0, 0, 20, 5), 1000);
    assert!(!lb.is_multi_select());
}

#[test]
fn space_toggles_the_focused_mark() {
    let mut lb = multi_list();
    lb.set_selection(2);
    space(&mut lb);
    assert!(lb.is_marked(2));
    assert_eq!(lb.marked_items(), vec![2]);
    space(&mut lb);
    assert!(!lb.is_marked(2));
    assert_eq!(lb.marked_count(), 0);
}

#[test]
fn space_does_nothing_in_single_select_mode() {
    let mut lb = multi_list();
    lb.set_multi_select(false);
    lb.set_selection(2);
    space(&mut lb);
    assert_eq!(lb.marked_count(), 0);
}

#[test]
fn marks_come_back_in_list_order() {
    let mut lb = multi_list();
    for i in [5, 1, 3] {
        lb.set_marked(i, true);
    }
    assert_eq!(lb.marked_items(), vec![1, 3, 5]);
    assert_eq!(lb.marked_text(), vec!["item1", "item3", "item5"]);
}

#[test]
fn marking_out_of_range_is_ignored() {
    let mut lb = multi_list();
    lb.set_marked(99, true);
    assert_eq!(lb.marked_count(), 0);
}

#[test]
fn shift_click_marks_the_run_from_the_anchor() {
    let mut lb = multi_list();
    lb.set_selection(1);
    space(&mut lb); // marks 1 and anchors there
    shift_click(&mut lb, 4); // row 4 is item 4, the list is not scrolled
    assert_eq!(lb.marked_items(), vec![1, 2, 3, 4]);
}

#[test]
fn shift_click_backwards_marks_the_same_run() {
    let mut lb = multi_list();
    lb.set_selection(4);
    space(&mut lb);
    shift_click(&mut lb, 1);
    assert_eq!(lb.marked_items(), vec![1, 2, 3, 4]);
}

#[test]
fn shift_click_leaves_marks_outside_the_run_alone() {
    let mut lb = multi_list();
    lb.set_marked(7, true);
    lb.set_selection(1);
    space(&mut lb);
    shift_click(&mut lb, 3);
    assert_eq!(lb.marked_items(), vec![1, 2, 3, 7]);
}

#[test]
fn mark_all_and_clear_marks() {
    let mut lb = multi_list();
    lb.mark_all();
    assert_eq!(lb.marked_count(), 8);
    lb.clear_marks();
    assert_eq!(lb.marked_count(), 0);
}

#[test]
fn replacing_the_items_drops_stale_marks() {
    let mut lb = multi_list();
    lb.mark_all();
    lb.set_items(vec!["one".into(), "two".into()]);
    assert_eq!(
        lb.marked_count(),
        0,
        "old indices mean nothing in the new list"
    );
}

#[test]
fn turning_multi_select_off_drops_the_marks() {
    let mut lb = multi_list();
    lb.mark_all();
    lb.set_multi_select(false);
    assert_eq!(lb.marked_count(), 0);
}

#[test]
fn is_selected_follows_the_marks_only_in_multi_select() {
    let mut lb = multi_list();
    lb.set_selection(0);
    lb.set_marked(3, true);
    assert!(lb.is_selected(3), "marked");
    assert!(!lb.is_selected(0), "focused but not marked");

    lb.set_multi_select(false);
    assert!(lb.is_selected(0), "back to meaning focused");
}

#[test]
fn the_focus_still_moves_independently_of_the_marks() {
    let mut lb = multi_list();
    lb.set_selection(2);
    space(&mut lb);
    lb.select_next();
    assert_eq!(lb.get_selection(), Some(3));
    assert_eq!(lb.marked_items(), vec![2], "the mark stayed put");
}
