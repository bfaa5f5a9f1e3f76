use turbo_vision::command::CM_SHOW_HISTORY;
use turbo_vision::event::{Event, EventType, KB_DOWN, KB_ENTER, KB_ESC, MB_LEFT_BUTTON};
use turbo_vision::geometry::Point;
use turbo_vision::views::handle::{Handle, ViewId};
use turbo_vision::views::history::{apply_history_selection, record_history, record_linked_inputs, History, HistoryManager};
use turbo_vision::views::history_window::{HistoryStep, HistoryWindow};
use turbo_vision::views::input_line::InputLine;

fn link() -> Handle<InputLine> {
    Handle::from_id(ViewId::from_u16(7))
}

#[test]
fn test_history_button_creation() {
    let mut manager = HistoryManager::new();
    manager.clear_all();
    let button = History::new(Point::new(20, 5), 1, link());
    assert!(!button.has_items(&manager));
    assert_eq!(button.bounds().width(), 2);
}

#[test]
fn test_history_button_with_items() {
    let mut manager = HistoryManager::new();
    manager.add(2, "test");
    let button = History::new(Point::new(20, 5), 2, link());
    assert!(button.has_items(&manager));
}

#[test]
fn record_history_in_records_the_linked_input_text() {
    let mut manager = HistoryManager::new();
    record_history(&mut manager, 3, "hello world");
    assert_eq!(manager.get_list(3), vec!["hello world".to_string()]);
    record_history(&mut manager, 3, "");
    assert_eq!(manager.count(3), 1);
}

#[test]
fn test_click_converts_to_show_history_command() {
    let mut manager = HistoryManager::new();
    manager.add(4, "entry");
    let button = History::new(Point::new(20, 5), 4, link());
    let mut event = Event::mouse(EventType::MouseDown, Point::new(20, 5), MB_LEFT_BUTTON, false);
    button.handle_event(&mut event, &manager);
    assert_eq!(event.what, EventType::Command);
    assert_eq!(event.command, CM_SHOW_HISTORY);
    assert_eq!(event.info, 4);
    assert_eq!(event.mouse.pos, Point::new(20, 5));
}

#[test]
fn test_click_with_empty_history_is_consumed() {
    let manager = HistoryManager::new();
    let button = History::new(Point::new(20, 5), 5, link());
    let mut event = Event::mouse(EventType::MouseDown, Point::new(21, 5), MB_LEFT_BUTTON, false);
    button.handle_event(&mut event, &manager);
    assert_eq!(event.what, EventType::Nothing);
}

#[test]
fn lists_are_kept_apart() {
    let mut manager = HistoryManager::new();
    manager.add(1, "a");
    manager.add(2, "b");
    manager.add(1, "c");
    assert_eq!(manager.get_list(1), vec!["a".to_string(), "c".to_string()]);
    assert_eq!(manager.get_list(2), vec!["b".to_string()]);
    assert_eq!(manager.count(9), 0);
}

#[test]
fn test_history_window_creation() {
    let mut manager = HistoryManager::new();
    manager.add(10, "test1");
    manager.add(10, "test2");
    manager.add(10, "test3");
    let window = HistoryWindow::new(Point::new(10, 5), 10, 30, &manager);
    assert_eq!(window.item_count(), 3);
}

#[test]
fn test_history_window_empty() {
    let manager = HistoryManager::new();
    let window = HistoryWindow::new(Point::new(10, 5), 99, 30, &manager);
    assert_eq!(window.item_count(), 0);
}

#[test]
fn test_history_window_many_items() {
    let mut manager = HistoryManager::new();
    for i in 1..=15 {
        manager.add(20, &format!("item{}", i));
    }
    let window = HistoryWindow::new(Point::new(10, 5), 20, 30, &manager);
    assert_eq!(window.item_count(), 15);
    let viewer_height = window.viewer_bounds().height();
    assert!(viewer_height >= 1 && viewer_height <= 11, "viewer height was {}", viewer_height);
}

#[test]
fn the_popup_picks_with_enter_and_cancels_with_esc() {
    let mut manager = HistoryManager::new();
    manager.add(1, "first");
    manager.add(1, "second");
    let mut window = HistoryWindow::new(Point::new(0, 0), 1, 20, &manager);
    let mut down = Event::keyboard(KB_DOWN);
    assert!(matches!(window.step(&mut down), HistoryStep::Continue));
    let mut enter = Event::keyboard(KB_ENTER);
    match window.step(&mut enter) {
        HistoryStep::Chosen(Some(s)) => assert_eq!(s, "second"),
        _ => panic!("expected a choice"),
    }
    let mut esc = Event::keyboard(KB_ESC);
    assert!(matches!(window.step(&mut esc), HistoryStep::Cancelled));
}

fn inputs_with(text: &str) -> Vec<turbo_vision::views::history::LinkedInput> {
    let mut input = InputLine::new(turbo_vision::geometry::Rect::new(2, 5, 20, 6), 32, "");
    input.set_text(text);
    vec![turbo_vision::views::history::LinkedInput { id: ViewId::from_u16(7), input }]
}

#[test]
fn apply_history_selection_fills_the_linked_input() {
    let histories = vec![History::new(Point::new(20, 5), 6, link())];
    let mut inputs = inputs_with("current");
    assert!(apply_history_selection(&histories, &mut inputs, 6, "picked"));
    assert_eq!(inputs[0].input.get_text(), "picked");

    // A different history id finds no target and changes nothing
    assert!(!apply_history_selection(&histories, &mut inputs, 7, "other"));
    assert_eq!(inputs[0].input.get_text(), "picked");
}

#[test]
fn accepted_inputs_are_recorded_in_their_lists() {
    let mut manager = HistoryManager::new();
    let histories = vec![History::new(Point::new(20, 5), 3, link())];
    record_linked_inputs(&mut manager, &histories, &inputs_with("hello world"));
    assert_eq!(manager.get_list(3), vec!["hello world".to_string()]);
    // Empty input records nothing
    record_linked_inputs(&mut manager, &histories, &inputs_with(""));
    assert_eq!(manager.count(3), 1);
}
