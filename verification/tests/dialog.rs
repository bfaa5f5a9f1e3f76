use turbo_vision::geometry::Point;
use turbo_vision::views::handle::Handle;
use turbo_vision::views::history::{record_linked_inputs, History, HistoryManager, LinkedInput};
use turbo_vision::views::input_line::InputLine;
use std::time::Duration;
use turbo_vision::command::{CommandSet, CM_CANCEL, CM_NO, CM_OK, CM_SHOW_HISTORY};
use turbo_vision::event::{Event, EventType, KB_ENTER};
use turbo_vision::geometry::Rect;
use turbo_vision::state::SF_MODAL;
use turbo_vision::views::button::Button;
use turbo_vision::views::dialog::{CloseOn, Dialog, DialogBuilder, DialogReply, KB_ESC_ESC};
use turbo_vision::views::group::ChildInfo;

fn button_child(r: Rect) -> ChildInfo {
    ChildInfo::new(r, true)
}

#[test]
fn standard_policy_ignores_custom_button_commands() {
    let mut d = DialogBuilder::new()
        .bounds(Rect::new(0, 0, 30, 8))
        .title("t")
        .close_on(CloseOn::Standard)
        .build();
    d.add_button(button_child(Rect::new(1, 1, 10, 3)), 7, false, false);
    d.set_state(d.state() | SF_MODAL);
    let mut ev = Event::command(7);
    d.handle_event(&mut ev);
    assert_eq!(d.end_state(), 0);
    assert_eq!(ev.what, EventType::Command);
}

#[test]
fn default_policy_closes_on_commands_of_added_buttons_regardless_of_number() {
    let mut d = Dialog::new(Rect::new(0, 0, 30, 8), "t");
    d.add_button(button_child(Rect::new(1, 1, 10, 3)), 5000, false, false);
    d.set_state(d.state() | SF_MODAL);
    let mut ev = Event::command(5000);
    d.handle_event(&mut ev);
    assert_eq!(d.end_state(), 5000);
}

#[test]
fn default_policy_leaves_other_child_commands_to_the_caller() {
    let mut d = Dialog::new(Rect::new(0, 0, 30, 8), "t");
    d.set_state(d.state() | SF_MODAL);
    let mut ev = Event::command(42);
    d.handle_event(&mut ev);
    assert_eq!(d.end_state(), 0, "42 is not a button of this dialog");
    assert_eq!(ev.what, EventType::Command);
}

#[test]
fn default_button_is_found_by_downcast_not_by_view_hook() {
    let mut d = Dialog::new(Rect::new(0, 0, 40, 10), "t");
    d.add_boxed(ChildInfo::new(Rect::new(1, 1, 10, 2), false));
    d.add_button(button_child(Rect::new(1, 3, 12, 5)), CM_OK, true, false);
    assert_eq!(d.find_default_button_command(), Some(CM_OK));
}

#[test]
fn auto_dismiss_is_off_by_default_and_settable() {
    let mut dialog = Dialog::new(Rect::new(0, 0, 20, 10), "T");
    assert_eq!(dialog.auto_dismiss(), None);
    dialog.set_auto_dismiss(Duration::from_secs(3), CM_OK);
    assert_eq!(dialog.auto_dismiss(), Some((Duration::from_secs(3), CM_OK)));
}

#[test]
fn test_dialog_command_handling() {
    {
        let mut dialog = Dialog::new(Rect::new(0, 0, 40, 10), "Test");
        let current_state = dialog.state();
        dialog.set_state(current_state | SF_MODAL);
        let mut event = Event::command(1000);
        dialog.handle_event(&mut event);
        assert_eq!(dialog.end_state(), 0, "a child's command must not close the dialog");
        assert_eq!(event.what, EventType::Command, "and must stay pending for the caller");
        assert_eq!(event.command, 1000);
    }
    {
        let mut dialog = Dialog::new(Rect::new(0, 0, 40, 10), "Test");
        dialog.add_button(button_child(Rect::new(1, 1, 10, 3)), 100, false, false);
        let current_state = dialog.state();
        dialog.set_state(current_state | SF_MODAL);
        let mut event = Event::command(100);
        dialog.handle_event(&mut event);
        assert_eq!(dialog.end_state(), 100, "the button's command closes the dialog");
        assert_eq!(event.what, EventType::Nothing, "and is consumed");
    }
    {
        let mut dialog = Dialog::new(Rect::new(0, 0, 40, 10), "Test");
        dialog.set_close_on(CloseOn::Commands(vec![999]));
        let current_state = dialog.state();
        dialog.set_state(current_state | SF_MODAL);
        let mut event = Event::command(999);
        dialog.handle_event(&mut event);
        assert_eq!(dialog.end_state(), 999);
        assert_eq!(event.what, EventType::Nothing);

        let mut dialog = Dialog::new(Rect::new(0, 0, 40, 10), "Test");
        dialog.set_close_on(CloseOn::Commands(vec![999]));
        let current_state = dialog.state();
        dialog.set_state(current_state | SF_MODAL);
        let mut event = Event::command(CM_OK);
        dialog.handle_event(&mut event);
        assert_eq!(dialog.end_state(), 0, "CM_OK is not in the list");
    }
}

#[test]
fn test_non_modal_dialog_commands() {
    let mut dialog = Dialog::new(Rect::new(0, 0, 40, 10), "Test");
    let mut event = Event::command(100);
    dialog.handle_event(&mut event);
    assert_eq!(dialog.end_state(), 0, "Non-modal dialog should not set end_state");
    let mut event = Event::command(1000);
    dialog.handle_event(&mut event);
    assert_eq!(dialog.end_state(), 0);
}

#[test]
fn test_dialog_show_history_command_passes_through() {
    let mut dialog = Dialog::new(Rect::new(0, 0, 40, 10), "Test");
    let state = dialog.state();
    dialog.set_state(state | SF_MODAL);
    let mut event = Event::command(CM_SHOW_HISTORY);
    event.info = 42;
    dialog.handle_event(&mut event);
    assert_eq!(dialog.end_state(), 0, "must not close the dialog");
    assert_eq!(event.what, EventType::Command, "event left for modal loop");
    assert_eq!(event.command, CM_SHOW_HISTORY);
}

#[test]
fn test_enter_fires_focused_button_not_flagged_default() {
    let commands = CommandSet::new();
    let mut dialog = Dialog::new(Rect::new(0, 0, 40, 10), "Test");
    let state = dialog.state();
    dialog.set_state(state | SF_MODAL);

    dialog.add_button(button_child(Rect::new(2, 2, 12, 4)), CM_OK, true, false);
    dialog.add_button(button_child(Rect::new(14, 2, 24, 4)), CM_NO, false, false);
    dialog.set_focus_to_child(1);

    // The group hands Enter to the focused button first.
    let mut no = Button::new(Rect::new(14, 2, 24, 4), "No", CM_NO, false, &commands);
    no.set_focus(true);
    let mut event = Event::keyboard(KB_ENTER);
    no.handle_event(&mut event, &commands);
    dialog.handle_event(&mut event);

    assert_eq!(dialog.end_state(), CM_NO, "Enter must fire the focused button's command, not the flagged default");
}

#[test]
fn test_enter_on_non_button_fires_default_button() {
    let mut dialog = Dialog::new(Rect::new(0, 0, 40, 10), "Test");
    let state = dialog.state();
    dialog.set_state(state | SF_MODAL);
    dialog.add_boxed(ChildInfo::new(Rect::new(2, 2, 20, 3), false));
    dialog.add_button(button_child(Rect::new(2, 4, 12, 6)), CM_OK, true, false);

    let mut event = Event::keyboard(KB_ENTER);
    let mut reply = dialog.handle_event(&mut event);
    while reply == DialogReply::Reprocess {
        reply = dialog.handle_event(&mut event);
    }
    assert_eq!(dialog.end_state(), CM_OK, "Enter with a non-button focused must fire the default button");
}

#[test]
fn test_dialog_set_resizable() {
    let mut dialog = Dialog::new(Rect::new(0, 0, 40, 10), "Test");
    dialog.set_resizable(true);
    assert_eq!(dialog.bounds(), Rect::new(0, 0, 40, 10));
}

#[test]
fn test_dialog_builder_resizable() {
    let dialog = DialogBuilder::new()
        .bounds(Rect::new(5, 5, 50, 20))
        .title("Resizable Dialog")
        .resizable(true)
        .build();
    assert_eq!(dialog.bounds(), Rect::new(5, 5, 50, 20));
}

#[test]
fn test_dialog_builder_resizable_modal() {
    let dialog = DialogBuilder::new()
        .bounds(Rect::new(5, 5, 50, 20))
        .title("Resizable Modal")
        .resizable(true)
        .modal(true)
        .build();
    assert_eq!(dialog.bounds(), Rect::new(5, 5, 50, 20));
    assert_ne!(dialog.state() & SF_MODAL, 0, "Should be modal");
}

#[test]
fn esc_esc_becomes_cancel_and_closes() {
    let mut dialog = DialogBuilder::new().bounds(Rect::new(0, 0, 10, 5)).title("x").modal(true).build();
    let mut event = Event::keyboard(KB_ESC_ESC);
    assert_eq!(dialog.handle_event(&mut event), DialogReply::Reprocess);
    assert_eq!(event.command, CM_CANCEL);
    assert_eq!(dialog.handle_event(&mut event), DialogReply::Closed { record: false });
    assert_eq!(dialog.end_state(), CM_CANCEL);
}

#[test]
fn accepting_asks_for_the_histories_to_record() {
    let mut dialog = DialogBuilder::new().bounds(Rect::new(0, 0, 10, 5)).title("x").modal(true).build();
    let mut event = Event::command(CM_OK);
    assert_eq!(dialog.handle_event(&mut event), DialogReply::Closed { record: true });
    assert!(dialog.valid_plan(CM_CANCEL).is_empty());
}

#[test]
fn test_dialog_ok_records_history() {
    let mut manager = HistoryManager::new();
    manager.clear_all();

    let make_dialog = |text: &str| {
        let mut dialog = Dialog::new(Rect::new(0, 0, 40, 10), "Test");
        let state = dialog.state();
        dialog.set_state(state | SF_MODAL);
        let mut input = InputLine::new(Rect::new(2, 2, 28, 3), 32, "");
        input.set_text(text);
        let id = dialog.add_boxed(ChildInfo::new(Rect::new(2, 2, 28, 3), true));
        let history = History::new(Point::new(30, 2), 42, Handle::from_id(id));
        dialog.add_boxed(ChildInfo::new(history.bounds(), false));
        (dialog, vec![history], vec![LinkedInput { id, input }])
    };

    // Cancel does NOT record
    let (mut dialog, histories, inputs) = make_dialog("not recorded");
    let mut event = Event::command(CM_CANCEL);
    if let DialogReply::Closed { record: true } = dialog.handle_event(&mut event) {
        record_linked_inputs(&mut manager, &histories, &inputs);
    }
    assert_eq!(manager.count(42), 0, "Cancel must not record");

    // OK records the linked data
    let (mut dialog, histories, inputs) = make_dialog("recorded entry");
    let mut event = Event::command(CM_OK);
    if let DialogReply::Closed { record: true } = dialog.handle_event(&mut event) {
        record_linked_inputs(&mut manager, &histories, &inputs);
    }
    assert_eq!(manager.get_list(42), vec!["recorded entry".to_string()]);
}
