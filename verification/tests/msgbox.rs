use turbo_vision::command::{CM_CANCEL, CM_NO, CM_OK, CM_YES};
use turbo_vision::geometry::Rect;
use turbo_vision::views::msgbox::{
    input_box_bounds, input_box_layout, input_box_result, message_box_bounds, message_box_buttons,
    message_box_title, message_text_bounds, MF_CONFIRMATION, MF_ERROR, MF_INFORMATION, MF_OK_BUTTON,
    MF_OK_CANCEL, MF_WARNING, MF_YES_NO_CANCEL,
};

#[test]
fn a_short_message_gets_the_minimum_box_centered() {
    assert_eq!(message_box_bounds("Hello", 80, 25), Rect::new(25, 9, 55, 16));
}

#[test]
fn the_box_follows_the_longest_line_up_to_sixty_columns() {
    let msg = "first line\na second, rather longer line of text here\nend";
    // 41 + 6 = 47 columns, 3 + 6 rows.
    assert_eq!(message_box_bounds(msg, 80, 25), Rect::new(16, 8, 63, 17));

    let long = "x".repeat(100);
    let r = message_box_bounds(&long, 80, 25);
    assert_eq!(r.width(), 60);
    assert_eq!(r.height(), 7);
}

#[test]
fn an_empty_message_still_gets_a_box() {
    let r = message_box_bounds("", 80, 25);
    assert_eq!(r.width(), 30);
    assert_eq!(r.height(), 7);
}

#[test]
fn the_title_follows_the_kind() {
    assert_eq!(message_box_title(MF_WARNING | MF_OK_BUTTON), "Warning");
    assert_eq!(message_box_title(MF_ERROR | MF_OK_BUTTON), "Error");
    assert_eq!(message_box_title(MF_INFORMATION), "Information");
    assert_eq!(message_box_title(MF_CONFIRMATION | MF_YES_NO_CANCEL), "Confirm");
}

#[test]
fn the_text_sits_inside_the_frame() {
    assert_eq!(message_text_bounds(Rect::new(25, 9, 55, 16)), Rect::new(3, 2, 28, 4));
}

#[test]
fn a_lone_ok_button_is_centered_and_default() {
    let b = message_box_buttons(Rect::new(25, 9, 55, 16), MF_INFORMATION | MF_OK_BUTTON);
    assert_eq!(b.len(), 1);
    assert_eq!(b[0].bounds, Rect::new(10, 4, 18, 6));
    assert_eq!(b[0].label, "  ~O~K  ");
    assert_eq!(b[0].command, CM_OK);
    assert!(b[0].is_default);
}

#[test]
fn yes_no_cancel_buttons_sit_in_a_row_without_a_default() {
    let b = message_box_buttons(Rect::new(0, 0, 30, 7), MF_CONFIRMATION | MF_YES_NO_CANCEL);
    assert_eq!(b.len(), 3);
    assert_eq!(b[0].bounds, Rect::new(2, 4, 7, 6));
    assert_eq!(b[0].command, CM_YES);
    assert_eq!(b[1].bounds, Rect::new(9, 4, 13, 6));
    assert_eq!(b[1].command, CM_NO);
    assert_eq!(b[2].bounds, Rect::new(15, 4, 25, 6));
    assert_eq!(b[2].command, CM_CANCEL);
    assert!(b.iter().all(|x| !x.is_default));
}

#[test]
fn with_ok_and_cancel_only_ok_is_default() {
    let b = message_box_buttons(Rect::new(0, 0, 30, 7), MF_CONFIRMATION | MF_OK_CANCEL);
    assert_eq!(b.len(), 2);
    assert_eq!(b[0].bounds, Rect::new(4, 4, 12, 6));
    assert!(b[0].is_default);
    assert_eq!(b[1].bounds, Rect::new(14, 4, 24, 6));
    assert!(!b[1].is_default);
}

#[test]
fn an_input_box_fits_its_label_and_input() {
    let r = input_box_bounds("Name:", 20, 80, 25);
    assert_eq!(r, Rect::new(21, 9, 58, 16));
    let l = input_box_layout(r, "Name:", 20);
    assert_eq!(l.label_bounds, Rect::new(2, 2, 7, 3));
    assert_eq!(l.input_bounds, Rect::new(8, 2, 30, 3));
    assert_eq!(l.ok_bounds, Rect::new(7, 4, 17, 6));
    assert_eq!(l.cancel_bounds, Rect::new(19, 4, 29, 6));

    assert_eq!(input_box_bounds("Path:", 200, 80, 25).width(), 60);
    assert_eq!(input_box_bounds("", 1, 80, 25).width(), 30);
}

#[test]
fn an_input_box_answers_only_on_ok() {
    assert_eq!(input_box_result(CM_OK, "abc".to_string()), Some("abc".to_string()));
    assert_eq!(input_box_result(CM_CANCEL, "abc".to_string()), None);
}
