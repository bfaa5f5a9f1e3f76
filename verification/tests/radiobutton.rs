use turbo_vision::geometry::Rect;
use turbo_vision::views::radiobutton::{RadioButton, RadioButtonBuilder};

#[test]
fn test_radiobutton_creation() {
    let radio = RadioButton::new(Rect::new(0, 0, 20, 1), "Option 1", 1);
    assert!(!radio.is_selected());
    assert_eq!(radio.label(), "Option 1");
    assert_eq!(radio.group_id(), 1);
}

#[test]
fn test_radiobutton_select() {
    let mut radio = RadioButton::new(Rect::new(0, 0, 20, 1), "Option 1", 1);
    assert!(!radio.is_selected());

    radio.select();
    assert!(radio.is_selected());

    radio.deselect();
    assert!(!radio.is_selected());
}

#[test]
fn test_radiobutton_set_selected() {
    let mut radio = RadioButton::new(Rect::new(0, 0, 20, 1), "Option 1", 1);

    radio.set_selected(true);
    assert!(radio.is_selected());

    radio.set_selected(false);
    assert!(!radio.is_selected());
}

#[test]
fn test_radiobutton_group_id() {
    let radio1 = RadioButton::new(Rect::new(0, 0, 20, 1), "Option 1", 1);
    let radio2 = RadioButton::new(Rect::new(0, 1, 20, 2), "Option 2", 1);
    let radio3 = RadioButton::new(Rect::new(0, 2, 20, 3), "Option 3", 2);

    assert_eq!(radio1.group_id(), 1);
    assert_eq!(radio2.group_id(), 1);
    assert_eq!(radio3.group_id(), 2);
}

#[test]
fn test_radiobutton_builder() {
    let radio = RadioButtonBuilder::new()
        .bounds(Rect::new(3, 5, 25, 6))
        .label("Test Option")
        .group_id(5)
        .build();

    assert_eq!(radio.label(), "Test Option");
    assert_eq!(radio.group_id(), 5);
    assert!(!radio.is_selected());
}

#[test]
fn test_radiobutton_builder_selected() {
    let radio = RadioButtonBuilder::new()
        .bounds(Rect::new(3, 5, 25, 6))
        .label("Selected")
        .group_id(1)
        .selected(true)
        .build();

    assert!(radio.is_selected());
}
