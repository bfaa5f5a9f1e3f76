use turbo_vision::command::{CommandSet, CM_COMMAND_SET_CHANGED};
use turbo_vision::event::{Event, EventType, KB_ENTER, MB_LEFT_BUTTON};
use turbo_vision::geometry::{Point, Rect};
use turbo_vision::views::button::Button;

#[test]
fn test_button_creation_with_disabled_command() {
    // Test that button is created disabled when command is disabled
    let mut commands = CommandSet::new();
    const TEST_CMD: u16 = 500;
    commands.disable_command(TEST_CMD);

    let button = Button::new(
        Rect::new(0, 0, 10, 2),
        "Test",
        TEST_CMD,
        false,
        &commands
    );

    assert!(button.is_disabled(), "Button should start disabled when command is disabled");
}

#[test]
fn test_button_creation_with_enabled_command() {
    // Test that button is created enabled when command is enabled
    let mut commands = CommandSet::new();
    const TEST_CMD: u16 = 501;
    commands.enable_command(TEST_CMD);

    let button = Button::new(
        Rect::new(0, 0, 10, 2),
        "Test",
        TEST_CMD,
        false,
        &commands
    );

    assert!(!button.is_disabled(), "Button should start enabled when command is enabled");
}

#[test]
fn test_disabled_button_receives_broadcast_and_becomes_enabled() {
    // REGRESSION TEST: Disabled buttons must receive broadcasts to become enabled
    // This tests the fix for the bug where disabled buttons returned early
    // and never received CM_COMMAND_SET_CHANGED broadcasts

    let mut commands = CommandSet::new();
    const TEST_CMD: u16 = 502;

    // Start with command disabled
    commands.disable_command(TEST_CMD);

    let mut button = Button::new(
        Rect::new(0, 0, 10, 2),
        "Test",
        TEST_CMD,
        false,
        &commands
    );

    // Verify button starts disabled
    assert!(button.is_disabled(), "Button should start disabled");

    // Enable the command in the global command set
    commands.enable_command(TEST_CMD);

    // Send broadcast to button
    let mut event = Event::broadcast(CM_COMMAND_SET_CHANGED);
    button.handle_event(&mut event, &commands);

    // Verify button is now enabled
    assert!(!button.is_disabled(), "Button should be enabled after receiving broadcast");
}

#[test]
fn test_enabled_button_receives_broadcast_and_becomes_disabled() {
    // Test that enabled buttons can be disabled via broadcast

    let mut commands = CommandSet::new();
    const TEST_CMD: u16 = 503;

    // Start with command enabled
    commands.enable_command(TEST_CMD);

    let mut button = Button::new(
        Rect::new(0, 0, 10, 2),
        "Test",
        TEST_CMD,
        false,
        &commands
    );

    // Verify button starts enabled
    assert!(!button.is_disabled(), "Button should start enabled");

    // Disable the command in the global command set
    commands.disable_command(TEST_CMD);

    // Send broadcast to button
    let mut event = Event::broadcast(CM_COMMAND_SET_CHANGED);
    button.handle_event(&mut event, &commands);

    // Verify button is now disabled
    assert!(button.is_disabled(), "Button should be disabled after receiving broadcast");
}

#[test]
fn test_disabled_button_ignores_keyboard_events() {
    // Test that disabled buttons don't respond to keyboard input

    let mut commands = CommandSet::new();
    const TEST_CMD: u16 = 504;
    commands.disable_command(TEST_CMD);

    let mut button = Button::new(
        Rect::new(0, 0, 10, 2),
        "Test",
        TEST_CMD,
        false,
        &commands
    );

    button.set_focus(true);

    // Try to activate with Enter key
    let mut event = Event::keyboard(KB_ENTER);
    button.handle_event(&mut event, &commands);

    // Event should not be converted to command
    assert_ne!(event.what, EventType::Command, "Disabled button should not generate command");
}

#[test]
fn test_disabled_button_ignores_mouse_clicks() {
    // Test that disabled buttons don't respond to mouse clicks

    let mut commands = CommandSet::new();
    const TEST_CMD: u16 = 505;
    commands.disable_command(TEST_CMD);

    let mut button = Button::new(
        Rect::new(0, 0, 10, 2),
        "Test",
        TEST_CMD,
        false,
        &commands
    );

    // Try to click the button
    let mut event = Event::mouse(
        EventType::MouseDown,
        Point::new(5, 1),
        MB_LEFT_BUTTON,
        false
    );
    button.handle_event(&mut event, &commands);

    // Event should not be converted to command
    assert_ne!(event.what, EventType::Command, "Disabled button should not generate command");
}

#[test]
fn test_broadcast_does_not_clear_event() {
    // Test that CM_COMMAND_SET_CHANGED broadcast is not cleared
    // (so it can propagate to other buttons)

    let mut commands = CommandSet::new();
    const TEST_CMD: u16 = 506;
    commands.disable_command(TEST_CMD);

    let mut button = Button::new(
        Rect::new(0, 0, 10, 2),
        "Test",
        TEST_CMD,
        false,
        &commands
    );

    commands.enable_command(TEST_CMD);

    let mut event = Event::broadcast(CM_COMMAND_SET_CHANGED);
    button.handle_event(&mut event, &commands);

    // Event should still be a broadcast (not cleared)
    assert_eq!(event.what, EventType::Broadcast, "Broadcast should not be cleared");
    assert_eq!(event.command, CM_COMMAND_SET_CHANGED, "Broadcast command should remain");
}
