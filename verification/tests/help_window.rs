use turbo_vision::command::CM_CANCEL;
use turbo_vision::event::{Event, EventType, KB_ESC};
use turbo_vision::geometry::Rect;
use turbo_vision::views::help_file::HelpFile;
use turbo_vision::views::help_window::{HelpWindow, HelpWindowBuilder};

fn create_test_help_file() -> HelpFile {
    let text = "# Test Topic {#test}\n\nThis is test content.\n";
    HelpFile::new("test.md", text)
}

fn three_topics() -> HelpFile {
    let text = "# Alpha {#alpha}\n\nFirst.\n\n# Beta {#beta}\n\nSecond.\n\n# Gamma {#gamma}\n\nThird.\n";
    HelpFile::new("three.md", text)
}

#[test]
fn test_help_window_creation() {
    let help = create_test_help_file();
    let bounds = Rect::new(10, 5, 70, 20);
    let window = HelpWindow::new(bounds, "Help", help);

    assert_eq!(window.bounds(), bounds);
}

#[test]
fn test_show_topic() {
    let help = create_test_help_file();
    let bounds = Rect::new(10, 5, 70, 20);
    let mut window = HelpWindow::new(bounds, "Help", help);

    assert!(window.show_topic("test"));
    assert_eq!(window.current_topic(), Some("test".to_string()));
}

#[test]
fn test_show_default_topic() {
    let help = create_test_help_file();
    let bounds = Rect::new(10, 5, 70, 20);
    let mut window = HelpWindow::new(bounds, "Help", help);

    window.show_default_topic();
    assert_eq!(window.current_topic(), Some("test".to_string()));
}

#[test]
fn test_show_nonexistent_topic() {
    let help = create_test_help_file();
    let bounds = Rect::new(10, 5, 70, 20);
    let mut window = HelpWindow::new(bounds, "Help", help);

    assert!(!window.show_topic("nonexistent"));
}

#[test]
fn the_viewer_fills_the_interior_less_the_scroll_bar() {
    let window = HelpWindow::new(Rect::new(10, 5, 70, 20), "Help", create_test_help_file());
    assert_eq!(window.viewer_rc().bounds(), Rect::new(0, 0, 57, 13));
    assert!(window.viewer_rc().has_scrollbar());
}

#[test]
fn back_and_forward_follow_the_history() {
    let mut w = HelpWindow::new(Rect::new(0, 0, 60, 20), "Help", three_topics());
    assert!(!w.can_go_back());
    assert!(w.show_topic("alpha"));
    assert!(w.switch_to_topic("beta"));
    assert!(w.switch_to_topic("gamma"));
    assert_eq!(w.current_topic(), Some("gamma".to_string()));
    assert!(w.can_go_back());
    assert!(!w.can_go_forward());

    assert!(w.go_back());
    assert_eq!(w.current_topic(), Some("beta".to_string()));
    assert!(w.go_back());
    assert_eq!(w.current_topic(), Some("alpha".to_string()));
    assert!(!w.go_back());
    assert!(w.can_go_forward());

    assert!(w.go_forward());
    assert_eq!(w.current_topic(), Some("beta".to_string()));
    assert!(w.go_forward());
    assert_eq!(w.current_topic(), Some("gamma".to_string()));
    assert!(!w.go_forward());

    // A link to a missing topic changes nothing.
    assert!(!w.switch_to_topic("delta"));
    assert_eq!(w.current_topic(), Some("gamma".to_string()));
}

#[test]
fn forward_undoes_back() {
    let mut w = HelpWindow::new(Rect::new(0, 0, 60, 20), "Help", three_topics());
    w.show_topic("alpha");
    assert!(w.switch_to_topic("beta"));
    assert!(w.go_back());
    assert_eq!(w.current_topic(), Some("alpha".to_string()));
    assert!(w.go_forward());
    assert_eq!(w.current_topic(), Some("beta".to_string()));
}

#[test]
fn following_a_link_drops_the_forward_history() {
    let mut w = HelpWindow::new(Rect::new(0, 0, 60, 20), "Help", three_topics());
    w.show_topic("alpha");
    w.switch_to_topic("beta");
    w.go_back();
    assert!(w.can_go_forward());
    w.switch_to_topic("gamma");
    assert!(!w.can_go_forward());
    assert!(w.go_back());
    assert_eq!(w.current_topic(), Some("alpha".to_string()));
}

#[test]
fn escape_ends_the_window_with_cancel() {
    let mut w = HelpWindow::new(Rect::new(0, 0, 60, 20), "Help", three_topics());
    assert_eq!(w.end_state(), 0);
    let mut e = Event::keyboard(KB_ESC);
    w.handle_event(&mut e);
    assert_eq!(e.what, EventType::Nothing);
    assert_eq!(w.end_state(), CM_CANCEL);
}

#[test]
fn the_pick_offers_the_first_topic() {
    let w = HelpWindow::new(Rect::new(0, 0, 60, 20), "Help", three_topics());
    assert_eq!(w.make_select_topic(), Some("alpha".to_string()));
}

#[test]
fn the_builder_makes_the_same_window() {
    let w = HelpWindowBuilder::new()
        .bounds(Rect::new(1, 2, 41, 22))
        .title("Topics")
        .help_file(three_topics())
        .build();
    assert_eq!(w.bounds(), Rect::new(1, 2, 41, 22));
    assert_eq!(w.title(), "Topics");
    assert_eq!(w.current_topic(), None);
}
