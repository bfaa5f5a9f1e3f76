use turbo_vision::geometry::Rect;
use turbo_vision::views::help_file::HelpTopic;
use turbo_vision::views::help_viewer::HelpViewer;

#[test]
fn test_help_viewer_creation() {
    let bounds = Rect::new(0, 0, 80, 25);
    let viewer = HelpViewer::new(bounds);

    assert_eq!(viewer.bounds(), bounds);
    assert!(viewer.current_topic().is_none());
    assert!(viewer.can_focus());
}

#[test]
fn test_help_viewer_with_scrollbar() {
    let bounds = Rect::new(0, 0, 80, 25);
    let viewer = HelpViewer::new(bounds).with_scrollbar();

    assert!(viewer.has_scrollbar());
}

#[test]
fn test_set_topic() {
    let bounds = Rect::new(0, 0, 80, 25);
    let mut viewer = HelpViewer::new(bounds);

    let mut topic = HelpTopic::new("test".to_string(), "Test Topic".to_string());
    topic.add_line("Line 1".to_string());
    topic.add_line("Line 2".to_string());

    viewer.set_topic(&topic);

    assert_eq!(viewer.current_topic(), Some("test"));
    assert!(viewer.line_count() > 0);
}

#[test]
fn help_viewer_test_clear() {
    let bounds = Rect::new(0, 0, 80, 25);
    let mut viewer = HelpViewer::new(bounds);

    let topic = HelpTopic::new("test".to_string(), "Test".to_string());
    viewer.set_topic(&topic);
    assert!(viewer.current_topic().is_some());

    viewer.clear();
    assert!(viewer.current_topic().is_none());
    assert_eq!(viewer.line_count(), 0);
}
