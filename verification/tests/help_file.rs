use turbo_vision::views::help_file::{HelpFile, HelpTopic, TextSegment};

fn create_test_help_file() -> String {
    let mut file = String::new();
    file.push_str("# Introduction {#intro}\n");
    file.push_str("\n");
    file.push_str("Welcome to the help system!\n");
    file.push_str("\n");
    file.push_str("For more information, see [File Menu](#file-menu).\n");
    file.push_str("\n");
    file.push_str("# File Menu {#file-menu}\n");
    file.push_str("\n");
    file.push_str("The File menu contains:\n");
    file.push_str("- Open: Open a file\n");
    file.push_str("- Save: Save the file\n");
    file.push_str("\n");
    file.push_str("See also [Edit Menu](#edit-menu).\n");
    file.push_str("\n");
    file.push_str("# Edit Menu {#edit-menu}\n");
    file.push_str("\n");
    file.push_str("The Edit menu contains:\n");
    file.push_str("- Copy: Copy text\n");
    file.push_str("- Paste: Paste text\n");
    file
}

#[test]
fn test_help_file_load() {
    let file = create_test_help_file();
    let help = HelpFile::new("help.md", &file);

    assert_eq!(help.get_topic_ids().len(), 3);
    assert!(help.has_topic("intro"));
    assert!(help.has_topic("file-menu"));
    assert!(help.has_topic("edit-menu"));
}

#[test]
fn test_help_topic_content() {
    let file = create_test_help_file();
    let help = HelpFile::new("help.md", &file);

    let topic = help.get_topic("intro").unwrap();
    assert_eq!(topic.title, "Introduction");
    assert!(topic.content.len() > 0);
    assert_eq!(topic.links.len(), 1);
    assert_eq!(topic.links[0], "file-menu");
}

#[test]
fn test_default_topic() {
    let file = create_test_help_file();
    let help = HelpFile::new("help.md", &file);

    let default = help.get_default_topic().unwrap();
    assert_eq!(default.id, "intro");
}

#[test]
fn test_formatted_content() {
    let file = create_test_help_file();
    let help = HelpFile::new("help.md", &file);

    let topic = help.get_topic("file-menu").unwrap();
    let formatted = topic.get_formatted_content();

    assert!(formatted[0].contains("File Menu"));
    assert!(formatted.iter().any(|line| line.contains("See also:")));
}

#[test]
fn test_cross_references() {
    let file = create_test_help_file();
    let help = HelpFile::new("help.md", &file);

    let file_menu = help.get_topic("file-menu").unwrap();
    assert_eq!(file_menu.links.len(), 1);
    assert_eq!(file_menu.links[0], "edit-menu");
}

#[test]
fn test_get_content_with_refs() {
    let file = create_test_help_file();
    let help = HelpFile::new("help.md", &file);

    let intro = help.get_topic("intro").unwrap();
    let (lines, refs) = intro.get_content_with_refs();

    // Should have header, empty line, content lines, and see also section
    assert!(lines.len() >= 4);
    assert!(lines[0].contains("Introduction"));

    // Should have at least one cross-reference (from inline link and see also)
    assert!(refs.len() >= 1);

    // Check that inline link "[File Menu](#file-menu)" was processed
    // The link should appear in the content without markdown syntax
    let has_inline_ref = refs.iter().any(|r| r.target == "file-menu");
    assert!(has_inline_ref, "Should have file-menu cross-ref");

    // Check that cross-ref has valid position
    let file_menu_ref = refs.iter().find(|r| r.target == "file-menu").unwrap();
    assert!(file_menu_ref.line > 0, "Line should be positive (1-based)");
    assert!(file_menu_ref.length > 0, "Length should be positive");
}

#[test]
fn test_process_line_links() {
    // Test the link parsing function directly
    let line = "See [File Menu](#file-menu) and [Edit](#edit) for details.";
    let (result, refs) = HelpTopic::process_line_links(line, 5);

    // The result should have the markdown stripped
    assert_eq!(result, "See File Menu and Edit for details.");

    // Should have two cross-references
    assert_eq!(refs.len(), 2);

    // First ref: "File Menu" at position 4
    assert_eq!(refs[0].target, "file-menu");
    assert_eq!(refs[0].offset, 4);
    assert_eq!(refs[0].length, 9); // "File Menu"
    assert_eq!(refs[0].line, 5);

    // Second ref: "Edit" at position 18
    assert_eq!(refs[1].target, "edit");
    assert_eq!(refs[1].offset, 18);
    assert_eq!(refs[1].length, 4); // "Edit"
}

#[test]
fn test_reload() {
    let file = create_test_help_file();
    let path = "help.md".to_string();
    let mut help = HelpFile::new(&path, &file);

    assert_eq!(help.get_topic_ids().len(), 3);

    // Reload should work
    help.reload(&file);
    assert_eq!(help.get_topic_ids().len(), 3);
}

#[test]
fn test_parse_line_segments_bold() {
    let segments = HelpTopic::parse_line_segments("Press **F1** for help");
    assert_eq!(segments.len(), 3);
    assert_eq!(segments[0], TextSegment::Normal("Press ".to_string()));
    assert_eq!(segments[1], TextSegment::Bold("F1".to_string()));
    assert_eq!(segments[2], TextSegment::Normal(" for help".to_string()));
}

#[test]
fn test_parse_line_segments_italic() {
    let segments = HelpTopic::parse_line_segments("Choose *File > Open* from menu");
    assert_eq!(segments.len(), 3);
    assert_eq!(segments[0], TextSegment::Normal("Choose ".to_string()));
    assert_eq!(segments[1], TextSegment::Italic("File > Open".to_string()));
    assert_eq!(segments[2], TextSegment::Normal(" from menu".to_string()));
}

#[test]
fn test_parse_line_segments_code() {
    let segments = HelpTopic::parse_line_segments("Use `Ctrl+C` to copy");
    assert_eq!(segments.len(), 3);
    assert_eq!(segments[0], TextSegment::Normal("Use ".to_string()));
    assert_eq!(segments[1], TextSegment::Code("Ctrl+C".to_string()));
    assert_eq!(segments[2], TextSegment::Normal(" to copy".to_string()));
}

#[test]
fn test_parse_line_segments_link() {
    let segments = HelpTopic::parse_line_segments("See [File Menu](#file-menu) for details");
    assert_eq!(segments.len(), 3);
    assert_eq!(segments[0], TextSegment::Normal("See ".to_string()));
    assert_eq!(segments[1], TextSegment::Link {
        text: "File Menu".to_string(),
        target: "file-menu".to_string(),
    });
    assert_eq!(segments[2], TextSegment::Normal(" for details".to_string()));
}

#[test]
fn test_parse_line_segments_mixed() {
    let segments = HelpTopic::parse_line_segments("Press **F1** or `?` for [Help](#help)");
    assert_eq!(segments.len(), 6);
    assert_eq!(segments[0], TextSegment::Normal("Press ".to_string()));
    assert_eq!(segments[1], TextSegment::Bold("F1".to_string()));
    assert_eq!(segments[2], TextSegment::Normal(" or ".to_string()));
    assert_eq!(segments[3], TextSegment::Code("?".to_string()));
    assert_eq!(segments[4], TextSegment::Normal(" for ".to_string()));
    assert_eq!(segments[5], TextSegment::Link {
        text: "Help".to_string(),
        target: "help".to_string(),
    });
}

#[test]
fn test_parse_line_segments_plain() {
    let segments = HelpTopic::parse_line_segments("Just plain text");
    assert_eq!(segments.len(), 1);
    assert_eq!(segments[0], TextSegment::Normal("Just plain text".to_string()));
}

#[test]
fn test_parse_line_segments_empty() {
    let segments = HelpTopic::parse_line_segments("");
    assert_eq!(segments.len(), 1);
    assert_eq!(segments[0], TextSegment::Normal(String::new()));
}
