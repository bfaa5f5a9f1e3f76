use turbo_vision::command::{CM_CANCEL, CM_OK};
use turbo_vision::event::{Event, EventType};
use turbo_vision::geometry::Rect;
use turbo_vision::views::help_file::HelpFile;
use turbo_vision::views::help_index::{sort_by_title, HelpIndex, HelpIndexBuilder, CMD_TOPIC_SELECTED};

fn help() -> HelpFile {
    let text = "# Zebra care {#animals}\n\nStripes.\n\n# Apples {#fruit}\n\nRed.\n\n# Mountains {#geo}\n\nHigh.\n";
    HelpFile::new("index.md", text)
}

#[test]
fn the_index_lists_topics_in_order_of_title() {
    let x = HelpIndex::new(Rect::new(0, 0, 60, 20), "Index", &help());
    assert_eq!(x.topic_titles(), vec!["Apples".to_string(), "Mountains".to_string(), "Zebra care".to_string()]);
    assert_eq!(x.answer(CM_OK), Some("fruit".to_string()));
    assert_eq!(x.answer(CM_CANCEL), None);
    assert_eq!(x.get_selected_topic(), None);
}

#[test]
fn the_index_dialog_has_its_parts_in_place() {
    let x = HelpIndex::new(Rect::new(0, 0, 60, 20), "Index", &help());
    let g = x.dialog().group();
    assert_eq!(g.len(), 7);
    assert_eq!(g.child_at(4).bounds, Rect::new(2, 7, 56, 14));
    assert_eq!(g.child_at(5).bounds, Rect::new(36, 16, 46, 18));
    assert_eq!(g.child_at(6).bounds, Rect::new(48, 16, 58, 18));
}

#[test]
fn an_empty_help_file_gives_no_answer() {
    let x = HelpIndex::new(Rect::new(0, 0, 60, 20), "Index", &HelpFile::new("empty.md", ""));
    assert!(x.topic_titles().is_empty());
    assert_eq!(x.answer(CM_OK), None);
}

#[test]
fn choosing_in_the_list_means_ok() {
    let x = HelpIndex::new(Rect::new(0, 0, 60, 20), "Index", &help());
    let mut e = Event::command(CMD_TOPIC_SELECTED);
    x.prepare_event(&mut e);
    assert_eq!(e.what, EventType::Command);
    assert_eq!(e.command, CM_OK);
    let mut e = Event::command(CM_CANCEL);
    x.prepare_event(&mut e);
    assert_eq!(e.command, CM_CANCEL);
}

#[test]
fn equal_titles_keep_their_order() {
    let pairs = vec![
        ("b".to_string(), "Same".to_string()),
        ("a".to_string(), "Same".to_string()),
        ("c".to_string(), "Earlier".to_string()),
    ];
    let sorted = sort_by_title(&pairs);
    assert_eq!(sorted[0].0, "c");
    assert_eq!(sorted[1].0, "b");
    assert_eq!(sorted[2].0, "a");
}

#[test]
fn the_builder_makes_the_same_index() {
    let x = HelpIndexBuilder::new().bounds(Rect::new(0, 0, 60, 20)).title("Index").help_file(help()).build();
    assert_eq!(x.topic_titles().len(), 3);
}
