use turbo_vision::command::{CM_CANCEL, CM_OK};
use turbo_vision::draw::Attr;
use turbo_vision::geometry::Rect;
use turbo_vision::views::color_dialog::ColorDialog;
use turbo_vision::views::help_file::HelpFile;
use turbo_vision::views::help_toc::{HelpToc, HelpTocBuilder};

fn help() -> HelpFile {
    let text = "# Zebra care {#animals}\n\nStripes.\n\n# Apples {#fruit}\n\nRed.\n";
    HelpFile::new("toc.md", text)
}

#[test]
fn the_contents_hold_one_leaf_per_topic_in_order_of_id() {
    let t = HelpToc::new(Rect::new(0, 0, 60, 20), "Contents", &help());
    let titles: Vec<String> = t.topics().iter().map(|n| n.data.clone()).collect();
    assert_eq!(titles, vec!["Zebra care".to_string(), "Apples".to_string()]);
    assert!(t.topics().iter().all(|n| !n.has_children() && !n.expanded));
    assert_eq!(t.dialog().group().len(), 4);
    assert_eq!(t.dialog().group().child_at(1).bounds, Rect::new(2, 4, 56, 14));
}

#[test]
fn the_contents_answer_nothing_until_a_topic_is_picked() {
    let t = HelpTocBuilder::new().bounds(Rect::new(0, 0, 60, 20)).title("Contents").help_file(help()).build();
    assert_eq!(t.answer(CM_OK), None);
    assert_eq!(t.answer(CM_CANCEL), None);
    assert_eq!(t.get_selected_topic(), None);
}

#[test]
fn the_color_dialog_answers_its_starting_colors_on_ok() {
    let mut c = ColorDialog::new(Rect::new(0, 0, 50, 18), "Colors", Attr::from_u8(0x1E));
    assert_eq!(c.picked(), (0xE, 0x1));
    assert_eq!(c.answer(CM_CANCEL), None);
    assert_eq!(c.get_selected_attr(), None);
    assert_eq!(c.answer(CM_OK), Some(Attr::from_u8(0x1E)));
    assert_eq!(c.get_selected_attr(), Some(Attr::from_u8(0x1E)));
    let g = c.dialog().group();
    assert_eq!(g.len(), 9);
    assert_eq!(g.child_at(2).bounds, Rect::new(2, 5, 26, 8));
    assert_eq!(g.child_at(8).bounds, Rect::new(38, 14, 48, 16));
}

#[test]
fn the_color_dialog_answers_the_picked_colors() {
    let mut c = ColorDialog::new(Rect::new(0, 0, 50, 18), "Colors", Attr::from_u8(0x1E));
    c.set_foreground(4);
    c.set_background(7);
    c.set_background(20);
    assert_eq!(c.picked(), (4, 7));
    assert_eq!(c.answer(CM_OK), Some(Attr::new(4, 7)));
    assert_eq!(c.get_selected_attr(), Some(Attr::from_u8(0x74)));
}
