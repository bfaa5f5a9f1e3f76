use turbo_vision::command::{CM_CANCEL, CM_OK};
use turbo_vision::geometry::Rect;
use turbo_vision::views::chdir_dialog::{ChDirAction, ChDirDialog, CM_CHANGE_DIR, CM_REVERT};
use turbo_vision::event::{Event, EventType};
use turbo_vision::views::file_dialog::{
    contains_wildcards, list_entries, matches_wildcard, FileDialog, FileDialogBuilder, FileStep, CMD_FILE_SELECTED,
};

fn names(v: &[&str]) -> Vec<String> {
    v.iter().map(|s| s.to_string()).collect()
}

fn chars(s: &str) -> Vec<char> {
    s.chars().collect()
}

#[test]
fn wildcards_are_star_and_question_mark() {
    assert!(contains_wildcards("*.rs"));
    assert!(contains_wildcards("a?c"));
    assert!(!contains_wildcards("main.rs"));
}

#[test]
fn filters_match_by_extension_or_by_substring() {
    assert!(matches_wildcard(&chars("main.rs"), &chars("*")));
    assert!(matches_wildcard(&chars("main.rs"), &chars("")));
    assert!(matches_wildcard(&chars("main.rs"), &chars("*.rs")));
    assert!(!matches_wildcard(&chars("main.rsx"), &chars("*.rs")));
    assert!(!matches_wildcard(&chars("rs"), &chars("*.rs")));
    assert!(matches_wildcard(&chars("readme.txt"), &chars("me")));
    assert!(!matches_wildcard(&chars("readme.txt"), &chars("xyz")));
}

#[test]
fn the_listing_puts_the_parent_then_directories_then_matching_files() {
    let out = list_entries(true, &names(&["src", "Docs"]), &names(&["b.rs", "a.rs", "notes.txt"]), &chars("*.rs"));
    assert_eq!(out, names(&["..", "[Docs]", "[src]", "a.rs", "b.rs"]));
    let root = list_entries(false, &names(&[]), &names(&["x"]), &chars("*"));
    assert_eq!(root, names(&["x"]));
}

fn built() -> FileDialog {
    FileDialog::new(Rect::new(0, 0, 50, 20), "Open File", "*.rs", "/home/user")
        .build(&names(&["src"]), &names(&["main.rs", "notes.txt"]))
}

#[test]
fn building_lists_the_directory_and_lays_out_seven_children() {
    let d = built();
    assert_eq!(d.files(), &names(&["..", "[src]", "main.rs"]));
    assert_eq!(d.dialog().group().len(), 7);
    assert_eq!(d.dialog().group().child_at(4).bounds, Rect::new(2, 6, 46, 14));
    assert_eq!(d.path_label_text(), " /home/user");
    assert!(d.ok_disabled());
}

#[test]
fn choosing_a_directory_entry_fills_the_name_field() {
    let mut d = built();
    assert!(d.sync_selection(1));
    assert_eq!(d.file_name(), "src/*.rs");
    assert!(!d.sync_selection(1));
    assert!(d.sync_selection(2));
    assert_eq!(d.file_name(), "main.rs");
}

#[test]
fn open_on_a_file_selects_it() {
    let mut d = built();
    d.set_file_name("main.rs");
    match d.command_step(CM_OK) {
        FileStep::Selected(p) => assert_eq!(p, "/home/user/main.rs"),
        _ => panic!("expected a selection"),
    }
    assert_eq!(d.get_selected_file(), Some("/home/user/main.rs".to_string()));
}

#[test]
fn open_on_a_directory_or_parent_navigates() {
    let mut d = built();
    d.set_file_name("src/*.rs");
    assert!(matches!(d.command_step(CMD_FILE_SELECTED), FileStep::Reload));
    assert_eq!(d.get_current_directory(), "/home/user/src");
    d.set_file_name("..");
    assert!(matches!(d.command_step(CM_OK), FileStep::Reload));
    assert_eq!(d.get_current_directory(), "/home/user");
    d.set_file_name("[docs]");
    assert!(matches!(d.command_step(CM_OK), FileStep::Reload));
    assert_eq!(d.get_current_directory(), "/home/user/docs");
}

#[test]
fn open_with_a_wildcard_changes_the_filter() {
    let mut d = built();
    d.set_file_name("*.txt");
    assert!(matches!(d.command_step(CM_OK), FileStep::Reload));
    d.set_listing(&names(&[]), &names(&["main.rs", "notes.txt"]));
    assert_eq!(d.files(), &names(&["..", "notes.txt"]));
    assert_eq!(d.file_name(), "..");
}

#[test]
fn cancel_and_empty_names() {
    let mut d = built();
    assert!(matches!(d.command_step(CM_CANCEL), FileStep::Cancelled));
    assert!(matches!(d.command_step(CM_OK), FileStep::Continue));
}

#[test]
fn the_builder_defaults_to_the_callers_directory() {
    let d = FileDialogBuilder::new().bounds(Rect::new(0, 0, 40, 15)).title("Open").build("/tmp", &vec![], &vec![]);
    assert_eq!(d.get_current_directory(), "/tmp");
    let d = FileDialogBuilder::new()
        .bounds(Rect::new(0, 0, 40, 15))
        .title("Open")
        .initial_dir("/srv")
        .build("/tmp", &vec![], &vec![]);
    assert_eq!(d.get_current_directory(), "/srv");
}

#[test]
fn the_builder_makes_a_complete_dialog() {
    let d = FileDialogBuilder::new()
        .bounds(Rect::new(10, 5, 70, 20))
        .title("Open File")
        .wildcard("*.rs")
        .build("/work", &names(&["src"]), &names(&["main.rs", "notes.txt"]));
    assert_eq!(d.dialog().group().len(), 7);
    assert_eq!(d.files().len(), 3);
}

#[test]
fn chdir_asks_for_the_focused_directory_and_revert() {
    let mut d = ChDirDialog::new("/home/user", &names(&["a", "b"]));
    assert_eq!(d.input(), "/home/user");
    assert_eq!(d.dialog_mut().group().len(), 9);
    let mut e = Event::command(CM_CHANGE_DIR);
    match d.handle_event(&mut e) {
        ChDirAction::ChangeDir(p) => assert_eq!(p, "/home/user"),
        _ => panic!("expected a change of directory"),
    }
    assert_eq!(e.what, EventType::Nothing);
    d.dir_changed("/home", &names(&["user"]));
    assert_eq!(d.input(), "/home");
    let mut e = Event::command(CM_REVERT);
    assert!(matches!(d.handle_event(&mut e), ChDirAction::Revert));
    d.revert("/home/user", &names(&[]));
    assert_eq!(d.input(), "/home/user");
    assert_eq!(d.accept(), "/home/user");
    assert_eq!(d.get_directory(), Some("/home/user".to_string()));
}
