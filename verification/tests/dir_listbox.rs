use turbo_vision::event::{Event, EventType, KB_DOWN, KB_ENTER};
use turbo_vision::geometry::Rect;
use turbo_vision::state::SF_FOCUSED;
use turbo_vision::views::dir_listbox::{DirEntry, DirListBox, DirListBoxBuilder};

fn subdirs(names: &[&str]) -> Vec<String> {
    names.iter().map(|s| s.to_string()).collect()
}

#[test]
fn test_dir_listbox_creation() {
    let bounds = Rect::new(0, 0, 40, 10);
    let path = "/home/user/projects";
    let dlb = DirListBox::new(bounds, path, &subdirs(&["src"]));
    assert!(dlb.get_text(0).len() > 0, "Should have at least root entry");
    assert_eq!(dlb.current_path(), path);
}

#[test]
fn test_find_root() {
    let root = DirListBox::find_root("/home/user/projects");
    assert_eq!(root, "/");
    assert_eq!(DirListBox::find_root("relative/dir"), "");
}

#[test]
fn test_dir_entry_display() {
    let entry = DirEntry {
        name: "subdir".to_string(),
        path: "/path/to/subdir".to_string(),
        level: 1,
        is_last: false,
    };
    let continues = vec![true];
    let text = entry.display_text(&continues);
    assert!(text.contains("├─") || text.contains("└─"));
    assert!(text.contains("subdir"));
}

#[test]
fn test_parent_navigation() {
    let bounds = Rect::new(0, 0, 40, 10);
    let mut dlb = DirListBox::new(bounds, "/home/user", &subdirs(&[]));
    let original_path = dlb.current_path();
    let parent = dlb.parent_dir();
    assert!(parent.is_some());
    let parent = parent.unwrap();
    dlb.change_dir(&parent, &subdirs(&["user"]));
    assert_ne!(dlb.current_path(), original_path);
    assert_eq!(dlb.current_path(), "/home");
}

#[test]
fn the_tree_runs_from_the_root_to_the_sorted_subdirectories() {
    let dlb = DirListBox::new(Rect::new(0, 0, 40, 10), "/home/user", &subdirs(&["b", "A", "c"]));
    assert_eq!(dlb.get_text(0), "/");
    assert_eq!(dlb.get_text(1), "  ├─home");
    assert_eq!(dlb.get_text(2), "    └─user");
    assert_eq!(dlb.get_text(3), "      ├─A");
    assert_eq!(dlb.get_text(4), "      ├─b");
    assert_eq!(dlb.get_text(5), "      └─c");
    assert_eq!(dlb.get_text(6), "");
    assert_eq!(dlb.get_focused_entry().unwrap().path, "/home/user");
}

#[test]
fn enter_asks_to_open_the_focused_directory() {
    let mut dlb = DirListBoxBuilder::new()
        .bounds(Rect::new(0, 0, 40, 10))
        .path("/home")
        .build(&subdirs(&["alice", "bob"]));
    dlb.set_state(SF_FOCUSED);
    let mut down = Event::keyboard(KB_DOWN);
    assert!(!dlb.handle_event(&mut down));
    let mut enter = Event::keyboard(KB_ENTER);
    assert!(dlb.handle_event(&mut enter));
    assert_eq!(enter.what, EventType::Nothing);
    assert_eq!(dlb.enter_focused_dir(), Some("/home/alice".to_string()));
}
