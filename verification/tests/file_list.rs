use turbo_vision::geometry::Rect;
use turbo_vision::views::file_list::{FileEntry, FileList, FileListBuilder};

fn entry(name: &str, is_dir: bool, size: u64) -> FileEntry {
    FileEntry { name: name.to_string(), path: format!("/d/{}", name), is_dir, size, modified: None }
}

#[test]
fn test_file_entry_display() {
    let e = FileEntry { name: "test.txt".to_string(), path: "test.txt".to_string(), is_dir: false, size: 1024, modified: None };
    assert_eq!(e.display_name(), "test.txt");
    let d = FileEntry { name: "mydir".to_string(), path: "mydir".to_string(), is_dir: true, size: 0, modified: None };
    assert_eq!(d.display_name(), "[mydir]");
}

#[test]
fn test_size_formatting() {
    let small = FileEntry { name: "small".to_string(), path: "small".to_string(), is_dir: false, size: 512, modified: None };
    assert_eq!(small.size_string(), "512 B");
    let kb = FileEntry { name: "kb".to_string(), path: "kb".to_string(), is_dir: false, size: 2048, modified: None };
    assert_eq!(kb.size_string(), "2 KB");
    let dir = FileEntry { name: "dir".to_string(), path: "dir".to_string(), is_dir: true, size: 0, modified: None };
    assert_eq!(dir.size_string(), "<DIR>");
}

#[test]
fn larger_sizes_use_megabytes_and_gigabytes() {
    assert_eq!(entry("m", false, 5 * 1024 * 1024 + 7).size_string(), "5 MB");
    assert_eq!(entry("g", false, 3 * 1024 * 1024 * 1024).size_string(), "3 GB");
    assert_eq!(entry("b", false, 1023).size_string(), "1023 B");
}

#[test]
fn refresh_lists_parent_then_directories_then_filtered_files() {
    let mut list = FileList::new(Rect::new(0, 0, 30, 10), "/d");
    let es = vec![
        entry("b.rs", false, 1),
        entry("Zeta", true, 0),
        entry(".git", true, 0),
        entry("a.rs", false, 1),
        entry("notes.txt", false, 1),
        entry("alpha", true, 0),
    ];
    list.set_wildcard("*.rs", &es);
    let texts: Vec<String> = (0..list.file_count()).map(|i| list.get_text(i)).collect();
    assert_eq!(texts, vec!["[..]", "[alpha]", "[Zeta]", "a.rs", "b.rs"]);
    assert_eq!(list.get_focused_entry().unwrap().path, "/");
    list.set_show_hidden(true, &es);
    assert_eq!(list.file_count(), 6);
}

#[test]
fn the_builder_needs_bounds_and_path() {
    let l = FileListBuilder::new().bounds(Rect::new(0, 0, 10, 5)).path("/").build();
    assert_eq!(l.current_path(), "/");
    assert_eq!(l.file_count(), 0);
}

#[test]
fn a_filter_without_a_star_keeps_only_that_name() {
    let mut list = FileList::new(Rect::new(0, 0, 30, 10), "/d");
    let es = vec![entry("b.rs", false, 1), entry("notes.txt", false, 1), entry("alpha", true, 0)];
    list.set_wildcard("notes.txt", &es);
    let texts: Vec<String> = (0..list.file_count()).map(|i| list.get_text(i)).collect();
    assert_eq!(texts, vec!["[..]", "[alpha]", "notes.txt"]);
    list.set_wildcard("*", &es);
    assert_eq!(list.file_count(), 4);
}

#[test]
fn matches_wildcard_follows_the_filter() {
    let mut list = FileList::new(Rect::new(0, 0, 30, 10), "/d");
    let es: Vec<FileEntry> = Vec::new();
    assert!(list.matches_wildcard("anything.txt"));
    list.set_wildcard("*.rs", &es);
    assert!(list.matches_wildcard("main.rs"));
    assert!(!list.matches_wildcard("main.txt"));
    assert!(!list.matches_wildcard("rs"));
    list.set_wildcard("notes.txt", &es);
    assert!(list.matches_wildcard("notes.txt"));
    assert!(!list.matches_wildcard("notes.txt.bak"));
}
