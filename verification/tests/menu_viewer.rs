use turbo_vision::menu_data::{Menu, MenuBuilder};
use turbo_vision::views::menu_viewer::MenuViewerState;

#[test]
fn test_menu_viewer_state_creation() {
    let state = MenuViewerState::new();
    assert!(state.menu.is_none());
    assert_eq!(state.current, None);
    assert!(!state.compact_menu);
}

#[test]
fn test_menu_viewer_state_with_menu() {
    let menu = MenuBuilder::new()
        .item("~O~pen", 100, 0)
        .item("~S~ave", 101, 0)
        .separator()
        .item("E~x~it", 102, 0)
        .build();

    let state = MenuViewerState::with_menu(menu);
    assert!(state.menu.is_some());
    assert_eq!(state.current, Some(0));
    assert_eq!(state.item_count(), 4);
}

#[test]
fn test_menu_navigation() {
    let menu = MenuBuilder::new()
        .item("Item 1", 100, 0)
        .item("Item 2", 101, 0)
        .separator()
        .item("Item 3", 102, 0)
        .build();

    let mut state = MenuViewerState::with_menu(menu);
    assert_eq!(state.current, Some(0));

    state.select_next();
    assert_eq!(state.current, Some(1));

    state.select_next();
    assert_eq!(state.current, Some(3));

    state.select_prev();
    assert_eq!(state.current, Some(1));

    state.select_prev();
    assert_eq!(state.current, Some(0));
}

#[test]
fn test_find_item_by_char() {
    let menu = MenuBuilder::new()
        .item("~O~pen", 100, 0)
        .item("~S~ave", 101, 0)
        .item("E~x~it", 102, 0)
        .build();

    let state = MenuViewerState::with_menu(menu);

    assert_eq!(state.find_item_by_char('o'), Some(0));
    assert_eq!(state.find_item_by_char('O'), Some(0));
    assert_eq!(state.find_item_by_char('s'), Some(1));
    assert_eq!(state.find_item_by_char('x'), Some(2));
    assert_eq!(state.find_item_by_char('z'), None);
}

#[test]
fn test_empty_menu() {
    let menu = Menu::new();
    let mut state = MenuViewerState::with_menu(menu);

    assert_eq!(state.current, None);
    assert_eq!(state.item_count(), 0);

    state.select_next();
    assert_eq!(state.current, None);

    state.select_prev();
    assert_eq!(state.current, None);
}

#[test]
fn test_get_current_item() {
    let menu = MenuBuilder::new()
        .item("First", 100, 0)
        .item("Second", 101, 0)
        .build();

    let state = MenuViewerState::with_menu(menu);

    let item = state.get_current_item();
    assert!(item.is_some());
    assert_eq!(item.unwrap().text(), "First");
}

#[test]
fn navigation_wraps_round_both_ends() {
    let menu = MenuBuilder::new()
        .item("A", 1, 0)
        .separator()
        .item("B", 2, 0)
        .build();
    let mut state = MenuViewerState::with_menu(menu);
    state.select_prev();
    assert_eq!(state.current, Some(2));
    state.select_next();
    assert_eq!(state.current, Some(0));
}

#[test]
fn set_menu_highlights_the_first_selectable_item() {
    let menu = MenuBuilder::new().separator().item("A", 1, 0).build();
    let mut state = MenuViewerState::new();
    state.set_menu(menu);
    assert_eq!(state.current, Some(1));
    let only_lines = MenuBuilder::new().separator().separator().build();
    state.set_menu(only_lines);
    assert_eq!(state.current, None);
}

#[test]
fn hot_keys_find_their_item() {
    let menu = MenuBuilder::new()
        .item("A", 1, 0x3B00)
        .separator()
        .item("B", 2, 0x3C00)
        .build();
    let state = MenuViewerState::with_menu(menu);
    assert_eq!(state.find_item_by_hotkey(0x3C00), Some(2));
    assert_eq!(state.find_item_by_hotkey(0x1234), None);
}
