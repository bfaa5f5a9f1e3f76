use turbo_vision::views::list_viewer::ListViewerState;

#[test]
fn test_list_viewer_state_creation() {
    let state = ListViewerState::new();
    assert_eq!(state.top_item, 0);
    assert_eq!(state.focused, None);
    assert_eq!(state.range, 0);
    assert_eq!(state.num_cols, 1);
}

#[test]
fn test_list_viewer_state_with_range() {
    let state = ListViewerState::with_range(10);
    assert_eq!(state.range, 10);
    assert_eq!(state.focused, Some(0));
}

#[test]
fn test_set_range() {
    let mut state = ListViewerState::new();
    state.set_range(5);
    assert_eq!(state.range, 5);
    assert_eq!(state.focused, Some(0));
    state.set_range(0);
    assert_eq!(state.range, 0);
    assert_eq!(state.focused, None);
}

#[test]
fn test_focus_navigation() {
    let mut state = ListViewerState::with_range(10);
    let visible_rows = 5;
    assert_eq!(state.focused, Some(0));
    state.focus_next(visible_rows);
    assert_eq!(state.focused, Some(1));
    state.focus_prev(visible_rows);
    assert_eq!(state.focused, Some(0));
    state.focus_prev(visible_rows);
    assert_eq!(state.focused, Some(0));
    state.focus_last(visible_rows);
    assert_eq!(state.focused, Some(9));
    state.focus_next(visible_rows);
    assert_eq!(state.focused, Some(9));
}

#[test]
fn test_page_navigation() {
    let mut state = ListViewerState::with_range(20);
    let visible_rows = 5;
    assert_eq!(state.focused, Some(0));
    state.focus_page_down(visible_rows);
    assert_eq!(state.focused, Some(5));
    state.focus_page_down(visible_rows);
    assert_eq!(state.focused, Some(10));
    state.focus_page_up(visible_rows);
    assert_eq!(state.focused, Some(5));
    state.focus_page_up(visible_rows);
    assert_eq!(state.focused, Some(0));
}

#[test]
fn test_focus_item_scrolling() {
    let mut state = ListViewerState::with_range(20);
    let visible_rows = 5;
    state.focus_item(0, visible_rows);
    assert_eq!(state.focused, Some(0));
    assert_eq!(state.top_item, 0);
    state.focus_item(10, visible_rows);
    assert_eq!(state.focused, Some(10));
    assert_eq!(state.top_item, 6);
    state.focus_item(2, visible_rows);
    assert_eq!(state.focused, Some(2));
    assert_eq!(state.top_item, 2);
}

#[test]
fn test_focus_item_centered() {
    let mut state = ListViewerState::with_range(20);
    let visible_rows = 5;
    state.focus_item_centered(10, visible_rows);
    assert_eq!(state.focused, Some(10));
    assert_eq!(state.top_item, 8);
    state.focus_item_centered(2, visible_rows);
    assert_eq!(state.focused, Some(2));
    assert_eq!(state.top_item, 0);
}
