use turbo_vision::event::{Event, EventType, KB_DOWN, KB_ENTER, KB_ESC, KB_UP, MB_LEFT_BUTTON};
use turbo_vision::geometry::Point;
use turbo_vision::menu_data::{MenuBuilder, MenuItem, Menu};
use turbo_vision::draw::Attr;
use turbo_vision::views::menu_box::MenuBox;

#[test]
fn test_menubox_creation() {
    let menu = MenuBuilder::new()
        .item("~O~pen", 100, 0)
        .item("~S~ave", 101, 0)
        .build();

    let menubox = MenuBox::new(Point::new(10, 5), menu);

    assert_eq!(menubox.bounds().a.x, 10);
    assert_eq!(menubox.bounds().a.y, 5);
    assert!(menubox.bounds().width() >= 10);
    assert_eq!(menubox.bounds().height(), 4);
}

#[test]
fn test_menubox_with_separators() {
    let menu = MenuBuilder::new()
        .item("Item 1", 100, 0)
        .separator()
        .item("Item 2", 101, 0)
        .build();

    let menubox = MenuBox::new(Point::new(0, 0), menu);

    assert_eq!(menubox.bounds().height(), 5);
}

#[test]
fn test_menubox_get_item_rect() {
    let menu = MenuBuilder::new()
        .item("Item 1", 100, 0)
        .item("Item 2", 101, 0)
        .build();

    let menubox = MenuBox::new(Point::new(10, 5), menu);

    let rect0 = menubox.get_item_rect(0);
    assert_eq!(rect0.a.y, 6);

    let rect1 = menubox.get_item_rect(1);
    assert_eq!(rect1.a.y, 7);
}

#[test]
fn test_menubox_selection() {
    let menu = MenuBuilder::new()
        .item("Item 1", 100, 0)
        .item("Item 2", 101, 0)
        .build();

    let mut menubox = MenuBox::new(Point::new(0, 0), menu);

    assert_eq!(menubox.current_item(), Some(0));

    menubox.menu_state_mut().select_next();
    assert_eq!(menubox.current_item(), Some(1));

    assert_eq!(menubox.get_selected_command(), Some(101));
}

#[test]
fn menubox_width_follows_the_widest_item() {
    // "Open file" shows 9 characters: 9 + 6 of padding.
    let menu = MenuBuilder::new().item("~O~pen file", 100, 0).build();
    let menubox = MenuBox::new(Point::new(0, 0), menu);
    assert_eq!(menubox.bounds().width(), 15);

    // A submenu adds room for its arrow: 6 + 9.
    let sub = Menu::from_items(vec![MenuItem::submenu("~R~ecent", 0, Menu::new())]);
    let menubox = MenuBox::new(Point::new(3, 1), sub);
    assert_eq!(menubox.bounds().width(), 15);
    assert_eq!(menubox.bounds().b.x, 18);

    // Short items keep the minimum width.
    let small = MenuBuilder::new().item("A", 1, 0).build();
    assert_eq!(MenuBox::new(Point::new(0, 0), small).bounds().width(), 10);
}

#[test]
fn menubox_keys_move_choose_and_cancel() {
    let menu = MenuBuilder::new()
        .item("~O~pen", 100, 0)
        .separator()
        .item("~S~ave", 101, 0)
        .build();
    let mut menubox = MenuBox::new(Point::new(0, 0), menu);

    let mut e = Event::keyboard(KB_DOWN);
    menubox.handle_event(&mut e);
    assert_eq!(e.what, EventType::Nothing);
    assert_eq!(menubox.current_item(), Some(2));

    let mut e = Event::keyboard(KB_UP);
    menubox.handle_event(&mut e);
    assert_eq!(menubox.current_item(), Some(0));

    let mut e = Event::keyboard('s' as u16);
    menubox.handle_event(&mut e);
    assert_eq!(menubox.current_item(), Some(2));

    let mut e = Event::keyboard(KB_ENTER);
    menubox.handle_event(&mut e);
    assert_eq!(e.what, EventType::Command);
    assert_eq!(e.command, 101);

    let mut e = Event::keyboard(KB_ESC);
    menubox.handle_event(&mut e);
    assert_eq!(e.what, EventType::Command);
    assert_eq!(e.command, 0);

    let mut e = Event::keyboard('z' as u16);
    menubox.handle_event(&mut e);
    assert_eq!(e.what, EventType::Keyboard);
    assert_eq!(menubox.current_item(), Some(2));
}

#[test]
fn menubox_mouse_picks_and_cancels() {
    let menu = MenuBuilder::new()
        .item("Item 1", 100, 0)
        .item("Item 2", 101, 0)
        .build();
    let mut menubox = MenuBox::new(Point::new(10, 5), menu);

    let mut e = Event::mouse(EventType::MouseDown, Point::new(12, 7), MB_LEFT_BUTTON, false);
    menubox.handle_event(&mut e);
    assert_eq!(e.what, EventType::Nothing);
    assert_eq!(menubox.current_item(), Some(1));

    let mut e = Event::mouse(EventType::MouseUp, Point::new(12, 7), MB_LEFT_BUTTON, false);
    menubox.handle_event(&mut e);
    assert_eq!(e.what, EventType::Command);
    assert_eq!(e.command, 101);

    let mut e = Event::mouse(EventType::MouseDown, Point::new(0, 0), MB_LEFT_BUTTON, false);
    menubox.handle_event(&mut e);
    assert_eq!(e.what, EventType::Command);
    assert_eq!(e.command, 0);

    // A click on the border row highlights nothing new.
    let mut e = Event::mouse(EventType::MouseDown, Point::new(12, 5), MB_LEFT_BUTTON, false);
    menubox.handle_event(&mut e);
    assert_eq!(e.what, EventType::Nothing);
    assert_eq!(menubox.current_item(), Some(1));
}

fn menu_colors() -> turbo_vision::views::menu_box::MenuColors {
    turbo_vision::views::menu_box::MenuColors {
        normal: Attr { value: 0x70 },
        selected: Attr { value: 0x20 },
        disabled: Attr { value: 0x78 },
        shortcut: Attr { value: 0x74 },
    }
}

fn row_text(line: &turbo_vision::draw::DrawLine) -> String {
    line.buf.data.iter().map(|c| c.ch).collect()
}

#[test]
fn a_menu_box_draws_its_frame_and_items() {
    let menu = MenuBuilder::new()
        .item("~O~pen", 100, 0)
        .separator()
        .item("~S~ave", 101, 0)
        .build();
    let menubox = MenuBox::new(Point::new(10, 5), menu);
    let c = menu_colors();
    let lines = menubox.draw(c);
    assert_eq!(lines.len(), 5);
    assert_eq!((lines[0].x, lines[0].y), (10, 5));
    assert_eq!(row_text(&lines[0]), "┌────────┐");
    assert_eq!((lines[1].x, lines[1].y), (10, 6));
    assert_eq!(row_text(&lines[1]), "│ Open   │");
    // The highlighted first item, its accelerator in the highlight too.
    assert_eq!(lines[1].buf.data[2].attr, c.selected);
    assert_eq!(lines[1].buf.data[3].attr, c.selected);
    assert_eq!(lines[1].buf.data[0].attr, c.normal);
    assert_eq!(row_text(&lines[2]), "├────────┤");
    assert_eq!(row_text(&lines[3]), "│ Save   │");
    assert_eq!(lines[3].buf.data[2].attr, c.shortcut);
    assert_eq!(lines[3].buf.data[3].attr, c.normal);
    assert_eq!((lines[4].x, lines[4].y), (10, 9));
    assert_eq!(row_text(&lines[4]), "└────────┘");
}
