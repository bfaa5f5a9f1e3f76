use turbo_vision::draw::{Attr, DrawLine};
use turbo_vision::event::{Event, EventType, KB_ALT_F, KB_DOWN, KB_ENTER, KB_ESC, KB_LEFT, KB_RIGHT, MB_LEFT_BUTTON};
use turbo_vision::geometry::{Point, Rect};
use turbo_vision::menu_data::MenuBuilder;
use turbo_vision::views::menu_bar::{MenuBar, SubMenu, KB_ESC_H};
use turbo_vision::views::menu_box::MenuColors;

fn colors() -> MenuColors {
    MenuColors {
        normal: Attr { value: 0x70 },
        selected: Attr { value: 0x20 },
        disabled: Attr { value: 0x78 },
        shortcut: Attr { value: 0x74 },
    }
}

fn bar() -> MenuBar {
    let mut bar = MenuBar::new(Rect::new(0, 0, 40, 1));
    bar.add_submenu(SubMenu::new(
        "~F~ile",
        MenuBuilder::new().item("~O~pen", 100, 0).item("~S~ave", 101, 0).build(),
    ));
    bar.add_submenu(SubMenu::new("~E~dit", MenuBuilder::new().item("~C~opy", 200, 0).build()));
    bar.add_submenu(SubMenu::new("~H~elp", MenuBuilder::new().item("~A~bout", 300, 0).build()));
    bar
}

fn text(line: &DrawLine) -> String {
    line.buf.data.iter().map(|c| c.ch).collect()
}

fn click(x: i16, y: i16) -> Event {
    Event::mouse(EventType::MouseDown, Point::new(x, y), MB_LEFT_BUTTON, false)
}

#[test]
fn the_bar_draws_its_titles_and_records_their_columns() {
    let mut bar = bar();
    let lines = bar.draw(colors());
    assert_eq!(lines.len(), 1);
    assert_eq!((lines[0].x, lines[0].y), (0, 0));
    assert_eq!(&text(&lines[0])[..19], "  File  Edit  Help ");
    assert_eq!(lines[0].buf.data[2].attr, colors().shortcut);
    assert_eq!(lines[0].buf.data[3].attr, colors().normal);
    // Each title takes its text and a space either side: File at 1, Edit at 7, Help at 13.
    let mut e = click(8, 0);
    bar.handle_event(&mut e);
    assert_eq!(bar.active_menu(), Some(1));
    assert_eq!(e.what, EventType::Nothing);
}

#[test]
fn clicking_a_title_opens_its_menu_and_clicking_again_closes_it() {
    let mut bar = bar();
    bar.draw(colors());
    let mut e = click(2, 0);
    bar.handle_event(&mut e);
    assert_eq!(bar.active_menu(), Some(0));
    assert_eq!(bar.current_item(), Some(0));
    let mut e = click(2, 0);
    bar.handle_event(&mut e);
    assert_eq!(bar.active_menu(), None);
    // A click on the bar away from the titles closes an open menu.
    let mut e = click(2, 0);
    bar.handle_event(&mut e);
    let mut e = click(30, 0);
    bar.handle_event(&mut e);
    assert_eq!(bar.active_menu(), None);
    assert_eq!(e.what, EventType::Nothing);
}

#[test]
fn hot_keys_open_menus_and_left_right_go_round() {
    let mut bar = bar();
    let mut e = Event::keyboard(KB_ALT_F);
    bar.handle_event(&mut e);
    assert_eq!(bar.active_menu(), Some(0));
    assert_eq!(e.what, EventType::Nothing);
    let mut e = Event::keyboard(KB_LEFT);
    bar.handle_event(&mut e);
    assert_eq!(bar.active_menu(), Some(2));
    let mut e = Event::keyboard(KB_RIGHT);
    bar.handle_event(&mut e);
    assert_eq!(bar.active_menu(), Some(0));
    let mut e = Event::keyboard(KB_ESC);
    bar.handle_event(&mut e);
    assert_eq!(bar.active_menu(), None);
    let mut e = Event::keyboard(KB_ESC_H);
    bar.handle_event(&mut e);
    assert_eq!(bar.active_menu(), Some(2));
}

#[test]
fn enter_issues_the_highlighted_command_and_closes() {
    let mut bar = bar();
    let mut e = Event::keyboard(KB_ALT_F);
    bar.handle_event(&mut e);
    let mut e = Event::keyboard(KB_DOWN);
    bar.handle_event(&mut e);
    assert_eq!(bar.current_item(), Some(1));
    let mut e = Event::keyboard(KB_ENTER);
    bar.handle_event(&mut e);
    assert_eq!(e.what, EventType::Command);
    assert_eq!(e.command, 101);
    assert_eq!(bar.active_menu(), None);
    // The menu went back to its title: opening it again finds it whole.
    let mut e = Event::keyboard(KB_ALT_F);
    bar.handle_event(&mut e);
    let mut e = Event::keyboard('s' as u16);
    bar.handle_event(&mut e);
    assert_eq!(bar.current_item(), Some(1));
}

#[test]
fn the_open_menu_drops_down_under_its_title() {
    let mut bar = bar();
    bar.draw(colors());
    let mut e = click(8, 0);
    bar.handle_event(&mut e);
    let lines = bar.draw(colors());
    // The bar, then a top border, one row per item and a bottom border.
    assert_eq!(lines.len(), 4);
    assert_eq!((lines[1].x, lines[1].y), (7, 1));
    assert_eq!(text(&lines[1]), "┌────────────┐");
    assert_eq!((lines[2].x, lines[2].y), (7, 2));
    assert_eq!(text(&lines[2]), "│Copy        │");
    assert_eq!(lines[2].buf.data[1].attr, colors().selected);
    assert_eq!(text(&lines[3]), "└────────────┘");
    // The open title is highlighted on the bar.
    assert_eq!(lines[0].buf.data[7].attr, colors().selected);
}

#[test]
fn a_click_below_the_bar_closes_the_menu() {
    let mut bar = bar();
    bar.draw(colors());
    let mut e = click(2, 0);
    bar.handle_event(&mut e);
    let mut e = click(3, 2);
    bar.handle_event(&mut e);
    assert_eq!(bar.active_menu(), None);
    assert_eq!(e.what, EventType::Nothing);
}

#[test]
fn item_rows_sit_under_the_open_title() {
    let mut bar = bar();
    assert_eq!(bar.get_item_rect(0), Rect::new(0, 0, 0, 0));
    bar.draw(colors());
    let mut e = click(8, 0);
    bar.handle_event(&mut e);
    assert_eq!(bar.get_item_rect(0), Rect::new(7, 2, 27, 3));
    assert_eq!(bar.get_item_rect(1), Rect::new(7, 3, 27, 4));
}

#[test]
fn moving_onto_another_title_opens_it() {
    let mut bar = bar();
    bar.draw(colors());
    let mut e = click(2, 0);
    bar.handle_event(&mut e);
    let mut e = Event::mouse(EventType::MouseMove, Point::new(14, 0), 0, false);
    bar.handle_event(&mut e);
    assert_eq!(bar.active_menu(), Some(2));
    assert_eq!(e.what, EventType::MouseMove);
}
