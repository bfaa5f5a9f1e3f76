use turbo_vision::event::{Event, EventType, KB_DOWN, KB_ENTER, KB_LEFT, KB_RIGHT};
use turbo_vision::geometry::Rect;
use turbo_vision::views::outline::{Node, OutlineViewer};

fn tree() -> Vec<Node<String>> {
    let mut a = Node::new("A".to_string());
    a.add_child(Node::new("A1".to_string()));
    a.add_child(Node::new("A2".to_string()));
    let b = Node::new("B".to_string());
    vec![a, b]
}

#[test]
fn nodes_know_their_children_and_toggle() {
    let mut n = Node::new(1);
    assert!(!n.has_children());
    n.add_child(Node::new(2));
    assert!(n.has_children());
    assert!(!n.expanded);
    n.toggle();
    assert!(n.expanded);
    let m = Node::with_children(3, vec![Node::new(4)]);
    assert!(m.has_children());
    assert!(!m.expanded);
}

#[test]
fn collapsed_roots_show_one_row_each() {
    let mut o = OutlineViewer::new(Rect::new(0, 0, 30, 10), |s: &String| s.clone());
    o.set_roots(tree());
    assert_eq!(o.row_count(), 2);
    assert_eq!(o.get_text(0), "[+] A");
    assert_eq!(o.get_text(1), "B");
    assert_eq!(o.get_text(2), "");
    assert_eq!(o.selected_node().map(|n| n.data.clone()), Some("A".to_string()));
}

#[test]
fn right_expands_and_left_collapses() {
    let mut o = OutlineViewer::new(Rect::new(0, 0, 30, 10), |s: &String| s.clone());
    o.set_roots(tree());
    let mut e = Event::keyboard(KB_RIGHT);
    o.handle_event(&mut e);
    assert_eq!(e.what, EventType::Nothing);
    assert_eq!(o.row_count(), 4);
    assert_eq!(o.get_text(0), "[-] A");
    assert_eq!(o.get_text(1), "  ├─A1");
    assert_eq!(o.get_text(2), "  └─A2");
    assert_eq!(o.get_text(3), "B");

    let mut e = Event::keyboard(KB_DOWN);
    o.handle_event(&mut e);
    assert_eq!(o.selected_node().map(|n| n.data.clone()), Some("A1".to_string()));

    // Left on a leaf changes nothing.
    let mut e = Event::keyboard(KB_LEFT);
    o.handle_event(&mut e);
    assert_eq!(o.row_count(), 4);
}

#[test]
fn enter_toggles_and_collapse_restores_the_rows() {
    let mut o = OutlineViewer::new(Rect::new(0, 0, 30, 10), |s: &String| format!("<{}>", s));
    o.set_roots(tree());
    let before: Vec<String> = (0..o.row_count()).map(|i| o.get_text(i)).collect();
    let mut e = Event::keyboard(KB_ENTER);
    o.handle_event(&mut e);
    assert_eq!(o.row_count(), 4);
    assert_eq!(o.get_text(1), "  ├─<A1>");
    let mut e = Event::keyboard(KB_ENTER);
    o.handle_event(&mut e);
    let after: Vec<String> = (0..o.row_count()).map(|i| o.get_text(i)).collect();
    assert_eq!(before, after);
}

#[test]
fn deeper_levels_draw_the_lines_of_open_parents() {
    let mut inner = Node::new("X".to_string());
    inner.add_child(Node::new("Y".to_string()));
    inner.expanded = true;
    let mut top = Node::new("T".to_string());
    top.add_child(inner);
    top.add_child(Node::new("Z".to_string()));
    top.expanded = true;
    let mut o = OutlineViewer::new(Rect::new(0, 0, 30, 10), |s: &String| s.clone());
    o.add_root(top);
    assert_eq!(o.row_count(), 4);
    assert_eq!(o.get_text(0), "[-] T");
    assert_eq!(o.get_text(1), "  ├─[-] X");
    // The row under an open middle child carries its parent's line first.
    assert_eq!(o.get_text(2), "│   └─Y");
    assert_eq!(o.get_text(3), "  └─Z");
}
