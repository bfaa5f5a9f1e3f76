use turbo_vision::event::{Event, EventType};
use turbo_vision::geometry::{Point, Rect};
use turbo_vision::state::{GF_GROW_HI_X, GF_GROW_HI_Y, GF_GROW_LO_X, GF_GROW_LO_Y, OF_POST_PROCESS, OF_PRE_PROCESS, SF_FOCUSED};
use turbo_vision::views::group::{ChildInfo, Delivery, Group, GroupBuilder, MouseRoute};
use turbo_vision::views::handle::ViewId;

fn child(r: Rect) -> ChildInfo {
    ChildInfo::new(r, true)
}

#[test]
fn test_mouse_down_outside_children_not_sent_to_focused() {
    let mut group = Group::new(Rect::new(0, 0, 80, 25));
    group.add_boxed(child(Rect::new(0, 0, 10, 5)));
    group.set_initial_focus();

    let event = Event::mouse(EventType::MouseDown, Point::new(50, 20), 1, false);
    assert_eq!(group.mouse_route(&event), MouseRoute::Nobody);

    let event = Event::mouse(EventType::MouseDown, Point::new(5, 2), 1, false);
    assert_eq!(group.mouse_route(&event), MouseRoute::Child(0));
}

#[test]
fn test_grow_modes_on_resize() {
    let mut group = Group::new(Rect::new(0, 0, 40, 20));
    group.add_boxed(child(Rect::new(1, 1, 11, 3)));
    let mut growing = child(Rect::new(1, 5, 11, 7));
    growing.grow_mode = GF_GROW_HI_X | GF_GROW_HI_Y;
    group.add_boxed(growing);
    let mut all = child(Rect::new(30, 15, 39, 19));
    all.grow_mode = GF_GROW_LO_X | GF_GROW_LO_Y | GF_GROW_HI_X | GF_GROW_HI_Y;
    group.add_boxed(all);

    group.set_bounds(Rect::new(0, 0, 50, 25));
    assert_eq!(group.child_at(0).bounds, Rect::new(1, 1, 11, 3));
    assert_eq!(group.child_at(1).bounds, Rect::new(1, 5, 21, 12));
    assert_eq!(group.child_at(2).bounds, Rect::new(40, 20, 49, 24));

    group.set_bounds(Rect::new(5, 2, 55, 27));
    assert_eq!(group.child_at(0).bounds, Rect::new(1, 1, 11, 3));
    assert_eq!(group.child_at(1).bounds, Rect::new(1, 5, 21, 12));
    assert_eq!(group.child_at(2).bounds, Rect::new(40, 20, 49, 24));
}

#[test]
fn test_focus_restored_after_removing_focused_child() {
    let mut group = Group::new(Rect::new(0, 0, 80, 25));
    group.add_boxed(child(Rect::new(0, 0, 10, 2)));
    group.add_boxed(child(Rect::new(0, 3, 10, 5)));
    group.add_boxed(child(Rect::new(0, 6, 10, 8)));

    group.set_focus_to(1);
    assert!(group.child_at(1).is_focused());

    group.remove(1);
    assert_eq!(group.len(), 2);
    let focused_count = (0..group.len())
        .filter(|&i| group.child_at(i).state & SF_FOCUSED != 0)
        .count();
    assert_eq!(focused_count, 1);
    assert!(group.focused_child().unwrap().is_focused());
}

#[test]
fn test_broadcast_delivered_to_all_children() {
    let mut group = Group::new(Rect::new(0, 0, 80, 25));
    group.add_boxed(child(Rect::new(0, 0, 10, 2)));
    group.add_boxed(child(Rect::new(0, 3, 10, 5)));
    group.add_boxed(child(Rect::new(0, 6, 10, 8)));
    let event = Event::broadcast(200);
    assert_eq!(group.delivery_plan(&event), vec![0, 1, 2]);
}

#[test]
fn test_child_by_id() {
    let mut group = Group::new(Rect::new(0, 0, 50, 50));
    let id1 = group.add_boxed(child(Rect::new(0, 0, 10, 10)));
    let id2 = group.add_boxed(child(Rect::new(20, 0, 30, 10)));
    let id3 = group.add_boxed(child(Rect::new(40, 0, 50, 10)));

    assert!(group.child_by_id(id1).is_some());
    assert!(group.child_by_id(id2).is_some());
    assert!(group.child_by_id(id3).is_some());

    let invalid_id = ViewId::from_u16(999);
    assert!(group.child_by_id(invalid_id).is_none());
}

#[test]
fn test_child_by_id_mut() {
    let mut group = Group::new(Rect::new(0, 0, 50, 50));
    let child_id = group.add_boxed(child(Rect::new(0, 0, 10, 10)));
    assert!(group.child_by_id_mut(child_id, child(Rect::new(1, 1, 5, 5))));
    assert_eq!(group.child_by_id(child_id).unwrap().bounds, Rect::new(1, 1, 5, 5));

    let invalid_id = ViewId::from_u16(999);
    assert!(!group.child_by_id_mut(invalid_id, child(Rect::new(1, 1, 5, 5))));
}

#[test]
fn test_remove_by_id() {
    let mut group = Group::new(Rect::new(0, 0, 50, 50));
    let id1 = group.add_boxed(child(Rect::new(0, 0, 10, 10)));
    let id2 = group.add_boxed(child(Rect::new(20, 0, 30, 10)));
    let id3 = group.add_boxed(child(Rect::new(40, 0, 50, 10)));

    assert_eq!(group.len(), 3);
    assert!(group.child_by_id(id1).is_some());
    assert!(group.child_by_id(id2).is_some());
    assert!(group.child_by_id(id3).is_some());

    assert!(group.remove_by_id(id2));
    assert_eq!(group.len(), 2);
    assert!(group.child_by_id(id1).is_some());
    assert!(group.child_by_id(id2).is_none());
    assert!(group.child_by_id(id3).is_some());

    let invalid_id = ViewId::from_u16(999);
    assert!(!group.remove_by_id(invalid_id));
    assert_eq!(group.len(), 2);
}

#[test]
fn test_bring_to_front_syncs_view_ids() {
    let mut group = Group::new(Rect::new(0, 0, 80, 25));
    let id1 = group.add_boxed(child(Rect::new(0, 0, 10, 5)));
    let id2 = group.add_boxed(child(Rect::new(0, 0, 10, 5)));
    let id3 = group.add_boxed(child(Rect::new(0, 0, 10, 5)));

    group.bring_to_front(0);
    assert!(group.child_by_id(id1).is_some());
    assert!(group.child_by_id(id2).is_some());
    assert!(group.child_by_id(id3).is_some());
    assert_eq!(group.view_id_at(2), Some(id1));

    assert!(group.remove_by_id(id1));
    assert_eq!(group.len(), 2);
    assert!(group.child_by_id(id2).is_some());
    assert!(group.child_by_id(id3).is_some());
}

#[test]
fn test_send_to_back_syncs_view_ids() {
    let mut group = Group::new(Rect::new(0, 0, 80, 25));
    let id1 = group.add_boxed(child(Rect::new(0, 0, 10, 5)));
    let id2 = group.add_boxed(child(Rect::new(0, 0, 10, 5)));
    let id3 = group.add_boxed(child(Rect::new(0, 0, 10, 5)));

    group.send_to_back(2);
    assert!(group.child_by_id(id1).is_some());
    assert!(group.child_by_id(id2).is_some());
    assert!(group.child_by_id(id3).is_some());
    assert_eq!(group.view_id_at(1), Some(id3));

    assert!(group.remove_by_id(id3));
    assert_eq!(group.len(), 2);
    assert!(group.child_by_id(id1).is_some());
    assert!(group.child_by_id(id2).is_some());
}

#[test]
fn test_child_by_id_fragility_fix() {
    let mut group = Group::new(Rect::new(0, 0, 50, 50));
    let id1 = group.add_boxed(child(Rect::new(0, 0, 10, 10)));
    let id2 = group.add_boxed(child(Rect::new(20, 0, 30, 10)));
    let id3 = group.add_boxed(child(Rect::new(40, 0, 50, 10)));
    assert!(group.child_by_id(id1).is_some());
    assert!(group.child_by_id(id2).is_some());
    assert!(group.child_by_id(id3).is_some());

    let new_id = group.add_boxed(child(Rect::new(0, 20, 10, 30)));
    assert!(group.child_by_id(id1).is_some());
    assert!(group.child_by_id(id2).is_some());
    assert!(group.child_by_id(id3).is_some());
    assert!(group.child_by_id(new_id).is_some());
}

#[test]
fn tab_moves_the_focus_round_and_skips_what_cannot_take_it() {
    let mut group = Group::new(Rect::new(0, 0, 80, 25));
    group.add_boxed(child(Rect::new(0, 0, 10, 1)));
    group.add_boxed(ChildInfo::new(Rect::new(0, 1, 10, 2), false));
    group.add_boxed(child(Rect::new(0, 2, 10, 3)));
    group.set_initial_focus();
    let mut e = Event::keyboard(turbo_vision::event::KB_TAB);
    group.finish_keyboard(&mut e);
    assert_eq!(e.what, EventType::Nothing);
    assert_eq!(group.focused_child().unwrap().bounds, Rect::new(0, 2, 10, 3));
    let mut e = Event::keyboard(turbo_vision::event::KB_TAB);
    group.finish_keyboard(&mut e);
    assert_eq!(group.focused_child().unwrap().bounds, Rect::new(0, 0, 10, 1));
    let mut e = Event::keyboard(turbo_vision::event::KB_SHIFT_TAB);
    group.finish_keyboard(&mut e);
    assert_eq!(group.focused_child().unwrap().bounds, Rect::new(0, 2, 10, 3));
}

#[test]
fn keys_go_to_pre_processors_then_the_focus_then_post_processors() {
    let mut group = Group::new(Rect::new(0, 0, 80, 25));
    let mut post = child(Rect::new(0, 0, 10, 1));
    post.options = OF_POST_PROCESS;
    group.add_boxed(post);
    group.add_boxed(child(Rect::new(0, 1, 10, 2)));
    let mut pre = child(Rect::new(0, 2, 10, 3));
    pre.options = OF_PRE_PROCESS;
    group.add_boxed(pre);
    group.set_focus_to(1);
    let e = Event::keyboard(0x0041);
    assert_eq!(group.delivery_plan(&e), vec![2, 1, 0]);
}

#[test]
fn clicking_a_label_focuses_its_link() {
    let mut group = Group::new(Rect::new(0, 0, 80, 25));
    let target = group.add_boxed(child(Rect::new(10, 0, 20, 1)));
    let mut label = ChildInfo::new(Rect::new(0, 0, 9, 1), false);
    label.label_link = Some(target);
    group.add_boxed(label);
    let e = Event::mouse(EventType::MouseDown, Point::new(3, 0), 1, false);
    assert_eq!(group.mouse_route(&e), MouseRoute::Consumed);
    assert!(group.child_at(0).is_focused());
}

#[test]
fn a_built_group_is_empty() {
    let g = GroupBuilder::new().bounds(Rect::new(0, 0, 10, 10)).build();
    assert!(g.is_empty());
    assert_eq!(g.bounds(), Rect::new(0, 0, 10, 10));
}

#[test]
fn test_child_completely_outside_parent_not_drawn() {
    let group = Group::new(Rect::new(10, 10, 30, 30));
    let child_bounds = Rect::new(100, 15, 110, 20);
    assert!(!group.bounds().intersects(&child_bounds));
}

#[test]
fn test_child_inside_parent_is_drawn() {
    let mut group = Group::new(Rect::new(10, 10, 30, 30));
    group.add_boxed(child(Rect::new(5, 5, 15, 15)));
    assert_eq!(group.len(), 1);
    assert_eq!(group.child_at(0).bounds, Rect::new(5, 5, 15, 15));
    assert!(group.extent().intersects(&group.child_at(0).bounds));
    assert_eq!(group.draw_sub_views(0, group.extent()), vec![0]);
}

#[test]
fn test_child_partially_outside_parent() {
    let mut group = Group::new(Rect::new(10, 10, 30, 30));
    group.add_boxed(child(Rect::new(15, 15, 25, 25)));
    assert_eq!(group.child_at(0).bounds, Rect::new(15, 15, 25, 25));
    assert!(group.extent().intersects(&group.child_at(0).bounds));
}

#[test]
fn add_keeps_the_child_s_owner_relative_bounds() {
    let mut group = Group::new(Rect::new(20, 30, 60, 80));
    group.add_boxed(child(Rect::new(5, 10, 15, 20)));
    assert_eq!(group.child_at(0).bounds, Rect::new(5, 10, 15, 20));
}

#[test]
fn moving_a_group_leaves_its_children_where_they_were() {
    let mut group = Group::new(Rect::new(20, 30, 60, 80));
    group.add_boxed(child(Rect::new(5, 10, 15, 20)));
    group.set_bounds(Rect::new(0, 0, 40, 50));
    assert_eq!(group.child_at(0).bounds, Rect::new(5, 10, 15, 20));
}

#[test]
fn a_group_delivers_mouse_positions_in_the_child_s_own_space() {
    let mut group = Group::new(Rect::new(10, 2, 40, 12));
    group.add_boxed(child(Rect::new(4, 3, 14, 6)));
    let event = Event::mouse(EventType::MouseDown, Point::new(6, 4), 1, false);
    assert_eq!(group.mouse_route(&event), MouseRoute::Child(0));
    let local = group.event_for_child(0, &event);
    assert_eq!(local.mouse.pos, Point::new(2, 1));
}

#[test]
fn test_multiple_children_clipping() {
    let mut group = Group::new(Rect::new(0, 0, 50, 50));
    group.add_boxed(child(Rect::new(10, 10, 20, 20)));
    group.add_boxed(child(Rect::new(100, 100, 110, 110)));
    group.add_boxed(child(Rect::new(40, 40, 60, 60)));
    assert_eq!(group.len(), 3);
    assert!(group.bounds().intersects(&group.child_at(0).bounds));
    assert!(!group.bounds().intersects(&group.child_at(1).bounds));
    assert!(group.bounds().intersects(&group.child_at(2).bounds));
    assert_eq!(group.draw_sub_views(0, group.extent()), vec![0, 2]);
}

#[test]
fn a_child_larger_than_its_group_is_clipped_to_the_group() {
    // A 10x3 group at (5, 1) holding a child twice its width and a row too tall.
    let mut group = Group::new(Rect::new(5, 1, 15, 4));
    group.add_boxed(child(Rect::new(0, 0, 20, 4)));
    let clip = group.draw_clip();
    let origin = group.bounds().a;
    let local = |x: i16, y: i16| Point::new(x - origin.x, y - origin.y);
    assert!(clip.contains(local(14, 1)), "the child paints inside the group");
    assert!(!clip.contains(local(15, 1)), "the column just past the group's right edge is untouched");
    assert!(!clip.contains(local(16, 1)), "and so is the one after it");
    assert!(!clip.contains(local(5, 4)), "the row just past the group's bottom edge is untouched");
}

#[test]
fn a_group_can_allow_its_children_an_overhang() {
    let mut group = Group::new(Rect::new(5, 1, 15, 4));
    group.set_child_overhang(Point::new(2, 1));
    group.add_boxed(child(Rect::new(0, 0, 20, 4)));
    let clip = group.draw_clip();
    let origin = group.bounds().a;
    let local = |x: i16, y: i16| Point::new(x - origin.x, y - origin.y);
    assert!(clip.contains(local(16, 1)), "two columns of overhang are allowed");
    assert!(!clip.contains(local(17, 1)), "but no more than that");
}

#[test]
fn add_accepts_unboxed_and_boxed_views() {
    let mut g = Group::new(Rect::new(0, 0, 40, 10));
    g.add_boxed(child(Rect::new(0, 0, 5, 1)));
    let boxed: Box<ChildInfo> = Box::new(child(Rect::new(0, 1, 5, 2)));
    g.add_boxed(*boxed);
    assert_eq!(g.len(), 2);
}

#[test]
fn a_group_draws_its_children_translated_by_its_own_origin_and_theirs() {
    let mut outer = Group::new(Rect::new(10, 2, 40, 12));
    let mut inner = Group::new(Rect::new(3, 1, 20, 8));
    inner.add_boxed(child(Rect::new(2, 2, 6, 3)));
    outer.add_boxed(child(inner.bounds()));
    // The owner of `outer` puts it at its own origin, as any group would.
    let inner_origin = outer.child_origin(0, outer.bounds().a);
    let probe = inner.child_origin(0, inner_origin);
    assert_eq!(probe, Point::new(15, 5));
}

#[test]
fn a_group_restores_the_owner_space_position_after_dispatch() {
    let mut group = Group::new(Rect::new(0, 0, 40, 12));
    group.add_boxed(child(Rect::new(4, 3, 14, 6)));
    let event = Event::mouse(EventType::MouseDown, Point::new(6, 4), 1, false);
    let (mut d, mut step) = group.begin_dispatch(&event);
    let mut seen = Vec::new();
    let end = loop {
        match step {
            Delivery::To(i) => {
                // Like History: turn the click into a command, keep the anchor.
                let mut e = group.event_for_child(i, &d.event());
                seen.push(e.mouse.pos);
                e.what = EventType::Command;
                e.command = 61;
                step = group.delivered(&mut d, &e);
            }
            Delivery::Again(_) => panic!("no broadcast was made"),
            Delivery::Done(e) => break e,
        }
    };
    assert_eq!(seen[0], Point::new(2, 1));
    assert_eq!(end.what, EventType::Command);
    assert_eq!(end.mouse.pos, Point::new(6, 4));
}

#[test]
fn a_key_stops_at_the_first_child_that_uses_it() {
    let mut group = Group::new(Rect::new(0, 0, 80, 25));
    let mut pre = child(Rect::new(0, 0, 10, 1));
    pre.options = OF_PRE_PROCESS;
    group.add_boxed(pre);
    group.add_boxed(child(Rect::new(0, 1, 10, 2)));
    group.set_initial_focus();
    let (mut d, mut step) = group.begin_dispatch(&Event::keyboard(0x41));
    let mut order = Vec::new();
    let end = loop {
        match step {
            Delivery::To(i) => {
                order.push(i);
                let mut e = d.event();
                e.clear();
                step = group.delivered(&mut d, &e);
            }
            Delivery::Again(_) => panic!("no broadcast was made"),
            Delivery::Done(e) => break e,
        }
    };
    assert_eq!(order, vec![0]);
    assert_eq!(end.what, EventType::Nothing);
}
