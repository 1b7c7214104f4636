use embui::geometry::{Point, Rectangle, Size};
use embui::tree::{TreeError, WidgetId, WidgetTree};
use embui::widgets::{AnyWidget, Button, Number};

fn rect(x: i32, y: i32, w: u32, h: u32) -> Rectangle {
    Rectangle::new(Point::new(x, y), Size::new(w, h))
}

fn button(x: i32, y: i32, w: u32, h: u32) -> AnyWidget<'static, u8> {
    AnyWidget::Button(Button::new("b").with_position(Point::new(x, y)).with_size(Size::new(w, h)))
}

#[test]
fn hit_test_two_siblings_in_container() {
    let mut tree: WidgetTree<u8> = WidgetTree::new(4);
    let c = tree.add_container(WidgetId::root(), rect(0, 0, 320, 100)).unwrap();
    let first = tree.add_widget(c, button(0, 0, 100, 100)).unwrap();
    let second = tree.add_widget(c, button(100, 0, 100, 100)).unwrap();
    assert_eq!(tree.hit_test(Point::new(150, 50)), Some(second));
    assert_eq!(tree.hit_test(Point::new(5, 5)), Some(first));
    assert_eq!(tree.hit_test(Point::new(5, 150)), None);
    assert_eq!(tree.add_widget(c, button(0, 0, 1, 1)), Err(TreeError::TreeFull));
}

#[test]
fn root_is_permanent() {
    let mut tree: WidgetTree<u8> = WidgetTree::new(8);
    assert!(tree.contains(WidgetId::root()));
    assert!(!tree.remove_widget(WidgetId::root()));
    let root = tree.get_node(WidgetId::root()).unwrap();
    assert_eq!(root.id(), WidgetId::root());
    assert_eq!(root.parent(), WidgetId::invalid());
    assert_eq!(tree.len(), 1);
}

#[test]
fn ids_increase_and_are_not_reused() {
    let mut tree: WidgetTree<u8> = WidgetTree::new(3);
    let a = tree.add_container(WidgetId::root(), rect(0, 0, 10, 10)).unwrap();
    let b = tree.add_container(WidgetId::root(), rect(0, 0, 10, 10)).unwrap();
    assert!(b.0 > a.0);
    assert!(tree.remove_widget(b));
    let c = tree.add_container(WidgetId::root(), rect(0, 0, 10, 10)).unwrap();
    assert!(c.0 > b.0);
    assert_eq!((a.0, b.0, c.0), (1, 2, 3));
}

#[test]
fn remove_takes_the_whole_subtree() {
    let mut tree: WidgetTree<u8> = WidgetTree::new(8);
    let a = tree.add_container(WidgetId::root(), rect(0, 0, 50, 50)).unwrap();
    let b = tree.add_container(a, rect(0, 0, 20, 20)).unwrap();
    let c = tree.add_widget(b, button(0, 0, 5, 5)).unwrap();
    let d = tree.add_widget(WidgetId::root(), button(60, 0, 5, 5)).unwrap();
    let e = tree.add_widget(a, button(30, 0, 5, 5)).unwrap();
    assert_eq!(tree.len(), 6);
    assert!(tree.remove_widget(b));
    assert_eq!(tree.len(), 4);
    assert!(!tree.contains(b));
    assert!(!tree.contains(c));
    assert!(tree.contains(a) && tree.contains(d) && tree.contains(e));
    let an = tree.get_node(a).unwrap();
    assert_eq!(an.child_count(), 1);
    assert_eq!(an.child(0), e);
    assert!(!tree.remove_widget(b));
    assert!(tree.remove_widget(a));
    assert_eq!(tree.len(), 2);
    assert!(!tree.contains(e));
    let root = tree.get_node(WidgetId::root()).unwrap();
    assert_eq!(root.child_count(), 1);
    assert_eq!(root.child(0), d);
}

#[test]
fn insert_errors() {
    let mut tree: WidgetTree<u8> = WidgetTree::new(40);
    assert_eq!(tree.add_container(WidgetId(77), rect(0, 0, 1, 1)), Err(TreeError::ParentNotFound));
    for _ in 0..16 {
        assert!(tree.add_container(WidgetId::root(), rect(0, 0, 1, 1)).is_ok());
    }
    assert_eq!(tree.add_container(WidgetId::root(), rect(0, 0, 1, 1)), Err(TreeError::ParentFull));
    assert_eq!(tree.len(), 17);
    let mut small: WidgetTree<u8> = WidgetTree::new(0);
    assert_eq!(small.capacity(), 1);
    assert_eq!(small.add_container(WidgetId::root(), rect(0, 0, 1, 1)), Err(TreeError::TreeFull));
}

#[test]
fn visibility_is_conjunctive() {
    let mut tree: WidgetTree<u8> = WidgetTree::new(8);
    let a = tree.add_container(WidgetId::root(), rect(0, 0, 50, 50)).unwrap();
    let b = tree.add_widget(a, button(0, 0, 5, 5)).unwrap();
    assert!(tree.is_visible(b));
    assert!(tree.set_visible(a, false));
    assert!(!tree.is_visible(b));
    assert!(!tree.is_visible(a));
    assert!(tree.get_node(b).unwrap().is_visible());
    assert!(tree.set_visible(a, true));
    assert!(tree.is_visible(b));
    assert!(!tree.set_visible(WidgetId(99), true));
    assert!(!tree.is_visible(WidgetId(99)));
}

#[test]
fn set_visible_twice_is_idempotent() {
    let mut tree: WidgetTree<u8> = WidgetTree::new(8);
    let a = tree.add_widget(WidgetId::root(), button(0, 0, 5, 5)).unwrap();
    assert!(tree.set_visible(a, false));
    assert!(tree.set_visible(a, true));
    let first = tree.draw_order();
    assert!(tree.set_visible(a, true));
    assert_eq!(tree.draw_order(), first);
    assert!(tree.is_visible(a));
    assert_eq!(tree.draw_order(), tree.draw_order());
}

#[test]
fn absolute_bounds_accumulate_offsets() {
    let mut tree: WidgetTree<u8> = WidgetTree::new(8);
    let a = tree.add_container(WidgetId::root(), rect(10, 20, 100, 100)).unwrap();
    let b = tree.add_container(a, rect(5, 6, 50, 50)).unwrap();
    let w = tree.add_widget(b, button(1, 2, 7, 8)).unwrap();
    assert_eq!(tree.absolute_bounds(w), Some(rect(16, 28, 7, 8)));
    assert_eq!(tree.absolute_bounds(WidgetId(50)), None);
    assert_eq!(tree.hit_test(Point::new(16, 28)), Some(w));
    assert_eq!(tree.hit_test(Point::new(23, 28)), None);
}

#[test]
fn absolute_bounds_clamp_to_i32() {
    let mut tree: WidgetTree<u8> = WidgetTree::new(8);
    let a = tree.add_container(WidgetId::root(), rect(i32::MAX, 0, 10, 10)).unwrap();
    let b = tree.add_container(a, rect(i32::MAX, i32::MIN, 10, 10)).unwrap();
    let c = tree.add_container(b, rect(0, i32::MIN, 10, 10)).unwrap();
    assert_eq!(tree.absolute_bounds(c), Some(rect(i32::MAX, i32::MIN, 10, 10)));
}

#[test]
fn hit_test_prefers_last_added_and_skips_hidden_and_containers() {
    let mut tree: WidgetTree<u8> = WidgetTree::new(8);
    let under = tree.add_widget(WidgetId::root(), button(0, 0, 10, 10)).unwrap();
    let over = tree.add_widget(WidgetId::root(), button(0, 0, 10, 10)).unwrap();
    let empty = tree.add_container(WidgetId::root(), rect(100, 100, 10, 10)).unwrap();
    assert_eq!(tree.hit_test(Point::new(5, 5)), Some(over));
    assert!(tree.set_visible(over, false));
    assert_eq!(tree.hit_test(Point::new(5, 5)), Some(under));
    assert_eq!(tree.hit_test(Point::new(105, 105)), None);
    assert!(tree.contains(empty));
    assert_eq!(tree.hit_test(Point::new(10, 5)), None);
}

#[test]
fn draw_order_is_pre_order_over_visible_widgets() {
    let mut tree: WidgetTree<u8> = WidgetTree::new(8);
    let a = tree.add_container(WidgetId::root(), rect(0, 0, 50, 50)).unwrap();
    let x = tree.add_widget(WidgetId::root(), button(0, 0, 5, 5)).unwrap();
    let y = tree.add_widget(a, button(0, 0, 5, 5)).unwrap();
    let h = tree.add_container(a, rect(0, 0, 5, 5)).unwrap();
    let z = tree.add_widget(h, button(0, 0, 5, 5)).unwrap();
    assert_eq!(tree.draw_order(), vec![y, z, x]);
    assert!(tree.set_visible(h, false));
    assert_eq!(tree.draw_order(), vec![y, x]);
}

#[test]
fn tree_dispatches_events_to_every_widget() {
    let mut tree: WidgetTree<u8> = WidgetTree::new(8);
    let a = tree.add_widget(WidgetId::root(), button(0, 0, 10, 10)).unwrap();
    let n = tree
        .add_widget(WidgetId::root(), AnyWidget::Number(Number::new(Point::new(20, 0), Size::new(10, 10))))
        .unwrap();
    assert!(tree.handle_event(embui::events::InputEvent::MouseMove(Point::new(5, 5))));
    assert_eq!(tree.get_widget(a).unwrap().current_state(), embui::state::WidgetState::Hovered);
    assert_eq!(tree.get_widget(n).unwrap().current_state(), embui::state::WidgetState::Normal);
    assert!(!tree.handle_event(embui::events::InputEvent::KeyPress('x')));
    assert!(tree.get_widget(WidgetId::root()).is_none());
}

#[test]
fn widget_mut_changes_only_that_widget() {
    let mut tree: WidgetTree<u8> = WidgetTree::new(8);
    let n = tree
        .add_widget(WidgetId::root(), AnyWidget::Number(Number::new(Point::new(0, 0), Size::new(10, 10))))
        .unwrap();
    let c = tree.add_container(WidgetId::root(), rect(0, 0, 5, 5)).unwrap();
    match tree.get_widget_mut(n) {
        Some(AnyWidget::Number(num)) => num.set(42),
        _ => panic!("expected the number display"),
    }
    match tree.get_widget(n) {
        Some(AnyWidget::Number(num)) => assert_eq!(num.get(), 42),
        _ => panic!("expected the number display"),
    }
    assert!(tree.get_widget_mut(c).is_none());
    assert!(tree.get_widget_mut(WidgetId(60)).is_none());
    assert_eq!(tree.len(), 3);
}

#[test]
fn ids_run_out_after_the_last_one() {
    let mut tree: WidgetTree<u8> = WidgetTree::new(2);
    let mut last = 0u16;
    loop {
        match tree.add_container(WidgetId::root(), rect(0, 0, 1, 1)) {
            Ok(id) => {
                assert!(id.0 > last);
                last = id.0;
                assert!(tree.remove_widget(id));
            }
            Err(e) => {
                assert_eq!(e, TreeError::TreeFull);
                break;
            }
        }
    }
    assert_eq!(last, 65534);
    assert_eq!(tree.len(), 1);
}
