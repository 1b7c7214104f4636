use embui::element::{Element, ElementGroup, Placement, Widget};
use embui::events::{InputEvent, Response};
use embui::geometry::{Point, Rectangle, Size};
use embui::screen::Screen;
use embui::state::WidgetState;
use embui::style::{outline, state_to_colors, ColorRole};
use embui::tree::WidgetId;
use embui::widgets::{AnyWidget, Button, Container, Number};

#[derive(Clone, Copy, Debug, PartialEq)]
enum Message {
    Increment,
}

#[test]
fn test_element() {
    let b: Button<Message> = Button::new("test").with_position(Point::zero()).with_size(Size::new(64, 64));
    assert_eq!(b.bounding_box(), Rectangle::new(Point::zero(), Size::new(64, 64)));
}

#[test]
fn button_defaults_and_message_on_press() {
    let mut b: Button<Message> = Button::new("+").on_press(Message::Increment);
    assert_eq!(b.label(), "+");
    assert_eq!(b.bounding_box(), Rectangle::new(Point::zero(), Size::new(16, 16)));
    assert_eq!(b.to_message(), None);
    assert!(matches!(b.handle_event(InputEvent::MouseDown(Point::new(3, 3))), Response::Changed(Some(Message::Increment))));
    assert!(matches!(b.handle_event(InputEvent::MouseDown(Point::new(3, 3))), Response::NotChanged));
    assert!(matches!(b.handle_event(InputEvent::MouseUp(Point::new(30, 3))), Response::Changed(None)));
    assert_eq!(b.state_manager().current_state(), WidgetState::Normal);
    b.translate_mut(Point::new(5, 6));
    assert_eq!(b.bounding_box().top_left, Point::new(5, 6));
    b.translate_mut(Point::new(5, 6));
    assert_eq!(b.bounding_box().top_left, Point::new(10, 12));
    assert!(b.set_enabled(false));
    assert!(matches!(b.handle_event(InputEvent::MouseDown(Point::new(12, 14))), Response::NotChanged));
    assert!(b.set_state(WidgetState::Disabled) == false);
}

#[test]
fn number_holds_value_and_yields_no_message() {
    let mut n = Number::new(Point::new(0, 64), Size::new(64, 64));
    assert_eq!(n.get(), 0);
    n.set(-7);
    assert_eq!(n.get(), -7);
    assert!(matches!(n.handle_event::<Message>(InputEvent::Touch(Point::new(1, 70))), Response::Changed(None)));
    assert_eq!(n.to_message::<Message>(), None);
    n.translate_mut(Point::new(1, 1));
    assert_eq!(n.bounding_box(), Rectangle::new(Point::new(1, 65), Size::new(64, 64)));
    assert!(n.set_enabled(false));
}

#[test]
fn container_widget_bounds() {
    let c = Container::new(Point::new(3, 4), Size::new(5, 6));
    assert_eq!(c.bounding_box(), Rectangle::new(Point::new(3, 4), Size::new(5, 6)));
    assert_eq!(c.state_manager().current_state(), WidgetState::Normal);
}

#[test]
fn rectangle_contains_edges() {
    let r = Rectangle::new(Point::new(2, 4), Size::new(3, 5));
    assert!(r.contains(Point::new(2, 4)));
    assert!(r.contains(Point::new(4, 8)));
    assert!(!r.contains(Point::new(5, 8)));
    assert!(!r.contains(Point::new(4, 9)));
    assert!(!r.contains(Point::new(1, 4)));
    assert!(!Rectangle::new(Point::zero(), Size::zero()).contains(Point::zero()));
}

#[test]
fn colors_per_state_and_outline() {
    assert_eq!(
        state_to_colors(WidgetState::Focused),
        (ColorRole::ButtonHoveredBg, ColorRole::ButtonHoveredText, ColorRole::Primary)
    );
    assert_eq!(
        state_to_colors(WidgetState::Disabled),
        (ColorRole::ButtonDisabledBg, ColorRole::ButtonDisabledText, ColorRole::ButtonDisabledBorder)
    );
    assert_eq!(
        outline(Rectangle::new(Point::new(0, 0), Size::new(16, 16))),
        Rectangle::new(Point::new(2, 2), Size::new(12, 12))
    );
}

#[test]
fn element_and_placement() {
    let theme = 5u8;
    let mut e = Element::new(&theme, Widget::button("test"), 3);
    assert_eq!(e.id(), 3);
    assert!(matches!(e.widget(), Widget::Button { label: "test" }));
    assert!(matches!(Widget::text("t"), Widget::Text { text: "t" }));
    assert_eq!(e.bounding_box(), Rectangle::new(Point::zero(), Size::zero()));
    assert!(e.get_state_manager_mut().set_state(WidgetState::Pressed));
    assert_eq!(e.get_state_manager().current_state(), WidgetState::Pressed);
    let mut p = Placement(None, Some(Size::new(2, 2)));
    p.translate_impl(Point::new(4, 4));
    assert_eq!(p.bounding_box(), Rectangle::new(Point::new(4, 4), Size::new(2, 2)));
}

#[test]
fn screen_routes_to_tree() {
    let mut screen: Screen<Message, u32> = Screen::new(Rectangle::new(Point::zero(), Size::new(320, 240)));
    let screen_with_bg = Screen::<Message, u32>::new(Rectangle::new(Point::zero(), Size::new(10, 10))).with_background(7);
    assert_eq!(screen_with_bg.background_color(), Some(7));
    assert_eq!(screen.background_color(), None);
    let c = screen.add_container(Rectangle::new(Point::new(0, 0), Size::new(320, 100))).unwrap();
    let b = screen
        .add_widget_to_parent(c, AnyWidget::Button(Button::new("ok").with_size(Size::new(50, 50))))
        .unwrap();
    let n = screen.add_widget(AnyWidget::Number(Number::new(Point::new(0, 120), Size::new(30, 30)))).unwrap();
    let c2 = screen.add_container_to_parent(c, Rectangle::new(Point::new(200, 0), Size::new(10, 10))).unwrap();
    assert_eq!(screen.hit_test(Point::new(10, 10)), Some(b));
    assert_eq!(screen.hit_test(Point::new(10, 130)), Some(n));
    assert_eq!(screen.hit_test(Point::new(-1, 10)), None);
    assert_eq!(screen.hit_test(Point::new(205, 5)), None);
    assert!(screen.handle_event(InputEvent::MouseMove(Point::new(10, 10))));
    assert_eq!(screen.get_widget(b).unwrap().current_state(), WidgetState::Hovered);
    assert_eq!(screen.draw_order(), vec![b, n]);
    assert!(screen.set_visible(c, false));
    assert_eq!(screen.draw_order(), vec![n]);
    assert!(screen.remove_widget(c));
    assert!(!screen.tree().contains(c2));
    assert!(screen.get_widget(b).is_none());
    assert_eq!(screen.bounds(), Rectangle::new(Point::zero(), Size::new(320, 240)));
    assert_eq!(screen.tree_mut().len(), 2);
    assert_eq!(screen.tree().capacity(), 32);
    assert_eq!(screen.add_container_to_parent(WidgetId(99), Rectangle::new(Point::zero(), Size::zero())).is_err(), true);
}

#[test]
fn any_widget_reports_button_message() {
    let mut w: AnyWidget<Message> = AnyWidget::Button(Button::new("go").on_press(Message::Increment));
    assert!(matches!(w.handle_event(InputEvent::Touch(Point::new(1, 1))), Response::Changed(Some(Message::Increment))));
    assert_eq!(w.to_message(), Some(Message::Increment));
    assert!(matches!(w.handle_event(InputEvent::TouchRelease(Point::new(1, 1))), Response::Changed(None)));
    assert_eq!(w.current_state(), WidgetState::Normal);
    assert!(w.set_enabled(false));
    assert_eq!(w.current_state(), WidgetState::Disabled);
}

#[test]
fn screen_widget_mut() {
    let mut screen: Screen<Message, u32> = Screen::new(Rectangle::new(Point::zero(), Size::new(100, 100)));
    let b = screen.add_widget(AnyWidget::Button(Button::new("b"))).unwrap();
    if let Some(w) = screen.get_widget_mut(b) {
        assert!(w.set_enabled(false));
    }
    assert_eq!(screen.get_widget(b).unwrap().current_state(), WidgetState::Disabled);
}

#[test]
fn it_works() {
    let theme = 0u32;
    let mut container: ElementGroup<u32, 16> = ElementGroup::new(&theme, Placement(None, None), 0);
    container.add_widget(Widget::button("test"));
    container.add_widget(Widget::button("test2"));
    assert_eq!(container.len(), 2);
    assert_eq!(container.get_element(0).unwrap().id(), 0);
    assert_eq!(container.get_element(1).unwrap().id(), 1);
    assert!(container.get_element(2).is_none());
}

#[test]
fn translate_returns_moved_copy() {
    let b: Button<Message> = Button::new("t").with_position(Point::new(1, 2));
    let moved = b.translate(Point::new(10, 20));
    assert_eq!(moved.bounding_box().top_left, Point::new(11, 22));
    assert_eq!(b.bounding_box().top_left, Point::new(1, 2));
    let unplaced: Button<Message> = Button::new("u");
    assert_eq!(unplaced.translate(Point::new(3, 3)).bounding_box().top_left, Point::new(3, 3));
    let n = Number::new(Point::new(5, 5), Size::new(8, 8));
    assert_eq!(n.translate(Point::new(-5, 1)).bounding_box().top_left, Point::new(0, 6));
}
