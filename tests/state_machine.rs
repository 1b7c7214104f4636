use embui::events::InputEvent;
use embui::geometry::Point;
use embui::state::{StateManager, WidgetState};

#[test]
fn state_manager_basic() {
    let mut sm = StateManager::new();
    assert_eq!(sm.current_state(), WidgetState::Normal);
    assert!(sm.is_enabled());

    assert!(sm.set_state(WidgetState::Hovered));
    assert_eq!(sm.current_state(), WidgetState::Hovered);
    assert_eq!(sm.previous_state(), WidgetState::Normal);

    assert!(sm.set_enabled(false));
    assert_eq!(sm.current_state(), WidgetState::Disabled);
    assert!(!sm.is_enabled());
}

#[test]
fn state_manager_events() {
    let mut sm = StateManager::new();

    assert!(sm.handle_event(InputEvent::MouseMove(Point::zero()), true));
    assert_eq!(sm.current_state(), WidgetState::Hovered);

    assert!(sm.handle_event(InputEvent::MouseDown(Point::zero()), true));
    assert_eq!(sm.current_state(), WidgetState::Pressed);

    assert!(sm.handle_event(InputEvent::MouseUp(Point::zero()), true));
    assert_eq!(sm.current_state(), WidgetState::Hovered);
}

#[test]
fn click_released_outside_ends_normal() {
    let mut sm = StateManager::new();
    assert!(sm.handle_event(InputEvent::MouseMove(Point::new(3, 4)), true));
    assert!(sm.handle_event(InputEvent::MouseDown(Point::new(3, 4)), true));
    assert!(sm.handle_event(InputEvent::MouseUp(Point::new(300, 400)), false));
    assert_eq!(sm.current_state(), WidgetState::Normal);
    assert_eq!(sm.previous_state(), WidgetState::Pressed);
}

#[test]
fn transition_table_rows() {
    let p = Point::new(1, 1);
    let mut sm = StateManager::new();
    assert!(!sm.handle_event(InputEvent::MouseMove(p), false));
    assert!(sm.handle_event(InputEvent::Touch(p), true));
    assert_eq!(sm.current_state(), WidgetState::Pressed);
    assert!(sm.handle_event(InputEvent::TouchRelease(p), false));
    assert_eq!(sm.current_state(), WidgetState::Normal);
    assert!(!sm.handle_event(InputEvent::Touch(p), false));
    assert!(!sm.handle_event(InputEvent::KeyPress('a'), true));
    assert!(sm.handle_event(InputEvent::MouseMove(p), true));
    assert!(sm.handle_event(InputEvent::MouseMove(p), false));
    assert_eq!(sm.current_state(), WidgetState::Normal);
    assert!(sm.set_state(WidgetState::Focused));
    assert!(sm.handle_event(InputEvent::MouseMove(p), true));
    assert_eq!(sm.current_state(), WidgetState::Hovered);
    assert!(sm.set_state(WidgetState::Focused));
    assert!(sm.handle_event(InputEvent::MouseMove(p), false));
    assert_eq!(sm.current_state(), WidgetState::Normal);
}

#[test]
fn disabled_ignores_events_and_restores_focus() {
    let p = Point::new(1, 1);
    let mut sm = StateManager::new();
    assert!(sm.set_state(WidgetState::Focused));
    assert!(sm.set_enabled(false));
    assert_eq!(sm.current_state(), WidgetState::Disabled);
    assert!(!sm.handle_event(InputEvent::MouseMove(p), true));
    assert!(!sm.handle_event(InputEvent::MouseDown(p), true));
    assert!(!sm.set_state(WidgetState::Hovered));
    assert!(!sm.set_enabled(false));
    assert_eq!(sm.current_state(), WidgetState::Disabled);
    assert!(sm.set_enabled(true));
    assert_eq!(sm.current_state(), WidgetState::Focused);
    assert!(!sm.set_enabled(true));
}

#[test]
fn disabled_from_hovered_restores_normal() {
    let mut sm = StateManager::new();
    assert!(sm.set_state(WidgetState::Hovered));
    assert!(sm.set_enabled(false));
    assert!(sm.set_enabled(true));
    assert_eq!(sm.current_state(), WidgetState::Normal);
}

#[test]
fn reset_and_state_changed() {
    let mut sm = StateManager::default();
    assert!(!sm.state_changed());
    assert!(sm.set_state(WidgetState::Pressed));
    assert!(sm.state_changed());
    sm.reset();
    assert_eq!(sm.current_state(), WidgetState::Normal);
    assert!(!sm.state_changed());
    sm.set_enabled(false);
    sm.reset();
    assert_eq!(sm.current_state(), WidgetState::Disabled);
    assert_eq!(sm.previous_state(), WidgetState::Disabled);
}

#[test]
fn state_predicates() {
    assert!(WidgetState::Normal.is_interactive());
    assert!(!WidgetState::Disabled.is_interactive());
    assert!(WidgetState::Pressed.is_pressed());
    assert!(!WidgetState::Hovered.is_pressed());
    assert!(WidgetState::Focused.is_focused());
    assert!(!WidgetState::Normal.is_focused());
}
