//! The widget kinds the toolkit knows: a push button, a numeric display and a
//! plain container, and the closed set of payloads a tree node may carry.

use crate::events::{InputEvent, Response};
use crate::geometry::{Point, Rectangle, Size};
use crate::state::{StateManager, StateView, WidgetState};
use vstd::prelude::*;

verus! {

/// Whether `event` carries a point that lies in `bounds`; events without a
/// point never do.
pub open spec fn event_inside(bounds: Rectangle, event: InputEvent) -> bool {
    match event.spec_point() {
        Some(p) => bounds.holds(p),
        None => false,
    }
}

/// Computes whether the event lies within `bounds`.
pub fn event_within(bounds: &Rectangle, event: &InputEvent) -> (r: bool)
    ensures
        r == event_inside(*bounds, *event),
{
    match event.point() {
        Some(p) => bounds.contains(p),
        None => false,
    }
}

/// The response to an event: the message yielded after a change, or no
/// change.
pub open spec fn response_of<M>(changed: bool, msg: Option<M>) -> Response<M> {
    if changed {
        Response::Changed(msg)
    } else {
        Response::NotChanged
    }
}

/// `p` moved by `by`, where that stays on the grid.
pub open spec fn moved(p: Point, by: Point) -> Point {
    Point { x: (p.x + by.x) as i32, y: (p.y + by.y) as i32 }
}

/// Whether `p` moved by `by` stays on the grid.
pub open spec fn can_move(p: Point, by: Point) -> bool {
    i32::MIN <= p.x + by.x <= i32::MAX && i32::MIN <= p.y + by.y <= i32::MAX
}

/// Moves `p` by `by`.
pub fn offset_point(p: Point, by: Point) -> (r: Point)
    requires
        can_move(p, by),
    ensures
        r == moved(p, by),
{
    Point { x: p.x + by.x, y: p.y + by.y }
}

/// The size a button takes when none was given.
pub open spec fn default_button_size() -> Size {
    Size { width: 16, height: 16 }
}

/// The abstract value of a [`Button`].
pub struct ButtonView<M> {
    pub label: Seq<char>,
    pub pos: Option<Point>,
    pub size: Option<Size>,
    pub on_press: Option<M>,
    pub state: StateView,
}

impl<M> ButtonView<M> {
    pub open spec fn bounds(self) -> Rectangle {
        Rectangle {
            top_left: match self.pos { Some(p) => p, None => Point { x: 0, y: 0 } },
            size: match self.size { Some(s) => s, None => default_button_size() },
        }
    }

    /// The message a button yields: its press message while pressed.
    pub open spec fn message(self) -> Option<M> {
        if self.state.current == WidgetState::Pressed {
            self.on_press
        } else {
            None
        }
    }
}

/// A push button with a text label and an optional message sent on press.
#[derive(Clone, Debug)]
pub struct Button<'a, M> {
    label: &'a str,
    pos: Option<Point>,
    size: Option<Size>,
    on_press: Option<M>,
    state_manager: StateManager,
}

impl<'a, M> View for Button<'a, M> {
    type V = ButtonView<M>;

    closed spec fn view(&self) -> ButtonView<M> {
        ButtonView {
            label: self.label@,
            pos: self.pos,
            size: self.size,
            on_press: self.on_press,
            state: self.state_manager@,
        }
    }
}

impl<'a, M: Copy> Button<'a, M> {
    /// A button with no position, size or message yet, in `Normal`.
    pub fn new(label: &'a str) -> (r: Button<'a, M>)
        ensures
            r@.label == label@,
            r@.pos is None,
            r@.size is None,
            r@.on_press is None,
            r@.state == StateManager::new_view(),
    {
        Button { label, pos: None, size: None, on_press: None, state_manager: StateManager::new() }
    }

    pub fn on_press(self, msg: M) -> (r: Button<'a, M>)
        ensures
            r@ == (ButtonView { on_press: Some(msg), ..self@ }),
    {
        Button { on_press: Some(msg), ..self }
    }

    pub fn with_size(self, size: Size) -> (r: Button<'a, M>)
        ensures
            r@ == (ButtonView { size: Some(size), ..self@ }),
    {
        Button { size: Some(size), ..self }
    }

    pub fn with_position(self, pos: Point) -> (r: Button<'a, M>)
        ensures
            r@ == (ButtonView { pos: Some(pos), ..self@ }),
    {
        Button { pos: Some(pos), ..self }
    }

    pub fn label(&self) -> (r: &'a str)
        ensures
            r@ == self@.label,
    {
        self.label
    }

    /// The button's rectangle: its position, or the origin, and its size, or
    /// 16 by 16.
    pub fn bounding_box(&self) -> (r: Rectangle)
        ensures
            r == self@.bounds(),
    {
        let top_left = match self.pos {
            Some(p) => p,
            None => Point::zero(),
        };
        let size = match self.size {
            Some(s) => s,
            None => Size::new(16, 16),
        };
        Rectangle::new(top_left, size)
    }

    /// The press message while pressed, else none.
    pub fn to_message(&self) -> (r: Option<M>)
        ensures
            r == self@.message(),
    {
        match self.state_manager.current_state() {
            WidgetState::Pressed => self.on_press,
            _ => None,
        }
    }

    pub fn state_manager(&self) -> (r: &StateManager)
        ensures
            r@ == self@.state,
    {
        &self.state_manager
    }

    /// Runs `event` through the state machine, with containment taken from
    /// the bounding box; on a change, reports the message yielded afterwards.
    pub fn handle_event(&mut self, event: InputEvent) -> (r: Response<M>)
        ensures
            final(self)@ == (ButtonView {
                state: old(self)@.state.handle_event(event, event_inside(old(self)@.bounds(), event)),
                ..old(self)@
            }),
            r == response_of(
                old(self)@.state.event_moves(event, event_inside(old(self)@.bounds(), event)),
                final(self)@.message(),
            ),
    {
        let bounds = self.bounding_box();
        let inside = event_within(&bounds, &event);
        let changed = self.state_manager.handle_event(event, inside);
        if changed {
            Response::Changed(self.to_message())
        } else {
            Response::NotChanged
        }
    }

    pub fn set_state(&mut self, state: WidgetState) -> (changed: bool)
        ensures
            changed == old(self)@.state.moves_to(state),
            final(self)@ == (ButtonView { state: old(self)@.state.set_state(state), ..old(self)@ }),
    {
        self.state_manager.set_state(state)
    }

    pub fn set_enabled(&mut self, enabled: bool) -> (changed: bool)
        ensures
            changed == old(self)@.state.enable_moves(enabled),
            final(self)@ == (ButtonView { state: old(self)@.state.set_enabled(enabled), ..old(self)@ }),
    {
        self.state_manager.set_enabled(enabled)
    }

    /// A copy of the button moved by `by`; one with no position is placed at
    /// `by`.
    pub fn translate(&self, by: Point) -> (r: Button<'a, M>)
        requires
            match self@.pos { Some(p) => can_move(p, by), None => true },
        ensures
            r@ == (ButtonView {
                pos: Some(match self@.pos { Some(p) => moved(p, by), None => by }),
                ..self@
            }),
    {
        Button {
            label: self.label,
            pos: Some(match self.pos {
                Some(p) => offset_point(p, by),
                None => by,
            }),
            size: self.size,
            on_press: self.on_press,
            state_manager: self.state_manager,
        }
    }

    /// Moves the button by `by`; a button with no position is placed at `by`.
    pub fn translate_mut(&mut self, by: Point)
        requires
            match old(self)@.pos { Some(p) => can_move(p, by), None => true },
        ensures
            final(self)@ == (ButtonView {
                pos: Some(match old(self)@.pos { Some(p) => moved(p, by), None => by }),
                ..old(self)@
            }),
    {
        self.pos = Some(match self.pos {
            Some(p) => offset_point(p, by),
            None => by,
        });
    }
}

/// The abstract value of a [`Number`].
pub struct NumberView {
    pub number: i32,
    pub pos: Point,
    pub size: Size,
    pub state: StateView,
}

impl NumberView {
    pub open spec fn bounds(self) -> Rectangle {
        Rectangle { top_left: self.pos, size: self.size }
    }
}

/// A display of one integer. It yields no messages.
#[derive(Clone, Debug)]
pub struct Number {
    number: i32,
    pos: Point,
    size: Size,
    state_manager: StateManager,
}

impl View for Number {
    type V = NumberView;

    closed spec fn view(&self) -> NumberView {
        NumberView {
            number: self.number,
            pos: self.pos,
            size: self.size,
            state: self.state_manager@,
        }
    }
}

impl Number {
    /// A display of zero at `pos`, of size `size`, in `Normal`.
    pub fn new(pos: Point, size: Size) -> (r: Number)
        ensures
            r@ == (NumberView { number: 0, pos, size, state: StateManager::new_view() }),
    {
        Number { number: 0, pos, size, state_manager: StateManager::new() }
    }

    pub fn set(&mut self, number: i32)
        ensures
            final(self)@ == (NumberView { number, ..old(self)@ }),
    {
        self.number = number;
    }

    pub fn get(&self) -> (r: i32)
        ensures
            r == self@.number,
    {
        self.number
    }

    pub fn bounding_box(&self) -> (r: Rectangle)
        ensures
            r == self@.bounds(),
    {
        Rectangle::new(self.pos, self.size)
    }

    /// A display yields no message.
    pub fn to_message<M>(&self) -> (r: Option<M>)
        ensures
            r is None,
    {
        None
    }

    pub fn state_manager(&self) -> (r: &StateManager)
        ensures
            r@ == self@.state,
    {
        &self.state_manager
    }

    /// Runs `event` through the state machine, with containment taken from
    /// the bounding box.
    pub fn handle_event<M>(&mut self, event: InputEvent) -> (r: Response<M>)
        ensures
            final(self)@ == (NumberView {
                state: old(self)@.state.handle_event(event, event_inside(old(self)@.bounds(), event)),
                ..old(self)@
            }),
            r == response_of::<M>(old(self)@.state.event_moves(event, event_inside(old(self)@.bounds(), event)), None),
    {
        let bounds = self.bounding_box();
        let inside = event_within(&bounds, &event);
        let changed = self.state_manager.handle_event(event, inside);
        if changed {
            Response::Changed(self.to_message())
        } else {
            Response::NotChanged
        }
    }

    pub fn set_enabled(&mut self, enabled: bool) -> (changed: bool)
        ensures
            changed == old(self)@.state.enable_moves(enabled),
            final(self)@ == (NumberView { state: old(self)@.state.set_enabled(enabled), ..old(self)@ }),
    {
        self.state_manager.set_enabled(enabled)
    }

    /// A copy of the display moved by `by`.
    pub fn translate(&self, by: Point) -> (r: Number)
        requires
            can_move(self@.pos, by),
        ensures
            r@ == (NumberView { pos: moved(self@.pos, by), ..self@ }),
    {
        Number { number: self.number, pos: offset_point(self.pos, by), size: self.size, state_manager: self.state_manager }
    }

    /// Moves the display by `by`.
    pub fn translate_mut(&mut self, by: Point)
        requires
            can_move(old(self)@.pos, by),
        ensures
            final(self)@ == (NumberView { pos: moved(old(self)@.pos, by), ..old(self)@ }),
    {
        self.pos = offset_point(self.pos, by);
    }
}

/// A widget that only groups others; it yields no messages.
#[derive(Clone, Debug)]
pub struct Container {
    pos: Point,
    size: Size,
    state_manager: StateManager,
}

impl Container {
    pub closed spec fn spec_bounds(self) -> Rectangle {
        Rectangle { top_left: self.pos, size: self.size }
    }

    pub closed spec fn spec_state(self) -> StateView {
        self.state_manager@
    }

    pub fn new(pos: Point, size: Size) -> (r: Container)
        ensures
            r.spec_bounds() == Rectangle::new_spec(pos, size),
            r.spec_state() == StateManager::new_view(),
    {
        Container { pos, size, state_manager: StateManager::new() }
    }

    pub fn bounding_box(&self) -> (r: Rectangle)
        ensures
            r == self.spec_bounds(),
    {
        Rectangle::new(self.pos, self.size)
    }

    pub fn state_manager(&self) -> (r: &StateManager)
        ensures
            r@ == self.spec_state(),
    {
        &self.state_manager
    }
}

/// The widget a tree node may carry.
pub enum AnyWidget<'a, M> {
    Button(Button<'a, M>),
    Number(Number),
}

impl<'a, M: Copy> AnyWidget<'a, M> {
    pub open spec fn bounds(self) -> Rectangle {
        match self {
            AnyWidget::Button(b) => b@.bounds(),
            AnyWidget::Number(n) => n@.bounds(),
        }
    }

    pub open spec fn state(self) -> StateView {
        match self {
            AnyWidget::Button(b) => b@.state,
            AnyWidget::Number(n) => n@.state,
        }
    }

    /// The message the widget yields now: a button's press message while
    /// pressed; a display yields none.
    pub open spec fn message(self) -> Option<M> {
        match self {
            AnyWidget::Button(b) => b@.message(),
            AnyWidget::Number(_) => None,
        }
    }

    pub fn to_message(&self) -> (r: Option<M>)
        ensures
            r == self.message(),
    {
        match self {
            AnyWidget::Button(b) => b.to_message(),
            AnyWidget::Number(n) => n.to_message(),
        }
    }

    pub fn bounding_box(&self) -> (r: Rectangle)
        ensures
            r == self.bounds(),
    {
        match self {
            AnyWidget::Button(b) => b.bounding_box(),
            AnyWidget::Number(n) => n.bounding_box(),
        }
    }

    pub fn current_state(&self) -> (r: WidgetState)
        ensures
            r == self.state().current,
    {
        match self {
            AnyWidget::Button(b) => b.state_manager().current_state(),
            AnyWidget::Number(n) => n.state_manager().current_state(),
        }
    }

    /// Runs `event` through the widget with containment from its own
    /// bounding box.
    pub fn handle_event(&mut self, event: InputEvent) -> (r: Response<M>)
        ensures
            final(self).state() == old(self).state().handle_event(event, event_inside(old(self).bounds(), event)),
            final(self).bounds() == old(self).bounds(),
            r == response_of(
                old(self).state().event_moves(event, event_inside(old(self).bounds(), event)),
                final(self).message(),
            ),
    {
        match self {
            AnyWidget::Button(b) => b.handle_event(event),
            AnyWidget::Number(n) => n.handle_event(event),
        }
    }

    pub fn set_enabled(&mut self, enabled: bool) -> (changed: bool)
        ensures
            changed == old(self).state().enable_moves(enabled),
            final(self).state() == old(self).state().set_enabled(enabled),
            final(self).bounds() == old(self).bounds(),
    {
        match self {
            AnyWidget::Button(b) => b.set_enabled(enabled),
            AnyWidget::Number(n) => n.set_enabled(enabled),
        }
    }
}

} // verus!
