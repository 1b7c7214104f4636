//! Raw input events and widget responses.

use crate::geometry::Point;
use vstd::prelude::*;

verus! {

/// A raw input event handed in by the host's event loop.
#[derive(Debug, Clone, Copy, PartialEq, Eq, Structural)]
pub enum InputEvent {
    Touch(Point),
    TouchRelease(Point),
    KeyPress(char),
    MouseMove(Point),
    MouseDown(Point),
    MouseUp(Point),
}

impl InputEvent {
    /// The point an event carries, if it carries one.
    pub open spec fn spec_point(self) -> Option<Point> {
        match self {
            InputEvent::Touch(p) => Some(p),
            InputEvent::TouchRelease(p) => Some(p),
            InputEvent::KeyPress(_) => None,
            InputEvent::MouseMove(p) => Some(p),
            InputEvent::MouseDown(p) => Some(p),
            InputEvent::MouseUp(p) => Some(p),
        }
    }

    pub fn point(&self) -> (r: Option<Point>)
        ensures
            r == self.spec_point(),
    {
        match *self {
            InputEvent::Touch(p) => Some(p),
            InputEvent::TouchRelease(p) => Some(p),
            InputEvent::KeyPress(_) => None,
            InputEvent::MouseMove(p) => Some(p),
            InputEvent::MouseDown(p) => Some(p),
            InputEvent::MouseUp(p) => Some(p),
        }
    }
}

/// What a widget reports after handling an event.
#[derive(Debug, Clone, Copy)]
pub enum Response<M> {
    Changed(Option<M>),
    NotChanged,
}

} // verus!
