//! The per-widget interaction state machine.

use crate::events::InputEvent;
use vstd::prelude::*;

verus! {

/// The interaction state of a widget.
#[derive(Debug, Clone, Copy, PartialEq, Eq, Structural)]
pub enum WidgetState {
    Normal,
    Hovered,
    Pressed,
    Focused,
    Disabled,
}

impl WidgetState {
    /// Whether the state allows user interaction.
    pub fn is_interactive(self) -> (r: bool)
        ensures
            r == (self != WidgetState::Disabled),
    {
        !matches!(self, WidgetState::Disabled)
    }

    /// Whether the widget is being pressed.
    pub fn is_pressed(self) -> (r: bool)
        ensures
            r == (self == WidgetState::Pressed),
    {
        matches!(self, WidgetState::Pressed)
    }

    /// Whether the widget has focus.
    pub fn is_focused(self) -> (r: bool)
        ensures
            r == (self == WidgetState::Focused),
    {
        matches!(self, WidgetState::Focused)
    }
}

/// The transition table: the state that `event` leads to from `cur`, where
/// `inside` tells whether the event's point lies within the widget.
pub open spec fn transition(cur: WidgetState, event: InputEvent, inside: bool) -> Option<WidgetState> {
    match (cur, event) {
        (WidgetState::Normal, InputEvent::MouseMove(_)) => if inside { Some(WidgetState::Hovered) } else { None },
        (WidgetState::Hovered, InputEvent::MouseMove(_)) => if !inside { Some(WidgetState::Normal) } else { None },
        (WidgetState::Normal, InputEvent::MouseDown(_)) => if inside { Some(WidgetState::Pressed) } else { None },
        (WidgetState::Hovered, InputEvent::MouseDown(_)) => if inside { Some(WidgetState::Pressed) } else { None },
        (WidgetState::Pressed, InputEvent::MouseUp(_)) => if inside { Some(WidgetState::Hovered) } else { Some(WidgetState::Normal) },
        (WidgetState::Normal, InputEvent::Touch(_)) => if inside { Some(WidgetState::Pressed) } else { None },
        (WidgetState::Pressed, InputEvent::TouchRelease(_)) => Some(WidgetState::Normal),
        (WidgetState::Focused, InputEvent::MouseMove(_)) => if inside { Some(WidgetState::Hovered) } else { Some(WidgetState::Normal) },
        _ => None,
    }
}

/// The abstract value of a [`StateManager`].
pub struct StateView {
    pub current: WidgetState,
    pub previous: WidgetState,
    pub enabled: bool,
}

impl StateView {
    /// A disabled manager always sits in `Disabled`.
    pub open spec fn wf(self) -> bool {
        !self.enabled ==> self.current == WidgetState::Disabled
    }

    /// `set_state(new)` is refused on a disabled manager that sits in `Disabled`.
    pub open spec fn blocks(self, new: WidgetState) -> bool {
        self.current == WidgetState::Disabled && new != WidgetState::Disabled && !self.enabled
    }

    /// Whether `set_state(new)` changes anything.
    pub open spec fn moves_to(self, new: WidgetState) -> bool {
        !self.blocks(new) && self.current != new
    }

    /// The value after `set_state(new)`.
    pub open spec fn set_state(self, new: WidgetState) -> StateView {
        if self.moves_to(new) {
            StateView { current: new, previous: self.current, enabled: self.enabled }
        } else {
            self
        }
    }

    /// The state that switching to `enabled` aims for: `Disabled` when
    /// disabling; when enabling, `Focused` if focus was the state left last,
    /// else `Normal`.
    pub open spec fn enable_target(self, enabled: bool) -> WidgetState {
        if !enabled {
            WidgetState::Disabled
        } else if self.previous == WidgetState::Focused {
            WidgetState::Focused
        } else {
            WidgetState::Normal
        }
    }

    /// Whether `set_enabled(enabled)` changes the state.
    pub open spec fn enable_moves(self, enabled: bool) -> bool {
        self.enabled != enabled && self.current != self.enable_target(enabled)
    }

    /// The value after `set_enabled(enabled)`.
    pub open spec fn set_enabled(self, enabled: bool) -> StateView {
        if self.enabled == enabled {
            self
        } else {
            StateView { enabled, ..self }.set_state(self.enable_target(enabled))
        }
    }

    /// Whether `handle_event(event, inside)` changes the state.
    pub open spec fn event_moves(self, event: InputEvent, inside: bool) -> bool {
        self.enabled && transition(self.current, event, inside) is Some
    }

    /// The value after `handle_event(event, inside)`.
    pub open spec fn handle_event(self, event: InputEvent, inside: bool) -> StateView {
        if self.event_moves(event, inside) {
            self.set_state(transition(self.current, event, inside).unwrap())
        } else {
            self
        }
    }

    /// The value after `reset()`.
    pub open spec fn reset(self) -> StateView {
        let s = if self.enabled { WidgetState::Normal } else { WidgetState::Disabled };
        StateView { current: s, previous: s, enabled: self.enabled }
    }
}

/// Tracks the current and previous interaction state of one widget, and
/// whether it is enabled.
#[derive(Debug, Clone, Copy, PartialEq, Eq, Structural)]
pub struct StateManager {
    current_state: WidgetState,
    previous_state: WidgetState,
    enabled: bool,
}

impl View for StateManager {
    type V = StateView;

    closed spec fn view(&self) -> StateView {
        StateView {
            current: self.current_state,
            previous: self.previous_state,
            enabled: self.enabled,
        }
    }
}

impl StateManager {
    /// The value of a fresh manager: `Normal`, enabled.
    pub open spec fn new_view() -> StateView {
        StateView { current: WidgetState::Normal, previous: WidgetState::Normal, enabled: true }
    }

    /// A manager in `Normal`, enabled.
    pub fn new() -> (r: StateManager)
        ensures
            r@ == StateManager::new_view(),
    {
        StateManager {
            current_state: WidgetState::Normal,
            previous_state: WidgetState::Normal,
            enabled: true,
        }
    }

    pub fn current_state(&self) -> (r: WidgetState)
        ensures
            r == self@.current,
    {
        self.current_state
    }

    pub fn previous_state(&self) -> (r: WidgetState)
        ensures
            r == self@.previous,
    {
        self.previous_state
    }

    pub fn is_enabled(&self) -> (r: bool)
        ensures
            r == self@.enabled,
    {
        self.enabled
    }

    /// Moves to `new_state`, remembering the state left. Returns whether the
    /// state changed: it does not when `new_state` is the current state, nor
    /// out of `Disabled` while the manager is disabled.
    pub fn set_state(&mut self, new_state: WidgetState) -> (changed: bool)
        ensures
            changed == old(self)@.moves_to(new_state),
            final(self)@ == old(self)@.set_state(new_state),
    {
        if self.current_state == WidgetState::Disabled && new_state != WidgetState::Disabled
            && !self.enabled {
            return false;
        }
        if self.current_state == new_state {
            return false;
        }
        self.previous_state = self.current_state;
        self.current_state = new_state;
        true
    }

    /// Enables or disables the manager. Disabling forces `Disabled`;
    /// enabling restores `Focused` if the widget was focused before it was
    /// disabled, else `Normal`. Returns whether the state changed; a call
    /// that does not change `enabled` changes nothing.
    pub fn set_enabled(&mut self, enabled: bool) -> (changed: bool)
        ensures
            changed == old(self)@.enable_moves(enabled),
            final(self)@ == old(self)@.set_enabled(enabled),
            final(self)@.enabled == enabled,
    {
        if self.enabled == enabled {
            return false;
        }
        self.enabled = enabled;
        if enabled {
            let target = if self.previous_state == WidgetState::Focused {
                WidgetState::Focused
            } else {
                WidgetState::Normal
            };
            self.set_state(target)
        } else {
            self.set_state(WidgetState::Disabled)
        }
    }

    /// Feeds one event through the transition table; `contains_point` tells
    /// whether the event's point lies within the widget. A disabled manager
    /// ignores every event. Returns whether the state changed.
    pub fn handle_event(&mut self, event: InputEvent, contains_point: bool) -> (changed: bool)
        ensures
            changed == old(self)@.event_moves(event, contains_point),
            final(self)@ == old(self)@.handle_event(event, contains_point),
    {
        if !self.enabled {
            return false;
        }
        let new_state = match (self.current_state, event) {
            (WidgetState::Normal, InputEvent::MouseMove(_)) if contains_point => Some(WidgetState::Hovered),
            (WidgetState::Hovered, InputEvent::MouseMove(_)) if !contains_point => Some(WidgetState::Normal),
            (WidgetState::Hovered, InputEvent::MouseDown(_)) if contains_point => Some(WidgetState::Pressed),
            (WidgetState::Normal, InputEvent::MouseDown(_)) if contains_point => Some(WidgetState::Pressed),
            (WidgetState::Pressed, InputEvent::MouseUp(_)) => {
                if contains_point {
                    Some(WidgetState::Hovered)
                } else {
                    Some(WidgetState::Normal)
                }
            },
            (WidgetState::Normal, InputEvent::Touch(_)) if contains_point => Some(WidgetState::Pressed),
            (WidgetState::Pressed, InputEvent::TouchRelease(_)) => Some(WidgetState::Normal),
            (WidgetState::Focused, InputEvent::MouseMove(_)) if contains_point => Some(WidgetState::Hovered),
            (WidgetState::Focused, InputEvent::MouseMove(_)) if !contains_point => Some(WidgetState::Normal),
            _ => None,
        };
        match new_state {
            Some(state) => self.set_state(state),
            None => false,
        }
    }

    /// Goes back to `Normal`, or to `Disabled` when disabled, and forgets the
    /// previous state.
    pub fn reset(&mut self)
        ensures
            final(self)@ == old(self)@.reset(),
    {
        self.current_state = if self.enabled {
            WidgetState::Normal
        } else {
            WidgetState::Disabled
        };
        self.previous_state = self.current_state;
    }

    /// Whether the last transition is still visible, that is the current
    /// state differs from the previous one.
    pub fn state_changed(&self) -> (r: bool)
        ensures
            r == (self@.current != self@.previous),
    {
        self.current_state != self.previous_state
    }
}

impl Default for StateManager {
    fn default() -> (r: StateManager)
        ensures
            r@ == StateManager::new_view(),
    {
        StateManager::new()
    }
}

/// Every operation keeps a disabled manager in `Disabled`.
pub proof fn lemma_wf_preserved(v: StateView, new: WidgetState, enabled: bool, event: InputEvent, inside: bool)
    requires
        v.wf(),
    ensures
        v.set_state(new).wf(),
        v.set_enabled(enabled).wf(),
        v.handle_event(event, inside).wf(),
        v.reset().wf(),
{
}

/// From `Normal`, moving in, pressing and releasing inside ends in `Hovered`;
/// releasing outside instead ends in `Normal`. The points themselves do not
/// matter, only whether they lie inside.
pub proof fn lemma_click_sequence(v: StateView, a: crate::geometry::Point, b: crate::geometry::Point, c: crate::geometry::Point)
    requires
        v.enabled,
        v.current == WidgetState::Normal,
    ensures
        v.handle_event(InputEvent::MouseMove(a), true)
            .handle_event(InputEvent::MouseDown(b), true)
            .handle_event(InputEvent::MouseUp(c), true).current == WidgetState::Hovered,
        v.handle_event(InputEvent::MouseMove(a), true)
            .handle_event(InputEvent::MouseDown(b), true)
            .handle_event(InputEvent::MouseUp(c), false).current == WidgetState::Normal,
{
}

/// Disabling forces `Disabled`; while disabled every event is ignored;
/// enabling again restores `Focused` if the widget was focused when it was
/// disabled, else `Normal`. The last holds of a manager that sat in any
/// state but `Disabled`: one already in `Disabled` restores by the state it
/// left before that.
pub proof fn lemma_disable_gate(v: StateView, event: InputEvent, inside: bool)
    requires
        v.wf(),
    ensures
        v.set_enabled(false).current == WidgetState::Disabled,
        v.set_enabled(false).handle_event(event, inside) == v.set_enabled(false),
        !v.set_enabled(false).event_moves(event, inside),
        v.current != WidgetState::Disabled ==> v.set_enabled(false).set_enabled(true).current
            == if v.current == WidgetState::Focused { WidgetState::Focused } else { WidgetState::Normal },
{
}

} // verus!
