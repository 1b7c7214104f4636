//! What a theme is asked for when a widget is drawn: which of its colors
//! fill, write and outline a widget in each state, and where the outline
//! goes.

use crate::geometry::{Point, Rectangle, Size};
use crate::state::WidgetState;
use vstd::prelude::*;

verus! {

/// A color slot of a theme.
#[derive(Clone, Copy, Debug, PartialEq, Eq, Structural)]
pub enum ColorRole {
    Primary,
    ButtonNormalBg,
    ButtonNormalText,
    ButtonNormalBorder,
    ButtonHoveredBg,
    ButtonHoveredText,
    ButtonHoveredBorder,
    ButtonPressedBg,
    ButtonPressedText,
    ButtonPressedBorder,
    ButtonDisabledBg,
    ButtonDisabledText,
    ButtonDisabledBorder,
}

/// The (background, text, border) slots for a widget in `state`; a focused
/// widget looks hovered but is outlined in the primary color.
pub open spec fn state_colors(state: WidgetState) -> (ColorRole, ColorRole, ColorRole) {
    match state {
        WidgetState::Normal => (ColorRole::ButtonNormalBg, ColorRole::ButtonNormalText, ColorRole::ButtonNormalBorder),
        WidgetState::Hovered => (ColorRole::ButtonHoveredBg, ColorRole::ButtonHoveredText, ColorRole::ButtonHoveredBorder),
        WidgetState::Pressed => (ColorRole::ButtonPressedBg, ColorRole::ButtonPressedText, ColorRole::ButtonPressedBorder),
        WidgetState::Focused => (ColorRole::ButtonHoveredBg, ColorRole::ButtonHoveredText, ColorRole::Primary),
        WidgetState::Disabled => (ColorRole::ButtonDisabledBg, ColorRole::ButtonDisabledText, ColorRole::ButtonDisabledBorder),
    }
}

pub fn state_to_colors(state: WidgetState) -> (r: (ColorRole, ColorRole, ColorRole))
    ensures
        r == state_colors(state),
{
    match state {
        WidgetState::Normal => (ColorRole::ButtonNormalBg, ColorRole::ButtonNormalText, ColorRole::ButtonNormalBorder),
        WidgetState::Hovered => (ColorRole::ButtonHoveredBg, ColorRole::ButtonHoveredText, ColorRole::ButtonHoveredBorder),
        WidgetState::Pressed => (ColorRole::ButtonPressedBg, ColorRole::ButtonPressedText, ColorRole::ButtonPressedBorder),
        WidgetState::Focused => (ColorRole::ButtonHoveredBg, ColorRole::ButtonHoveredText, ColorRole::Primary),
        WidgetState::Disabled => (ColorRole::ButtonDisabledBg, ColorRole::ButtonDisabledText, ColorRole::ButtonDisabledBorder),
    }
}

/// Whether a widget's outline can be drawn inside `bounds`: the rectangle
/// is at least 4 pixels each way and its corner can move in by 2.
pub open spec fn outline_fits(bounds: Rectangle) -> bool {
    bounds.size.width >= 4 && bounds.size.height >= 4 && bounds.top_left.x + 2 <= i32::MAX
        && bounds.top_left.y + 2 <= i32::MAX
}

/// The outline of a widget: `bounds` inset by 2 pixels on every side.
pub fn outline(bounds: Rectangle) -> (r: Rectangle)
    requires
        outline_fits(bounds),
    ensures
        r.top_left.x == bounds.top_left.x + 2,
        r.top_left.y == bounds.top_left.y + 2,
        r.size.width == bounds.size.width - 4,
        r.size.height == bounds.size.height - 4,
{
    Rectangle::new(
        Point::new(bounds.top_left.x + 2, bounds.top_left.y + 2),
        Size::new(bounds.size.width - 4, bounds.size.height - 4),
    )
}

} // verus!
