//! A small retained-mode widget toolkit core: an arena-backed widget tree,
//! hit-testing over it, and the per-widget interaction state machine.

pub mod element;
pub mod events;
pub mod geometry;
pub mod lemmas;
pub mod screen;
pub mod state;
pub mod style;
pub mod tree;
pub mod tree_view;
pub mod widgets;

pub use events::{InputEvent, Response};
pub use geometry::{Point, Rectangle, Size};
pub use state::{StateManager, WidgetState};
