//! A screen: one widget tree under a root that covers the screen's bounds,
//! with an optional background fill.

use crate::events::InputEvent;
use crate::geometry::{Point, Rectangle};
use crate::tree::{ids_of, root_id, TreeError, TreeView, WidgetId, WidgetTree};
use crate::widgets::AnyWidget;
use vstd::prelude::*;

verus! {

/// How many nodes a screen's tree holds, the root included.
pub const SCREEN_CAPACITY: usize = 32;

/// The abstract value of a [`Screen`].
pub struct ScreenView<'a, M, C> {
    pub tree: TreeView<'a, M>,
    pub bounds: Rectangle,
    pub background: Option<C>,
}

/// The root aggregate of one UI session: a widget tree, the screen's
/// bounds and an optional background color.
pub struct Screen<'a, M, C> {
    tree: WidgetTree<'a, M>,
    bounds: Rectangle,
    background_color: Option<C>,
}

impl<'a, M, C> View for Screen<'a, M, C> {
    type V = ScreenView<'a, M, C>;

    closed spec fn view(&self) -> ScreenView<'a, M, C> {
        ScreenView { tree: self.tree@, bounds: self.bounds, background: self.background_color }
    }
}

impl<'a, M: Copy, C: Copy> Screen<'a, M, C> {
    /// A screen with an empty tree whose root covers `bounds`, and no
    /// background.
    pub fn new(bounds: Rectangle) -> (r: Screen<'a, M, C>)
        ensures
            r@.tree.wf(),
            r@.tree.capacity == SCREEN_CAPACITY,
            r@.tree.next_id == 1,
            r@.tree.nodes.len() == 1,
            r@.tree.nodes[0].bounds == bounds,
            r@.tree.nodes[0].visible,
            r@.tree.nodes[0].widget is None,
            r@.bounds == bounds,
            r@.background is None,
    {
        Screen { tree: WidgetTree::with_bounds(SCREEN_CAPACITY, bounds), bounds, background_color: None }
    }

    pub fn with_background(self, color: C) -> (r: Screen<'a, M, C>)
        ensures
            r@ == (ScreenView { background: Some(color), ..self@ }),
    {
        Screen { background_color: Some(color), ..self }
    }

    pub fn background_color(&self) -> (r: Option<C>)
        ensures
            r == self@.background,
    {
        self.background_color
    }

    pub fn bounds(&self) -> (r: Rectangle)
        ensures
            r == self@.bounds,
    {
        self.bounds
    }

    /// Adds `widget` under the root; fails as [`WidgetTree::add_widget`].
    pub fn add_widget(&mut self, widget: AnyWidget<'a, M>) -> (r: Result<WidgetId, TreeError>)
        requires
            old(self)@.tree.wf(),
        ensures
            final(self)@.tree.wf(),
            final(self)@.bounds == old(self)@.bounds,
            final(self)@.background == old(self)@.background,
            r matches Ok(id) ==> old(self)@.tree.insert_result(root_id()) == Ok::<u16, TreeError>(id.0)
                && final(self)@.tree == old(self)@.tree.inserted(root_id(), widget.bounds(), Some(widget)),
            r matches Err(e) ==> old(self)@.tree.insert_result(root_id()) == Err::<u16, TreeError>(e)
                && final(self)@ == old(self)@,
    {
        self.tree.add_widget(WidgetId::root(), widget)
    }

    /// Adds `widget` under `parent`; fails as [`WidgetTree::add_widget`].
    pub fn add_widget_to_parent(&mut self, parent: WidgetId, widget: AnyWidget<'a, M>) -> (r: Result<WidgetId, TreeError>)
        requires
            old(self)@.tree.wf(),
        ensures
            final(self)@.tree.wf(),
            final(self)@.bounds == old(self)@.bounds,
            final(self)@.background == old(self)@.background,
            r matches Ok(id) ==> old(self)@.tree.insert_result(parent.0) == Ok::<u16, TreeError>(id.0)
                && final(self)@.tree == old(self)@.tree.inserted(parent.0, widget.bounds(), Some(widget)),
            r matches Err(e) ==> old(self)@.tree.insert_result(parent.0) == Err::<u16, TreeError>(e)
                && final(self)@ == old(self)@,
    {
        self.tree.add_widget(parent, widget)
    }

    /// Adds a pure container with `bounds` under the root.
    pub fn add_container(&mut self, bounds: Rectangle) -> (r: Result<WidgetId, TreeError>)
        requires
            old(self)@.tree.wf(),
        ensures
            final(self)@.tree.wf(),
            final(self)@.bounds == old(self)@.bounds,
            final(self)@.background == old(self)@.background,
            r matches Ok(id) ==> old(self)@.tree.insert_result(root_id()) == Ok::<u16, TreeError>(id.0)
                && final(self)@.tree == old(self)@.tree.inserted(root_id(), bounds, None),
            r matches Err(e) ==> old(self)@.tree.insert_result(root_id()) == Err::<u16, TreeError>(e)
                && final(self)@ == old(self)@,
    {
        self.tree.add_container(WidgetId::root(), bounds)
    }

    /// Adds a pure container with `bounds` under `parent`.
    pub fn add_container_to_parent(&mut self, parent: WidgetId, bounds: Rectangle) -> (r: Result<WidgetId, TreeError>)
        requires
            old(self)@.tree.wf(),
        ensures
            final(self)@.tree.wf(),
            final(self)@.bounds == old(self)@.bounds,
            final(self)@.background == old(self)@.background,
            r matches Ok(id) ==> old(self)@.tree.insert_result(parent.0) == Ok::<u16, TreeError>(id.0)
                && final(self)@.tree == old(self)@.tree.inserted(parent.0, bounds, None),
            r matches Err(e) ==> old(self)@.tree.insert_result(parent.0) == Err::<u16, TreeError>(e)
                && final(self)@ == old(self)@,
    {
        self.tree.add_container(parent, bounds)
    }

    /// Removes `widget_id` and everything below it; false for the root and
    /// for an unknown id.
    pub fn remove_widget(&mut self, widget_id: WidgetId) -> (r: bool)
        requires
            old(self)@.tree.wf(),
        ensures
            final(self)@.tree.wf(),
            final(self)@.bounds == old(self)@.bounds,
            final(self)@.background == old(self)@.background,
            r == (widget_id.0 != root_id() && old(self)@.tree.has(widget_id.0)),
            r ==> old(self)@.tree.removed_to(widget_id.0, final(self)@.tree),
            !r ==> final(self)@ == old(self)@,
    {
        self.tree.remove_widget(widget_id)
    }

    pub fn get_widget(&self, id: WidgetId) -> (r: Option<&AnyWidget<'a, M>>)
        requires
            self@.tree.wf(),
        ensures
            match r {
                Some(w) => self@.tree.has(id.0) && self@.tree.node(id.0).widget == Some(*w),
                None => !self@.tree.has(id.0) || self@.tree.node(id.0).widget is None,
            },
    {
        self.tree.get_widget(id)
    }

    /// The widget `id`, to change in place; none for an unknown id or a pure
    /// container.
    pub fn get_widget_mut(&mut self, id: WidgetId) -> (r: Option<&mut AnyWidget<'a, M>>)
        requires
            old(self)@.tree.wf(),
        ensures
            match r {
                Some(w) => old(self)@.tree.has(id.0) && old(self)@.tree.node(id.0).widget == Some(*w)
                    && final(self)@ == (ScreenView { tree: old(self)@.tree.with_widget(id.0, *final(w)), ..old(self)@ }),
                None => (!old(self)@.tree.has(id.0) || old(self)@.tree.node(id.0).widget is None)
                    && final(self)@ == old(self)@,
            },
    {
        self.tree.get_widget_mut(id)
    }

    /// Sets a node's own visibility flag; false for an unknown id.
    pub fn set_visible(&mut self, id: WidgetId, visible: bool) -> (r: bool)
        requires
            old(self)@.tree.wf(),
        ensures
            final(self)@.tree.wf(),
            final(self)@.bounds == old(self)@.bounds,
            final(self)@.background == old(self)@.background,
            r == old(self)@.tree.has(id.0),
            r ==> final(self)@.tree == old(self)@.tree.with_visible(id.0, visible),
            !r ==> final(self)@ == old(self)@,
    {
        self.tree.set_visible(id, visible)
    }

    /// Hands `event` to every widget of the tree, each deciding containment
    /// from its own bounding box. Returns whether some widget changed state.
    pub fn handle_event(&mut self, event: InputEvent) -> (r: bool)
        requires
            old(self)@.tree.wf(),
        ensures
            final(self)@.tree.wf(),
            final(self)@.bounds == old(self)@.bounds,
            final(self)@.background == old(self)@.background,
            old(self)@.tree.dispatched_to(event, final(self)@.tree),
            r == old(self)@.tree.any_moves(event),
    {
        self.tree.handle_event(event)
    }

    /// The widget hit at `point`; none outside the screen's bounds.
    pub fn hit_test(&self, point: Point) -> (r: Option<WidgetId>)
        requires
            self@.tree.wf(),
        ensures
            !self@.bounds.holds(point) ==> r is None,
            self@.bounds.holds(point) ==> (match r {
                Some(w) => self@.tree.hit(root_id(), point) == Some(w.0),
                None => self@.tree.hit(root_id(), point) is None,
            }),
    {
        if self.bounds.contains(point) {
            self.tree.hit_test(point)
        } else {
            None
        }
    }

    /// The widgets a draw pass paints, in order.
    pub fn draw_order(&self) -> (r: Vec<WidgetId>)
        requires
            self@.tree.wf(),
        ensures
            ids_of(r@) == self@.tree.paint(root_id()),
    {
        self.tree.draw_order()
    }

    pub fn tree(&self) -> (r: &WidgetTree<'a, M>)
        ensures
            r@ == self@.tree,
    {
        &self.tree
    }

    pub fn tree_mut(&mut self) -> (r: &mut WidgetTree<'a, M>)
        ensures
            r@ == old(self)@.tree,
            final(self)@ == (ScreenView { tree: final(r)@, ..old(self)@ }),
    {
        &mut self.tree
    }
}

} // verus!
