//! A free-standing GUI element: a widget kind with its own state manager,
//! placement, id and a reference to the theme used to draw it.

use crate::geometry::{Point, Rectangle, Size};
use crate::state::{StateManager, StateView};
use crate::widgets::{can_move, moved};
use vstd::prelude::*;

verus! {

/// The kinds of element.
#[derive(Debug)]
pub enum Widget<'a> {
    Button { label: &'a str },
    Text { text: &'a str },
    Dial,
    Fader,
    Toggle,
}

impl<'a> Widget<'a> {
    pub fn button(label: &'a str) -> (r: Widget<'a>)
        ensures
            r matches Widget::Button { label: l } && l@ == label@,
    {
        Widget::Button { label }
    }

    pub fn text(text: &'a str) -> (r: Widget<'a>)
        ensures
            r matches Widget::Text { text: t } && t@ == text@,
    {
        Widget::Text { text }
    }
}

/// An optional position and an optional size; a missing one counts as zero.
#[derive(Debug, Clone, Copy)]
pub struct Placement(pub Option<Point>, pub Option<Size>);

impl Placement {
    pub open spec fn bounds_spec(self) -> Rectangle {
        Rectangle {
            top_left: match self.0 { Some(p) => p, None => Point { x: 0, y: 0 } },
            size: match self.1 { Some(s) => s, None => Size { width: 0, height: 0 } },
        }
    }

    pub fn bounding_box(&self) -> (r: Rectangle)
        ensures
            r == self.bounds_spec(),
    {
        let top_left = match self.0 {
            Some(p) => p,
            None => Point::zero(),
        };
        let size = match self.1 {
            Some(s) => s,
            None => Size::zero(),
        };
        Rectangle::new(top_left, size)
    }

    /// Moves the position by `by`, a missing position counting as the
    /// origin.
    pub fn translate_impl(&mut self, by: Point)
        requires
            can_move(old(self).bounds_spec().top_left, by),
        ensures
            final(self).0 == Some(moved(old(self).bounds_spec().top_left, by)),
            final(self).1 == old(self).1,
    {
        let p = self.bounding_box().top_left;
        self.0 = Some(Point::new(p.x + by.x, p.y + by.y));
    }
}

/// An element: a widget kind with its state, placement and theme.
pub struct Element<'a, T> {
    theme: &'a T,
    id: u16,
    placement: Placement,
    state_manager: StateManager,
    widget: Widget<'a>,
    parent: Option<u16>,
}

impl<'a, T> Element<'a, T> {
    pub closed spec fn spec_id(self) -> u16 {
        self.id
    }

    pub closed spec fn spec_placement(self) -> Placement {
        self.placement
    }

    pub closed spec fn spec_state(self) -> StateView {
        self.state_manager@
    }

    pub closed spec fn spec_parent(self) -> Option<u16> {
        self.parent
    }

    /// A fresh element with no placement and no parent, in `Normal`.
    pub fn new(theme: &'a T, widget: Widget<'a>, id: u16) -> (r: Element<'a, T>)
        ensures
            r.spec_id() == id,
            r.spec_placement().0 is None,
            r.spec_placement().1 is None,
            r.spec_state() == StateManager::new_view(),
            r.spec_parent() is None,
    {
        Element { theme, id, placement: Placement(None, None), state_manager: StateManager::new(), widget, parent: None }
    }

    pub fn id(&self) -> (r: u16)
        ensures
            r == self.spec_id(),
    {
        self.id
    }

    pub fn theme(&self) -> &'a T {
        self.theme
    }

    pub fn widget(&self) -> &Widget<'a> {
        &self.widget
    }

    pub fn bounding_box(&self) -> (r: Rectangle)
        ensures
            r == self.spec_placement().bounds_spec(),
    {
        self.placement.bounding_box()
    }

    pub fn get_state_manager(&self) -> (r: &StateManager)
        ensures
            r@ == self.spec_state(),
    {
        &self.state_manager
    }

    pub fn get_state_manager_mut(&mut self) -> (r: &mut StateManager)
        ensures
            r@ == old(self).spec_state(),
            final(self).spec_state() == final(r)@,
            final(self).spec_placement() == old(self).spec_placement(),
            final(self).spec_id() == old(self).spec_id(),
    {
        &mut self.state_manager
    }
}

/// A fixed-capacity group of elements that share a default theme; each
/// element's id is its position in the group.
pub struct ElementGroup<'a, T, const N: usize> {
    default_theme: &'a T,
    placement: Placement,
    group_id: u16,
    elements: Vec<Element<'a, T>>,
}

impl<'a, T, const N: usize> ElementGroup<'a, T, N> {
    /// The ids of the elements, in order.
    pub closed spec fn spec_ids(self) -> Seq<u16> {
        self.elements@.map_values(|e: Element<'a, T>| e.spec_id())
    }

    pub closed spec fn spec_group_id(self) -> u16 {
        self.group_id
    }

    /// An empty group.
    pub fn new(default_theme: &'a T, placement: Placement, group_id: u16) -> (r: ElementGroup<'a, T, N>)
        ensures
            r.spec_ids() == Seq::<u16>::empty(),
            r.spec_group_id() == group_id,
    {
        let r = ElementGroup { default_theme, placement, group_id, elements: Vec::new() };
        proof {
            assert(r.spec_ids() =~= Seq::<u16>::empty());
        }
        r
    }

    pub fn len(&self) -> (r: usize)
        ensures
            r == self.spec_ids().len(),
    {
        self.elements.len()
    }

    /// Appends an element of kind `widget` with the group's theme; its id is
    /// its position. The group must have room.
    pub fn add_widget(&mut self, widget: Widget<'a>)
        requires
            old(self).spec_ids().len() < N,
            N <= 65536,
        ensures
            final(self).spec_ids() == old(self).spec_ids().push(old(self).spec_ids().len() as u16),
            final(self).spec_group_id() == old(self).spec_group_id(),
    {
        let id = self.elements.len() as u16;
        let e = Element::new(self.default_theme, widget, id);
        self.elements.push(e);
        proof {
            assert(self.spec_ids() =~= old(self).spec_ids().push(id));
        }
    }

    /// The element with id `id`, if the group holds that many.
    pub fn get_element(&self, id: u16) -> (r: Option<&Element<'a, T>>)
        ensures
            match r {
                Some(e) => (id as int) < self.spec_ids().len() && e.spec_id() == self.spec_ids()[id as int],
                None => id as int >= self.spec_ids().len(),
            },
    {
        if (id as usize) < self.elements.len() {
            Some(&self.elements[id as usize])
        } else {
            None
        }
    }

    pub fn placement(&self) -> &Placement {
        &self.placement
    }
}

} // verus!
