//! The arena that holds the widget hierarchy.
//!
//! Nodes live in one bounded vector, in the order they were added. Each node
//! names its parent and its children by id; ids come from a counter that only
//! grows, so a node's id is larger than its parent's and larger than every id
//! before it in the vector.

use crate::events::InputEvent;
use crate::geometry::{span_contains, Point, Rectangle, Size};
use crate::widgets::{event_inside, AnyWidget};
use vstd::prelude::*;

pub use crate::tree_view::{NodeView, TreeView};

verus! {

/// A handle on a tree node, unique within one tree and never reused.
#[derive(Clone, Copy, Debug, PartialEq, Eq, Structural)]
pub struct WidgetId(pub u16);

impl WidgetId {
    /// The root container's id; the root is always present.
    pub fn root() -> (r: WidgetId)
        ensures
            r.0 == root_id(),
    {
        WidgetId(0)
    }

    /// The id no node ever has; the root's parent.
    pub fn invalid() -> (r: WidgetId)
        ensures
            r.0 == invalid_id(),
    {
        WidgetId(65535)
    }
}

/// The raw values of a sequence of ids.
pub open spec fn ids_of(s: Seq<WidgetId>) -> Seq<u16> {
    s.map_values(|w: WidgetId| w.0)
}

/// The raw value of the root's id.
pub open spec fn root_id() -> u16 {
    0
}

/// The raw value of the invalid id.
pub open spec fn invalid_id() -> u16 {
    65535
}

/// How many children one node can hold.
pub const MAX_CHILDREN: usize = 16;

/// Why an insertion failed.
#[derive(Clone, Copy, Debug, PartialEq, Eq, Structural)]
pub enum TreeError {
    /// The tree holds as many nodes as it can, or no id is left to hand out.
    TreeFull,
    /// No node has the given parent id.
    ParentNotFound,
    /// The parent holds as many children as it can.
    ParentFull,
}

/// One element of the hierarchy: a widget, or a pure container when it
/// carries none.
pub struct Node<'a, M> {
    id: WidgetId,
    parent: WidgetId,
    children: Vec<WidgetId>,
    bounds: Rectangle,
    visible: bool,
    widget: Option<AnyWidget<'a, M>>,
}

impl<'a, M> View for Node<'a, M> {
    type V = NodeView<'a, M>;

    closed spec fn view(&self) -> NodeView<'a, M> {
        NodeView {
            id: self.id.0,
            parent: self.parent.0,
            children: self.children@.map_values(|c: WidgetId| c.0),
            bounds: self.bounds,
            visible: self.visible,
            widget: self.widget,
        }
    }
}

impl<'a, M> Node<'a, M> {
    pub fn id(&self) -> (r: WidgetId)
        ensures
            r.0 == self@.id,
    {
        self.id
    }

    pub fn parent(&self) -> (r: WidgetId)
        ensures
            r.0 == self@.parent,
    {
        self.parent
    }

    /// The node's rectangle relative to its parent's top-left corner.
    pub fn local_bounds(&self) -> (r: Rectangle)
        ensures
            r == self@.bounds,
    {
        self.bounds
    }

    pub fn is_visible(&self) -> (r: bool)
        ensures
            r == self@.visible,
    {
        self.visible
    }

    pub fn widget(&self) -> (r: Option<&AnyWidget<'a, M>>)
        ensures
            r == match self@.widget { Some(w) => Some(&w), None => None::<&AnyWidget<'a, M>> },
    {
        match &self.widget {
            Some(w) => Some(w),
            None => None,
        }
    }

    /// The number of children.
    pub fn child_count(&self) -> (r: usize)
        ensures
            r == self@.children.len(),
    {
        self.children.len()
    }

    /// The child at `i`, in insertion order.
    pub fn child(&self, i: usize) -> (r: WidgetId)
        requires
            i < self@.children.len(),
        ensures
            r.0 == self@.children[i as int],
    {
        self.children[i]
    }
}

/// A bounded arena of widget nodes under one root container.
pub struct WidgetTree<'a, M> {
    nodes: Vec<Node<'a, M>>,
    next_id: u16,
    capacity: usize,
}

impl<'a, M> View for WidgetTree<'a, M> {
    type V = TreeView<'a, M>;

    closed spec fn view(&self) -> TreeView<'a, M> {
        TreeView {
            nodes: self.nodes@.map_values(|n: Node<'a, M>| n@),
            next_id: self.next_id,
            capacity: self.capacity as nat,
        }
    }
}

/// The first position of `x` in `v`, or the length of `v` when it does not
/// occur.
fn position_of(v: &Vec<WidgetId>, x: WidgetId) -> (r: usize)
    ensures
        r <= v@.len(),
        r < v@.len() ==> v@[r as int] == x,
        r == v@.len() ==> forall|u: int| 0 <= u < v@.len() ==> v@[u] != x,
{
    let mut i: usize = 0;
    while i < v.len()
        invariant
            i <= v.len(),
            forall|j: int| 0 <= j < i ==> v@[j] != x,
        decreases v.len() - i,
    {
        if v[i] == x {
            return i;
        }
        i = i + 1;
    }
    i
}

/// Whether `x` occurs in `v`.
fn contains_u16(v: &Vec<u16>, x: u16) -> (r: bool)
    ensures
        r == v@.contains(x),
{
    let mut i: usize = 0;
    while i < v.len()
        invariant
            i <= v.len(),
            forall|j: int| 0 <= j < i ==> v@[j] != x,
        decreases v.len() - i,
    {
        if v[i] == x {
            return true;
        }
        i = i + 1;
    }
    false
}

/// `v` forced into the range of `i32`.
pub open spec fn clamp_i32(v: int) -> i32 {
    if v < i32::MIN {
        i32::MIN
    } else if v > i32::MAX {
        i32::MAX
    } else {
        v as i32
    }
}

pub fn clamp_to_i32(v: i64) -> (r: i32)
    ensures
        r == clamp_i32(v as int),
{
    if v < i32::MIN as i64 {
        i32::MIN
    } else if v > i32::MAX as i64 {
        i32::MAX
    } else {
        v as i32
    }
}

/// The root's bounds where none are given: from the origin, as far right
/// and down as a size can reach. The root's corner is the origin that its
/// children's offsets count from.
pub open spec fn default_root_bounds() -> Rectangle {
    Rectangle { top_left: Point { x: 0, y: 0 }, size: Size { width: u32::MAX, height: u32::MAX } }
}

impl<'a, M: Copy> WidgetTree<'a, M> {
    /// A tree holding only the root, with bounds `root_bounds`, that will
    /// hold at most `capacity` nodes, the root included (at least the root).
    pub fn with_bounds(capacity: usize, root_bounds: Rectangle) -> (r: WidgetTree<'a, M>)
        ensures
            r@.wf(),
            r@.capacity == if capacity == 0 { 1 } else { capacity },
            r@.next_id == 1,
            r@.nodes.len() == 1,
            r@.nodes[0] == (NodeView::<'a, M> {
                id: root_id(),
                parent: invalid_id(),
                children: Seq::empty(),
                bounds: root_bounds,
                visible: true,
                widget: None,
            }),
    {
        let root = Node {
            id: WidgetId(0),
            parent: WidgetId(65535),
            children: Vec::new(),
            bounds: root_bounds,
            visible: true,
            widget: None,
        };
        let mut nodes = Vec::new();
        nodes.push(root);
        let r = WidgetTree { nodes, next_id: 1, capacity: if capacity == 0 { 1 } else { capacity } };
        proof {
            assert(r@.nodes[0].children =~= Seq::empty());
        }
        r
    }

    /// A tree holding only the root, with the default root bounds.
    pub fn new(capacity: usize) -> (r: WidgetTree<'a, M>)
        ensures
            r@.wf(),
            r@.capacity == if capacity == 0 { 1 } else { capacity },
            r@.next_id == 1,
            r@.nodes.len() == 1,
            r@.nodes[0] == (NodeView::<'a, M> {
                id: root_id(),
                parent: invalid_id(),
                children: Seq::empty(),
                bounds: default_root_bounds(),
                visible: true,
                widget: None,
            }),
    {
        let bounds = Rectangle::new(Point::new(0, 0), Size::new(u32::MAX, u32::MAX));
        WidgetTree::with_bounds(capacity, bounds)
    }

    /// Inserts a node under `parent`; see [`TreeView::insert_result`] for
    /// when it fails. A failure changes nothing.
    fn add_node(&mut self, parent: WidgetId, bounds: Rectangle, widget: Option<AnyWidget<'a, M>>) -> (r: Result<WidgetId, TreeError>)
        requires
            old(self)@.wf(),
        ensures
            final(self)@.wf(),
            match r {
                Ok(id) => old(self)@.insert_result(parent.0) == Ok::<u16, TreeError>(id.0)
                    && final(self)@ == old(self)@.inserted(parent.0, bounds, widget),
                Err(e) => old(self)@.insert_result(parent.0) == Err::<u16, TreeError>(e) && final(self)@ == old(self)@,
            },
    {
        if self.nodes.len() >= self.capacity || self.next_id == 65535 {
            return Err(TreeError::TreeFull);
        }
        let pi = match self.find(parent) {
            Some(i) => i,
            None => return Err(TreeError::ParentNotFound),
        };
        proof {
            self@.lemma_idx(pi as int);
        }
        if self.nodes[pi].children.len() >= MAX_CHILDREN {
            return Err(TreeError::ParentFull);
        }
        let ghost t0 = self@;
        let id = WidgetId(self.next_id);
        self.nodes[pi].children.push(id);
        self.nodes.push(Node { id, parent, children: Vec::new(), bounds, visible: true, widget });
        self.next_id = self.next_id + 1;
        proof {
            let t1 = t0.inserted(parent.0, bounds, widget);
            assert(self@.nodes[pi as int].children =~= t1.nodes[pi as int].children);
            assert(self@.nodes[t0.nodes.len() as int].children =~= Seq::<u16>::empty());
            assert(self@.nodes =~= t1.nodes);
            assert(self@ == t1);
            self.lemma_insert_wf(t0, parent.0, bounds, widget);
        }
        Ok(id)
    }

    #[verifier::rlimit(60)]
    proof fn lemma_insert_wf(&self, t0: TreeView<'a, M>, parent: u16, bounds: Rectangle, widget: Option<AnyWidget<'a, M>>)
        requires
            t0.wf(),
            t0.insert_result(parent) is Ok,
        ensures
            t0.inserted(parent, bounds, widget).wf(),
    {
        let t1 = t0.inserted(parent, bounds, widget);
        let n = t0.nodes.len() as int;
        let pi = t0.idx(parent);
        t0.lemma_idx_all();
        assert(t1.sorted());
        t1.lemma_idx_all();
        assert forall|i: int| 0 < i < t1.nodes.len() implies t1.has(#[trigger] t1.nodes[i].parent)
            && t1.nodes[i].parent < t1.nodes[i].id by {
            if i < n {
                let q = t0.idx(t0.nodes[i].parent);
                assert(t1.nodes[q].id == t0.nodes[i].parent);
            } else {
                assert(t1.nodes[pi].id == parent);
            }
        }
        assert forall|i: int| 0 <= i < t1.nodes.len() implies #[trigger] t1.children_ok(i) by {
            let ch = t1.nodes[i].children;
            assert(t0.children_ok(i) || i == n);
            assert forall|k: int| 0 <= k < ch.len() implies t1.has(#[trigger] ch[k])
                && t1.node(ch[k]).parent == t1.nodes[i].id by {
                if i == pi && k == ch.len() - 1 {
                    assert(t1.nodes[n].id == ch[k]);
                } else {
                    let q = t0.idx(ch[k]);
                    assert(t1.nodes[q].id == ch[k]);
                }
            }
            assert forall|j: int| 0 <= j < t1.nodes.len() && #[trigger] t1.nodes[j].parent == t1.nodes[i].id
                && j != 0 implies ch.contains(t1.nodes[j].id) by {
                if j == n {
                    assert(ch[ch.len() - 1] == t1.nodes[j].id);
                } else if i == pi {
                    let old_ch = t0.nodes[i].children;
                    assert(old_ch.contains(t0.nodes[j].id));
                    let k = choose|k: int| 0 <= k < old_ch.len() && old_ch[k] == t0.nodes[j].id;
                    assert(ch[k] == t1.nodes[j].id);
                } else if i == n {
                    assert(t0.has(t0.nodes[j].parent));
                    assert(t0.nodes[t0.idx(t0.nodes[j].parent)].id < t0.next_id);
                }
            }
        }
    }

    /// Adds `widget` under `parent`, with the widget's bounding box as the
    /// node's bounds. Fails with `TreeFull` when the tree is at capacity or
    /// out of ids, else with `ParentNotFound` when no node has id `parent`,
    /// else with `ParentFull` when the parent holds as many children as it
    /// can; a failure changes nothing. On success the id is the counter's
    /// value, larger than every id handed out before.
    pub fn add_widget(&mut self, parent: WidgetId, widget: AnyWidget<'a, M>) -> (r: Result<WidgetId, TreeError>)
        requires
            old(self)@.wf(),
        ensures
            final(self)@.wf(),
            r matches Ok(id) ==> old(self)@.insert_result(parent.0) == Ok::<u16, TreeError>(id.0)
                && final(self)@ == old(self)@.inserted(parent.0, widget.bounds(), Some(widget)),
            r matches Err(e) ==> old(self)@.insert_result(parent.0) == Err::<u16, TreeError>(e)
                && final(self)@ == old(self)@,
    {
        let bounds = widget.bounding_box();
        self.add_node(parent, bounds, Some(widget))
    }

    /// Adds a pure container with `bounds` under `parent`. Fails as
    /// [`WidgetTree::add_widget`] does.
    pub fn add_container(&mut self, parent: WidgetId, bounds: Rectangle) -> (r: Result<WidgetId, TreeError>)
        requires
            old(self)@.wf(),
        ensures
            final(self)@.wf(),
            r matches Ok(id) ==> old(self)@.insert_result(parent.0) == Ok::<u16, TreeError>(id.0)
                && final(self)@ == old(self)@.inserted(parent.0, bounds, None),
            r matches Err(e) ==> old(self)@.insert_result(parent.0) == Err::<u16, TreeError>(e)
                && final(self)@ == old(self)@,
    {
        self.add_node(parent, bounds, None)
    }

    /// The number of nodes, the root included.
    pub fn len(&self) -> (r: usize)
        ensures
            r == self@.nodes.len(),
    {
        self.nodes.len()
    }

    /// The most nodes the tree holds, the root included.
    pub fn capacity(&self) -> (r: usize)
        ensures
            r == self@.capacity,
    {
        self.capacity
    }

    /// Whether a node has id `id`.
    pub fn contains(&self, id: WidgetId) -> (r: bool)
        ensures
            r == self@.has(id.0),
    {
        self.find(id).is_some()
    }

    /// The node with id `id`, if there is one.
    pub fn get_node(&self, id: WidgetId) -> (r: Option<&Node<'a, M>>)
        requires
            self@.wf(),
        ensures
            match r {
                Some(n) => self@.has(id.0) && n@ == self@.node(id.0),
                None => !self@.has(id.0),
            },
    {
        match self.find(id) {
            Some(i) => {
                proof {
                    self@.lemma_idx(i as int);
                }
                Some(&self.nodes[i])
            },
            None => None,
        }
    }

    /// The widget of the node with id `id`; none for an unknown id or a pure
    /// container.
    pub fn get_widget(&self, id: WidgetId) -> (r: Option<&AnyWidget<'a, M>>)
        requires
            self@.wf(),
        ensures
            match r {
                Some(w) => self@.has(id.0) && self@.node(id.0).widget == Some(*w),
                None => !self@.has(id.0) || self@.node(id.0).widget is None,
            },
    {
        match self.find(id) {
            Some(i) => {
                proof {
                    self@.lemma_idx(i as int);
                }
                match &self.nodes[i].widget {
                    Some(w) => Some(w),
                    None => None,
                }
            },
            None => None,
        }
    }

    /// The widget of the node with id `id`, to change in place; none for an
    /// unknown id or a pure container. Only the widget can change through
    /// it, so the tree stays well formed.
    pub fn get_widget_mut(&mut self, id: WidgetId) -> (r: Option<&mut AnyWidget<'a, M>>)
        requires
            old(self)@.wf(),
        ensures
            match r {
                Some(w) => old(self)@.has(id.0) && old(self)@.node(id.0).widget == Some(*w)
                    && final(self)@.nodes =~= old(self)@.with_widget(id.0, *final(w)).nodes
                    && final(self)@.next_id == old(self)@.next_id
                    && final(self)@.capacity == old(self)@.capacity,
                None => (!old(self)@.has(id.0) || old(self)@.node(id.0).widget is None)
                    && final(self)@ == old(self)@,
            },
    {
        match self.find(id) {
            Some(i) => {
                proof {
                    self@.lemma_idx(i as int);
                }
                if self.nodes[i].widget.is_none() {
                    return None;
                }
                match &mut self.nodes[i].widget {
                    Some(w) => Some(w),
                    None => None,
                }
            },
            None => None,
        }
    }

    /// Sets the node's own visibility flag. Returns false, changing nothing,
    /// for an unknown id.
    pub fn set_visible(&mut self, id: WidgetId, visible: bool) -> (r: bool)
        requires
            old(self)@.wf(),
        ensures
            final(self)@.wf(),
            r == old(self)@.has(id.0),
            r ==> final(self)@ == old(self)@.with_visible(id.0, visible),
            !r ==> final(self)@ == old(self)@,
    {
        match self.find(id) {
            Some(i) => {
                proof {
                    self@.lemma_idx(i as int);
                }
                let ghost t0 = self@;
                self.nodes[i].visible = visible;
                proof {
                    let t1 = t0.with_visible(id.0, visible);
                    assert(self@.nodes[i as int].children =~= t1.nodes[i as int].children);
                    assert(self@.nodes =~= t1.nodes);
                    t0.lemma_with_visible_wf(id.0, visible);
                }
                true
            },
            None => false,
        }
    }

    /// Whether the node exists and it and every ancestor up to the root is
    /// visible.
    pub fn is_visible(&self, id: WidgetId) -> (r: bool)
        requires
            self@.wf(),
        ensures
            r == self@.shown(id.0),
    {
        let mut cur: u16 = id.0;
        loop
            invariant
                self@.wf(),
                self@.shown(id.0) == self@.shown(cur),
            decreases cur,
        {
            let i = match self.find(WidgetId(cur)) {
                Some(i) => i,
                None => return false,
            };
            proof {
                self@.lemma_idx(i as int);
            }
            if !self.nodes[i].visible {
                return false;
            }
            if cur == 0 {
                return true;
            }
            proof {
                self@.lemma_parent(cur);
            }
            cur = self.nodes[i].parent.0;
        }
    }

    /// The absolute top-left corner of the node at position `i`, computed
    /// exactly.
    fn origin_of(&self, i: usize) -> (r: (i64, i64))
        requires
            self@.wf(),
            i < self@.nodes.len(),
        ensures
            r.0 == self@.abs_x(self@.nodes[i as int].id),
            r.1 == self@.abs_y(self@.nodes[i as int].id),
    {
        let ghost id = self@.nodes[i as int].id;
        proof {
            self@.lemma_idx(i as int);
        }
        let mut ax: i64 = 0;
        let mut ay: i64 = 0;
        let mut j = i;
        loop
            invariant
                self@.wf(),
                i < self@.nodes.len(),
                id == self@.nodes[i as int].id,
                j < self@.nodes.len(),
                self@.nodes[j as int].id <= id,
                self@.abs_x(id) == ax + self@.abs_x(self@.nodes[j as int].id),
                self@.abs_y(id) == ay + self@.abs_y(self@.nodes[j as int].id),
                -(id - self@.nodes[j as int].id) * 2147483648 <= ax <= (id - self@.nodes[j as int].id) * 2147483647,
                -(id - self@.nodes[j as int].id) * 2147483648 <= ay <= (id - self@.nodes[j as int].id) * 2147483647,
            decreases self@.nodes[j as int].id,
        {
            let cur = self.nodes[j].id;
            let ghost t = self@;
            proof {
                t.lemma_idx(j as int);
                assert(t.node(cur.0) == t.nodes[j as int]);
            }
            ax = ax + self.nodes[j].bounds.top_left.x as i64;
            ay = ay + self.nodes[j].bounds.top_left.y as i64;
            if cur.0 == 0 {
                assert(t.abs_x(cur.0) == t.nodes[j as int].bounds.top_left.x);
                assert(t.abs_y(cur.0) == t.nodes[j as int].bounds.top_left.y);
                return (ax, ay);
            }
            proof {
                t.lemma_parent(cur.0);
                assert(t.abs_x(cur.0) == t.nodes[j as int].bounds.top_left.x + t.abs_x(t.nodes[j as int].parent));
                assert(t.abs_y(cur.0) == t.nodes[j as int].bounds.top_left.y + t.abs_y(t.nodes[j as int].parent));
            }
            j = match self.find(self.nodes[j].parent) {
                Some(k) => k,
                None => return (ax, ay),
            };
        }
    }

    /// The node's bounds moved through all its ancestors' offsets; none for
    /// an unknown id. A coordinate beyond the range of `i32` is clamped.
    pub fn absolute_bounds(&self, id: WidgetId) -> (r: Option<Rectangle>)
        requires
            self@.wf(),
        ensures
            match r {
                Some(b) => self@.has(id.0) && b == Rectangle::new_spec(
                    Point { x: clamp_i32(self@.abs_x(id.0)), y: clamp_i32(self@.abs_y(id.0)) },
                    self@.node(id.0).bounds.size,
                ),
                None => !self@.has(id.0),
            },
    {
        match self.find(id) {
            Some(i) => {
                proof {
                    self@.lemma_idx(i as int);
                }
                let (ax, ay) = self.origin_of(i);
                Some(Rectangle::new(Point::new(clamp_to_i32(ax), clamp_to_i32(ay)), self.nodes[i].bounds.size))
            },
            None => None,
        }
    }

    /// The hit-test below the node at position `i`, whose absolute top-left
    /// corner is `(ax, ay)`.
    fn hit_from(&self, i: usize, ax: i64, ay: i64, p: Point) -> (r: Option<WidgetId>)
        requires
            self@.wf(),
            i < self@.nodes.len(),
            ax == self@.abs_x(self@.nodes[i as int].id),
            ay == self@.abs_y(self@.nodes[i as int].id),
        ensures
            r matches Some(w) ==> self@.hit(self@.nodes[i as int].id, p) == Some(w.0),
            r is None ==> self@.hit(self@.nodes[i as int].id, p) is None,
        decreases 65536 - self@.nodes[i as int].id, self@.nodes[i as int].children.len() + 1,
    {
        let ghost id = self@.nodes[i as int].id;
        proof {
            self@.lemma_idx(i as int);
            self@.lemma_abs_bound(id);
        }
        let n = &self.nodes[i];
        if !n.visible {
            return None;
        }
        if !(span_contains(ax, n.bounds.size.width, p.x) && span_contains(ay, n.bounds.size.height, p.y)) {
            return None;
        }
        let mut k = n.children.len();
        proof {
            assert(self@.node(id) == n@);
            assert(self@.abs_holds(id, p));
            assert(self@.hit(id, p) == match self@.hit_children(id, p, n@.children.len()) {
                Some(h) => Some(h),
                None => if n@.widget is Some { Some(id) } else { None },
            });
        }
        while k > 0
            invariant
                self@.wf(),
                i < self@.nodes.len(),
                n@ == self@.nodes[i as int],
                k <= n@.children.len(),
                self@.has(id),
                self@.idx(id) == i,
                self@.hit_children(id, p, n@.children.len()) == self@.hit_children(id, p, k as nat),
                self@.hit(id, p) == match self@.hit_children(id, p, n@.children.len()) {
                    Some(h) => Some(h),
                    None => if n@.widget is Some { Some(id) } else { None },
                },
                id == self@.nodes[i as int].id,
                ax == self@.abs_x(id),
                ay == self@.abs_y(id),
            decreases k,
        {
            let c = n.children[k - 1];
            proof {
                assert(self@.children_ok(i as int));
                assert(n@.children[k - 1] == c.0);
            }
            let ci = match self.find(c) {
                Some(ci) => ci,
                None => return None,
            };
            proof {
                self@.lemma_idx(ci as int);
                self@.lemma_parent(c.0);
                self@.lemma_abs_bound(id);
                assert(self@.nodes[ci as int].id > id);
            }
            let cb = self.nodes[ci].bounds.top_left;
            proof {
                assert(self@.node(c.0) == self@.nodes[ci as int]);
                assert(self@.abs_x(c.0) == cb.x + ax);
                assert(self@.abs_y(c.0) == cb.y + ay);
            }
            let found = self.hit_from(ci, ax + cb.x as i64, ay + cb.y as i64, p);
            proof {
                assert(self@.node(id).children[k - 1] == c.0);
                assert(self@.hit_children(id, p, k as nat) == match self@.hit(c.0, p) {
                    Some(h) => Some(h),
                    None => self@.hit_children(id, p, (k - 1) as nat),
                });
            }
            if found.is_some() {
                return found;
            }
            k = k - 1;
        }
        if n.widget.is_some() {
            Some(n.id)
        } else {
            None
        }
    }

    /// The deepest, most recently added visible widget whose absolute bounds
    /// hold `point`, searching from the root: a node that is hidden or whose
    /// bounds miss the point hides its whole subtree, and a pure container is
    /// never the answer.
    pub fn hit_test(&self, point: Point) -> (r: Option<WidgetId>)
        requires
            self@.wf(),
        ensures
            r matches Some(w) ==> self@.hit(root_id(), point) == Some(w.0),
            r is None ==> self@.hit(root_id(), point) is None,
    {
        proof {
            self@.lemma_idx(0);
        }
        let (ax, ay) = self.origin_of(0);
        self.hit_from(0, ax, ay, point)
    }

    /// Removes the node `id` together with every node below it, and takes
    /// `id` out of its parent's child list. Returns false, changing nothing,
    /// for the root and for an unknown id.
    #[verifier::rlimit(60)]
    pub fn remove_widget(&mut self, id: WidgetId) -> (r: bool)
        requires
            old(self)@.wf(),
        ensures
            r == (id.0 != root_id() && old(self)@.has(id.0)),
            r ==> old(self)@.removed_to(id.0, final(self)@),
            !r ==> final(self)@ == old(self)@,
            final(self)@.wf(),
    {
        if id.0 == 0 {
            return false;
        }
        let ti = match self.find(id) {
            Some(i) => i,
            None => return false,
        };
        let ghost t0 = self@;
        let ghost n0 = t0.nodes.len() as int;
        let ghost target = id.0;
        proof {
            t0.lemma_idx_all();
            t0.lemma_parent(target);
        }
        let pt = self.nodes[ti].parent;
        let mut removed: Vec<u16> = Vec::new();
        let mut i: usize = 0;
        let ghost mut k: int = 0;
        while i < self.nodes.len()
            invariant
                t0.wf(),
                t0.has(target),
                target == id.0,
                target != root_id(),
                0 <= k <= n0,
                n0 == t0.nodes.len(),
                i == t0.kept_src(target, k).len(),
                self@.nodes =~= t0.kept_src(target, k).map_values(|q: int| t0.nodes[q]) + t0.nodes.subrange(k, n0),
                removed@ == t0.gone(target, k),
                self@.next_id == t0.next_id,
                self@.capacity == t0.capacity,
            decreases n0 - k,
        {
            proof {
                assert(self@.nodes[i as int] == t0.nodes[k]);
            }
            let nid = self.nodes[i].id.0;
            let par = self.nodes[i].parent.0;
            let inside = contains_u16(&removed, par);
            proof {
                t0.lemma_drop_decision(target, k);
                assert(nid == t0.nodes[k].id && par == t0.nodes[k].parent);
            }
            let ghost before = self@.nodes;
            let ghost kk = k;
            proof {
                t0.lemma_prune_seq(target, kk, before);
                assert(t0.kept_src(target, kk + 1) == if t0.descends(t0.nodes[kk].id, target) {
                    t0.kept_src(target, kk)
                } else {
                    t0.kept_src(target, kk).push(kk)
                });
                assert(t0.gone(target, kk + 1) == if t0.descends(t0.nodes[kk].id, target) {
                    t0.gone(target, kk).push(t0.nodes[kk].id)
                } else {
                    t0.gone(target, kk)
                });
            }
            if nid == id.0 || inside {
                self.nodes.remove(i);
                removed.push(nid);
                proof {
                    assert(self@.nodes =~= before.remove(i as int));
                    k = k + 1;
                }
            } else {
                i = i + 1;
                proof {
                    k = k + 1;
                }
            }
        }
        proof {
            t0.lemma_prune_step(target, n0);
            assert(k == n0);
            assert(self@.nodes =~= t0.pruned(target));
            assert(!t0.descends(pt.0, target)) by {
                if t0.descends(pt.0, target) {
                    t0.lemma_descends_ge(pt.0, target);
                }
            }
        }
        let pi = match self.find(pt) {
            Some(pi) => pi,
            None => {
                proof {
                    let q = t0.idx(pt.0);
                    assert(t0.nodes[q].id == pt.0);
                    assert(t0.kept_src(target, n0).contains(q));
                    let b = choose|b: int| 0 <= b < t0.kept_src(target, n0).len() && t0.kept_src(target, n0)[b] == q;
                    assert(self@.nodes[b].id == pt.0);
                }
                return false;
            },
        };
        proof {
            let q = t0.idx(pt.0);
            assert(t0.nodes[q].id == pt.0);
            assert(self@.nodes[pi as int] == t0.nodes[t0.kept_src(target, n0)[pi as int]]);
            assert(t0.kept_src(target, n0)[pi as int] == q);
            assert(t0.children_ok(q));
            assert(t0.node(target).parent == pt.0);
        }
        let pos = position_of(&self.nodes[pi].children, id);
        if pos == self.nodes[pi].children.len() {
            proof {
                assert(self@.nodes[pi as int].children.contains(target));
                let u = choose|u: int| 0 <= u < self@.nodes[pi as int].children.len()
                    && self@.nodes[pi as int].children[u] == target;
                assert(self.nodes@[pi as int].children@[u].0 == target);
            }
            return false;
        }
        let ghost before = self@;
        self.nodes[pi].children.remove(pos);
        proof {
            assert(self@.nodes[pi as int].children =~= before.nodes[pi as int].children.remove(pos as int));
            assert(self@.nodes =~= t0.removal(target, pi as int, pos as int).nodes);
            t0.lemma_removal(target, pi as int, pos as int);
        }
        true
    }

    /// Hands `event` to every widget of the tree, in the order the nodes were
    /// added; each widget decides containment from its own bounding box.
    /// Returns whether some widget changed state.
    pub fn handle_event(&mut self, event: InputEvent) -> (r: bool)
        requires
            old(self)@.wf(),
        ensures
            final(self)@.wf(),
            old(self)@.dispatched_to(event, final(self)@),
            r == old(self)@.any_moves(event),
    {
        let ghost t0 = self@;
        let mut any = false;
        let mut i: usize = 0;
        while i < self.nodes.len()
            invariant
                t0.wf(),
                i <= self@.nodes.len(),
                self@.next_id == t0.next_id,
                self@.capacity == t0.capacity,
                self@.nodes.len() == t0.nodes.len(),
                forall|j: int| i <= j < t0.nodes.len() ==> #[trigger] self@.nodes[j] == t0.nodes[j],
                forall|j: int| 0 <= j < i ==> {
                    let n0 = #[trigger] t0.nodes[j];
                    let n1 = self@.nodes[j];
                    &&& n1 == (NodeView { widget: n1.widget, ..n0 })
                    &&& (n0.widget is Some <==> n1.widget is Some)
                    &&& n0.widget is Some ==> {
                        let w0 = n0.widget.unwrap();
                        let w1 = n1.widget.unwrap();
                        &&& w1.bounds() == w0.bounds()
                        &&& w1.state() == w0.state().handle_event(event, event_inside(w0.bounds(), event))
                    }
                },
                any == (exists|j: int| 0 <= j < i && (#[trigger] t0.nodes[j]).widget is Some
                    && t0.nodes[j].widget.unwrap().state().event_moves(event, event_inside(t0.nodes[j].widget.unwrap().bounds(), event))),
            decreases t0.nodes.len() - i,
        {
            let ghost before = self@.nodes;
            let changed = match &mut self.nodes[i].widget {
                Some(w) => match w.handle_event(event) {
                    crate::events::Response::Changed(_) => true,
                    crate::events::Response::NotChanged => false,
                },
                None => false,
            };
            proof {
                assert forall|j: int| 0 <= j < t0.nodes.len() && j != i implies #[trigger] self@.nodes[j] == before[j] by {
                }
                assert(self@.nodes[i as int] == NodeView { widget: self@.nodes[i as int].widget, ..t0.nodes[i as int] });
            }
            any = any || changed;
            i = i + 1;
        }
        proof {
            t0.lemma_wf_widgets(self@);
        }
        any
    }

    /// Appends what node `i` paints to `out`.
    fn paint_into(&self, i: usize, out: &mut Vec<WidgetId>)
        requires
            self@.wf(),
            i < self@.nodes.len(),
        ensures
            ids_of(final(out)@) == ids_of(old(out)@) + self@.paint(self@.nodes[i as int].id),
        decreases 65536 - self@.nodes[i as int].id, self@.nodes[i as int].children.len() + 1,
    {
        let ghost id = self@.nodes[i as int].id;
        let ghost start = ids_of(out@);
        proof {
            self@.lemma_idx(i as int);
        }
        let n = &self.nodes[i];
        if !n.visible {
            assert(ids_of(out@) =~= start + self@.paint(id));
            return;
        }
        if n.widget.is_some() {
            out.push(n.id);
        }
        let mut k: usize = 0;
        proof {
            assert(self@.node(id) == n@);
            let head = if n@.widget is Some { seq![id] } else { Seq::<u16>::empty() };
            assert(ids_of(out@) =~= start + head);
            assert(self@.paint_children(id, 0) =~= Seq::<u16>::empty());
        }
        while k < n.children.len()
            invariant
                self@.wf(),
                i < self@.nodes.len(),
                n@ == self@.nodes[i as int],
                id == n@.id,
                k <= n@.children.len(),
                self@.has(id),
                self@.idx(id) == i,
                ids_of(out@) == start + (if n@.widget is Some { seq![id] } else { Seq::<u16>::empty() })
                    + self@.paint_children(id, k as nat),
            decreases n@.children.len() - k,
        {
            let c = n.children[k];
            proof {
                assert(self@.children_ok(i as int));
                assert(n@.children[k as int] == c.0);
            }
            let ci = match self.find(c) {
                Some(ci) => ci,
                None => {
                    proof {
                        assert(self@.has(c.0));
                    }
                    return;
                },
            };
            proof {
                self@.lemma_idx(ci as int);
                self@.lemma_parent(c.0);
                assert(self@.node(c.0) == self@.nodes[ci as int]);
                assert(self@.nodes[ci as int].id > id);
            }
            self.paint_into(ci, out);
            proof {
                assert(self@.node(id).children[k as int] == c.0);
                assert(self@.paint_children(id, (k + 1) as nat) == self@.paint_children(id, k as nat) + self@.paint(c.0));
                assert(ids_of(out@) =~= start + (if n@.widget is Some { seq![id] } else { Seq::<u16>::empty() })
                    + self@.paint_children(id, (k + 1) as nat));
            }
            k = k + 1;
        }
        proof {
            assert(self@.node(id) == n@);
            assert(ids_of(out@) =~= start + self@.paint(id));
        }
    }

    /// The widgets a draw pass paints, in order: a pre-order walk from the
    /// root that skips hidden subtrees entirely and lists each visible node
    /// that carries a widget.
    pub fn draw_order(&self) -> (r: Vec<WidgetId>)
        requires
            self@.wf(),
        ensures
            ids_of(r@) == self@.paint(root_id()),
    {
        let mut out: Vec<WidgetId> = Vec::new();
        proof {
            self@.lemma_idx(0);
            assert(ids_of(out@) =~= Seq::<u16>::empty());
        }
        self.paint_into(0, &mut out);
        proof {
            assert(Seq::<u16>::empty() + self@.paint(root_id()) =~= self@.paint(root_id()));
        }
        out
    }

    /// The position of the node with id `id`, if there is one.
    fn find(&self, id: WidgetId) -> (r: Option<usize>)
        ensures
            match r {
                Some(i) => i < self@.nodes.len() && self@.nodes[i as int].id == id.0,
                None => !self@.has(id.0),
            },
    {
        let mut i: usize = 0;
        while i < self.nodes.len()
            invariant
                i <= self.nodes.len(),
                forall|j: int| 0 <= j < i ==> self@.nodes[j].id != id.0,
            decreases self.nodes.len() - i,
        {
            if self.nodes[i].id == id {
                return Some(i);
            }
            i += 1;
        }
        None
    }
}

} // verus!
