//! The abstract value of a widget tree and the facts the tree's operations
//! are stated and proved with.

use crate::events::InputEvent;
use crate::geometry::{area_holds, Point, Rectangle};
use crate::tree::{invalid_id, root_id, TreeError, MAX_CHILDREN};
use crate::widgets::{event_inside, AnyWidget};
use vstd::prelude::*;

verus! {

/// The abstract value of a [`Node`](crate::tree::Node).
pub struct NodeView<'a, M> {
    pub id: u16,
    pub parent: u16,
    pub children: Seq<u16>,
    pub bounds: Rectangle,
    pub visible: bool,
    pub widget: Option<AnyWidget<'a, M>>,
}

/// The abstract value of a [`WidgetTree`](crate::tree::WidgetTree).
pub struct TreeView<'a, M> {
    pub nodes: Seq<NodeView<'a, M>>,
    pub next_id: u16,
    pub capacity: nat,
}

impl<'a, M> TreeView<'a, M> {
    pub open spec fn has(self, id: u16) -> bool {
        exists|i: int| 0 <= i < self.nodes.len() && #[trigger] self.nodes[i].id == id
    }

    /// The position of the node with id `id`.
    pub open spec fn idx(self, id: u16) -> int {
        choose|i: int| 0 <= i < self.nodes.len() && #[trigger] self.nodes[i].id == id
    }

    /// The node with id `id`.
    pub open spec fn node(self, id: u16) -> NodeView<'a, M> {
        self.nodes[self.idx(id)]
    }

    /// Each child list is strictly increasing, no longer than allowed, and
    /// holds exactly the ids of the nodes whose parent is its node.
    pub open spec fn children_ok(self, i: int) -> bool {
        let ch = self.nodes[i].children;
        &&& ch.len() <= MAX_CHILDREN
        &&& forall|a: int, b: int| 0 <= a < b < ch.len() ==> ch[a] < ch[b]
        &&& forall|k: int| 0 <= k < ch.len() ==> self.has(#[trigger] ch[k])
            && self.node(ch[k]).parent == self.nodes[i].id
        &&& forall|j: int| 0 <= j < self.nodes.len() && #[trigger] self.nodes[j].parent == self.nodes[i].id
            && j != 0 ==> ch.contains(self.nodes[j].id)
    }

    /// Ids strictly increase along the vector.
    pub open spec fn sorted(self) -> bool {
        forall|i: int, j: int| 0 <= i < j < self.nodes.len() ==> self.nodes[i].id < self.nodes[j].id
    }

    /// No insertion can succeed: the tree is at capacity or out of ids.
    pub open spec fn full(self) -> bool {
        self.nodes.len() >= self.capacity || self.next_id == invalid_id()
    }

    /// The tree after a successful insertion of a node with `bounds` and
    /// `widget` under `parent`: the parent's child list gains the new id,
    /// and the new node, visible and childless, comes last.
    pub open spec fn inserted(self, parent: u16, bounds: Rectangle, widget: Option<AnyWidget<'a, M>>) -> TreeView<'a, M> {
        let p = self.node(parent);
        TreeView {
            nodes: self.nodes.update(self.idx(parent), NodeView { children: p.children.push(self.next_id), ..p }).push(
                NodeView { id: self.next_id, parent, children: Seq::empty(), bounds, visible: true, widget },
            ),
            next_id: (self.next_id + 1) as u16,
            capacity: self.capacity,
        }
    }

    /// The outcome of inserting under `parent`: the error, if one comes, or
    /// the new id.
    pub open spec fn insert_result(self, parent: u16) -> Result<u16, TreeError> {
        if self.full() {
            Err(TreeError::TreeFull)
        } else if !self.has(parent) {
            Err(TreeError::ParentNotFound)
        } else if self.node(parent).children.len() >= MAX_CHILDREN {
            Err(TreeError::ParentFull)
        } else {
            Ok(self.next_id)
        }
    }

    pub proof fn lemma_idx(self, i: int)
        requires
            self.sorted(),
            0 <= i < self.nodes.len(),
        ensures
            self.has(self.nodes[i].id),
            self.idx(self.nodes[i].id) == i,
    {
        let id = self.nodes[i].id;
        assert(self.nodes[i].id == id);
        let j = self.idx(id);
        assert(self.nodes[j].id == id);
        if j < i {
            assert(self.nodes[j].id < self.nodes[i].id);
        } else if i < j {
            assert(self.nodes[i].id < self.nodes[j].id);
        }
    }

    pub proof fn lemma_idx_all(self)
        requires
            self.sorted(),
        ensures
            forall|i: int| 0 <= i < self.nodes.len() ==> self.has(#[trigger] self.nodes[i].id)
                && self.idx(self.nodes[i].id) == i,
    {
        assert forall|i: int| 0 <= i < self.nodes.len() implies self.has(#[trigger] self.nodes[i].id)
            && self.idx(self.nodes[i].id) == i by {
            self.lemma_idx(i);
        }
    }

    /// `id` is `anc` or lies below it.
    pub open spec fn descends(self, id: u16, anc: u16) -> bool
        decreases id,
    {
        id == anc || (self.has(id) && id != root_id() && self.node(id).parent < id
            && self.descends(self.node(id).parent, anc))
    }

    /// The node exists, and it and every ancestor up to the root is visible.
    pub open spec fn shown(self, id: u16) -> bool
        decreases id,
    {
        self.has(id) && self.node(id).visible && (id == root_id() || (self.node(id).parent < id
            && self.shown(self.node(id).parent)))
    }

    /// The absolute horizontal position of the node's top-left corner: its
    /// own offset plus those of all its ancestors.
    pub open spec fn abs_x(self, id: u16) -> int
        decreases id,
    {
        if !self.has(id) {
            0
        } else if id != root_id() && self.node(id).parent < id {
            self.node(id).bounds.top_left.x + self.abs_x(self.node(id).parent)
        } else {
            self.node(id).bounds.top_left.x as int
        }
    }

    /// The absolute vertical position of the node's top-left corner.
    pub open spec fn abs_y(self, id: u16) -> int
        decreases id,
    {
        if !self.has(id) {
            0
        } else if id != root_id() && self.node(id).parent < id {
            self.node(id).bounds.top_left.y + self.abs_y(self.node(id).parent)
        } else {
            self.node(id).bounds.top_left.y as int
        }
    }

    /// The node's absolute bounds hold `p`.
    pub open spec fn abs_holds(self, id: u16, p: Point) -> bool {
        area_holds(self.abs_x(id), self.abs_y(id), self.node(id).bounds.size, p.x as int, p.y as int)
    }

    /// The hit-test from node `id`: nothing if the node is hidden or its
    /// absolute bounds miss `p`; else the first hit among its children, the
    /// last added first; else the node itself if it carries a widget.
    pub open spec fn hit(self, id: u16, p: Point) -> Option<u16>
        decreases 65536 - id, self.node(id).children.len() + 1,
    {
        if !self.has(id) || !self.node(id).visible || !self.abs_holds(id, p) {
            None
        } else {
            match self.hit_children(id, p, self.node(id).children.len()) {
                Some(h) => Some(h),
                None => if self.node(id).widget is Some { Some(id) } else { None },
            }
        }
    }

    /// The first hit among the node's first `k` children, taken from the
    /// `k`-th back to the first.
    pub open spec fn hit_children(self, id: u16, p: Point, k: nat) -> Option<u16>
        decreases 65536 - id, k,
    {
        if k == 0 || !self.has(id) || k > self.node(id).children.len() {
            None
        } else {
            let c = self.node(id).children[k - 1];
            let r = if id < c { self.hit(c, p) } else { None };
            match r {
                Some(h) => Some(h),
                None => self.hit_children(id, p, (k - 1) as nat),
            }
        }
    }

    /// Under `wf`, a node other than the root has a smaller parent id that
    /// exists.
    pub proof fn lemma_parent(self, id: u16)
        requires
            self.wf(),
            self.has(id),
            id != root_id(),
        ensures
            self.idx(id) > 0,
            self.has(self.node(id).parent),
            self.node(id).parent < id,
    {
        let i = self.idx(id);
        assert(self.nodes[i].id == id);
        if i == 0 {
            assert(false);
        }
    }

    /// The tree with the node `id`'s own visibility flag set to `visible`.
    pub open spec fn with_visible(self, id: u16, visible: bool) -> TreeView<'a, M> {
        TreeView { nodes: self.nodes.update(self.idx(id), NodeView { visible, ..self.node(id) }), ..self }
    }

    /// The tree with the widget of node `id` replaced by `w`; the nodes are
    /// compared element by element.
    pub open spec fn with_widget(self, id: u16, w: AnyWidget<'a, M>) -> TreeView<'a, M> {
        TreeView { nodes: self.nodes.update(self.idx(id), NodeView { widget: Some(w), ..self.node(id) }), ..self }
    }

    /// Replacing a widget keeps the tree well formed.
    pub proof fn lemma_with_widget_wf(self, id: u16, w: AnyWidget<'a, M>)
        requires
            self.wf(),
            self.has(id),
        ensures
            self.with_widget(id, w).wf(),
    {
        let t = self.with_widget(id, w);
        self.lemma_idx(self.idx(id));
        assert forall|i: int| 0 <= i < self.nodes.len() implies #[trigger] t.nodes[i] == (NodeView { widget: t.nodes[i].widget, ..self.nodes[i] }) by {
        }
        self.lemma_wf_widgets(t);
    }

    pub proof fn lemma_with_visible_wf(self, id: u16, visible: bool)
        requires
            self.wf(),
            self.has(id),
        ensures
            self.with_visible(id, visible).wf(),
    {
        let t1 = self.with_visible(id, visible);
        self.lemma_idx_all();
        assert(t1.sorted());
        t1.lemma_idx_all();
        assert forall|i: int| 0 < i < t1.nodes.len() implies t1.has(#[trigger] t1.nodes[i].parent)
            && t1.nodes[i].parent < t1.nodes[i].id by {
            let q = self.idx(self.nodes[i].parent);
            assert(t1.nodes[q].id == self.nodes[i].parent);
        }
        assert forall|i: int| 0 <= i < t1.nodes.len() implies #[trigger] t1.children_ok(i) by {
            assert(self.children_ok(i));
            let ch = t1.nodes[i].children;
            assert forall|k: int| 0 <= k < ch.len() implies t1.has(#[trigger] ch[k])
                && t1.node(ch[k]).parent == t1.nodes[i].id by {
                let q = self.idx(ch[k]);
                assert(t1.nodes[q].id == ch[k]);
            }
        }
    }

    /// The positions among the first `k` nodes whose node does not lie in
    /// the subtree of `target`, in order.
    pub open spec fn kept_src(self, target: u16, k: int) -> Seq<int>
        decreases k,
    {
        if k <= 0 {
            Seq::empty()
        } else if self.descends(self.nodes[k - 1].id, target) {
            self.kept_src(target, k - 1)
        } else {
            self.kept_src(target, k - 1).push(k - 1)
        }
    }

    /// The ids among the first `k` nodes that lie in the subtree of
    /// `target`, in order.
    pub open spec fn gone(self, target: u16, k: int) -> Seq<u16>
        decreases k,
    {
        if k <= 0 {
            Seq::empty()
        } else if self.descends(self.nodes[k - 1].id, target) {
            self.gone(target, k - 1).push(self.nodes[k - 1].id)
        } else {
            self.gone(target, k - 1)
        }
    }

    /// The number of nodes in the subtree of `target`, `target` included.
    pub open spec fn subtree_size(self, target: u16) -> nat {
        self.gone(target, self.nodes.len() as int).len()
    }

    /// The nodes outside the subtree of `target`, in their order.
    pub open spec fn pruned(self, target: u16) -> Seq<NodeView<'a, M>> {
        self.kept_src(target, self.nodes.len() as int).map_values(|q: int| self.nodes[q])
    }

    /// The tree after removing the subtree of `target`: the pruned nodes,
    /// with `target` taken out of the child list at position `a`, at `pos`.
    pub open spec fn removal(self, target: u16, a: int, pos: int) -> TreeView<'a, M> {
        let ps = self.pruned(target);
        TreeView {
            nodes: ps.update(a, NodeView { children: ps[a].children.remove(pos), ..ps[a] }),
            ..self
        }
    }

    /// What removing the subtree of `target` leaves: `t` holds exactly the
    /// nodes outside it, each as it was but for the child list of
    /// `target`'s parent, which no longer names `target`.
    pub open spec fn removed_to(self, target: u16, t: TreeView<'a, M>) -> bool {
        let pt = self.node(target).parent;
        &&& t.wf()
        &&& t.next_id == self.next_id
        &&& t.capacity == self.capacity
        &&& t.nodes.len() == self.nodes.len() - self.subtree_size(target)
        &&& forall|v: u16| #[trigger] t.has(v) <==> self.has(v) && !self.descends(v, target)
        &&& forall|v: u16| #[trigger] t.has(v) ==> t.node(v) == (NodeView {
            children: t.node(v).children,
            ..self.node(v)
        })
        &&& forall|v: u16| #[trigger] t.has(v) && v != pt ==> t.node(v).children == self.node(v).children
        &&& forall|c: u16| #[trigger] t.node(pt).children.contains(c) <==> self.node(pt).children.contains(c)
            && c != target
    }

    /// The conditions under which `removal(target, a, pos)` is the result
    /// of removing `target`.
    pub open spec fn removal_ok(self, target: u16, a: int, pos: int) -> bool {
        &&& self.wf()
        &&& self.has(target)
        &&& target != root_id()
        &&& 0 <= a < self.pruned(target).len()
        &&& self.pruned(target)[a].id == self.node(target).parent
        &&& 0 <= pos < self.pruned(target)[a].children.len()
        &&& self.pruned(target)[a].children[pos] == target
    }

    #[verifier::rlimit(60)]
    pub(crate) proof fn lemma_removal_shape(self, target: u16, a: int, pos: int)
        requires
            self.removal_ok(target, a, pos),
        ensures
            ({
                let src = self.kept_src(target, self.nodes.len() as int);
                let t1 = self.removal(target, a, pos);
                &&& forall|b: int| 0 <= b < t1.nodes.len() ==> #[trigger] t1.nodes[b].id == self.nodes[src[b]].id
                    && t1.nodes[b].parent == self.nodes[src[b]].parent
                    && (b != a ==> t1.nodes[b] == self.nodes[src[b]])
                &&& t1.sorted()
                &&& src[0] == 0
                &&& forall|v: u16| #[trigger] t1.has(v) <==> self.has(v) && !self.descends(v, target)
                &&& forall|v: u16| #[trigger] t1.has(v) ==> self.idx(v) == src[t1.idx(v)]
            }),
    {
        let n0 = self.nodes.len() as int;
        let src = self.kept_src(target, n0);
        let t1 = self.removal(target, a, pos);
        self.lemma_prune_step(target, n0);
        self.lemma_idx_all();
        assert forall|b: int| 0 <= b < t1.nodes.len() implies #[trigger] t1.nodes[b].id == self.nodes[src[b]].id
            && t1.nodes[b].parent == self.nodes[src[b]].parent
            && (b != a ==> t1.nodes[b] == self.nodes[src[b]]) by {
        }
        assert(t1.sorted());
        t1.lemma_idx_all();
        assert(!self.descends(self.nodes[0].id, target));
        assert(src.contains(0));
        let b0 = choose|b: int| 0 <= b < src.len() && src[b] == 0;
        if b0 > 0 {
            assert(src[0] < src[b0]);
        }
        assert forall|v: u16| #[trigger] t1.has(v) <==> self.has(v) && !self.descends(v, target) by {
            if t1.has(v) {
                let b = t1.idx(v);
                assert(self.nodes[src[b]].id == v);
            }
            if self.has(v) && !self.descends(v, target) {
                let q = self.idx(v);
                assert(self.nodes[q].id == v);
                assert(src.contains(q));
                let b = choose|b: int| 0 <= b < src.len() && src[b] == q;
                assert(t1.nodes[b].id == v);
            }
        }
        assert forall|v: u16| #[trigger] t1.has(v) implies self.idx(v) == src[t1.idx(v)] by {
            let b = t1.idx(v);
            assert(self.nodes[src[b]].id == v);
        }
    }

    #[verifier::rlimit(60)]
    pub(crate) proof fn lemma_removal_list(self, target: u16, a: int, pos: int)
        requires
            self.removal_ok(target, a, pos),
        ensures
            ({
                let ch = self.pruned(target)[a].children;
                let ch1 = ch.remove(pos);
                &&& forall|u: int| 0 <= u < ch1.len() ==> #[trigger] ch1[u] == if u < pos { ch[u] } else { ch[u + 1] }
                &&& forall|c: u16| #[trigger] ch1.contains(c) <==> ch.contains(c) && c != target
                &&& forall|u: int, w: int| 0 <= u < w < ch1.len() ==> ch1[u] < ch1[w]
                &&& ch1.len() <= MAX_CHILDREN
            }),
    {
        let n0 = self.nodes.len() as int;
        let src = self.kept_src(target, n0);
        self.lemma_prune_step(target, n0);
        let ch = self.pruned(target)[a].children;
        assert(self.children_ok(src[a]));
        assert(ch == self.nodes[src[a]].children);
        let ch1 = ch.remove(pos);
        assert forall|u: int| 0 <= u < ch1.len() implies #[trigger] ch1[u] == if u < pos { ch[u] } else { ch[u + 1] } by {
        }
        assert forall|c: u16| #[trigger] ch1.contains(c) <==> ch.contains(c) && c != target by {
            if ch1.contains(c) {
                let u = choose|u: int| 0 <= u < ch1.len() && ch1[u] == c;
                if u < pos {
                    assert(ch[u] < ch[pos]);
                } else {
                    assert(ch[pos] < ch[u + 1]);
                    assert(ch[u + 1] == c);
                }
            }
            if ch.contains(c) && c != target {
                let u = choose|u: int| 0 <= u < ch.len() && ch[u] == c;
                if u < pos {
                    assert(ch1[u] == c);
                } else {
                    assert(u != pos);
                    assert(ch1[u - 1] == c);
                }
            }
        }
        assert forall|u: int, w: int| 0 <= u < w < ch1.len() implies ch1[u] < ch1[w] by {
            assert(ch1[u] == if u < pos { ch[u] } else { ch[u + 1] });
            assert(ch1[w] == if w < pos { ch[w] } else { ch[w + 1] });
        }
    }

    #[verifier::rlimit(60)]
    pub(crate) proof fn lemma_removal_children(self, target: u16, a: int, pos: int, b: int)
        requires
            self.removal_ok(target, a, pos),
            0 <= b < self.removal(target, a, pos).nodes.len(),
        ensures
            self.removal(target, a, pos).children_ok(b),
    {
        let n0 = self.nodes.len() as int;
        let src = self.kept_src(target, n0);
        let t1 = self.removal(target, a, pos);
        let pt = self.node(target).parent;
        self.lemma_prune_step(target, n0);
        self.lemma_removal_shape(target, a, pos);
        self.lemma_removal_list(target, a, pos);
        self.lemma_idx_all();
        t1.lemma_idx_all();
        let ch = self.pruned(target)[a].children;
        let q = src[b];
        let x = self.nodes[q].id;
        assert(self.children_ok(q));
        assert(!self.descends(x, target));
        let c1 = t1.nodes[b].children;
        let c0 = self.nodes[q].children;
        assert forall|k: int| 0 <= k < c1.len() implies t1.has(#[trigger] c1[k])
            && t1.node(c1[k]).parent == t1.nodes[b].id by {
            let c = c1[k];
            if b == a {
                assert(ch.remove(pos).contains(c));
                let u = choose|u: int| 0 <= u < ch.len() && ch[u] == c;
                assert(self.has(ch[u]));
            } else {
                assert(c0[k] == c);
            }
            assert(self.has(c));
            assert(self.node(c).parent == x);
            if c == root_id() {
                assert(self.node(c) == self.nodes[0]);
            }
            assert(c != target) by {
                if c == target {
                    assert(t1.nodes[b].id == pt);
                    assert(t1.nodes[a].id == pt);
                }
            }
            assert(!self.descends(c, target));
            assert(t1.has(c));
        }
        assert forall|j: int| 0 <= j < t1.nodes.len() && #[trigger] t1.nodes[j].parent == t1.nodes[b].id
            && j != 0 implies c1.contains(t1.nodes[j].id) by {
            let qj = src[j];
            assert(src[0] < src[j]);
            assert(self.nodes[qj].parent == x);
            assert(c0.contains(self.nodes[qj].id));
            if b == a {
                assert(t1.has(t1.nodes[j].id));
                assert(!self.descends(self.nodes[qj].id, target));
            }
        }
    }

    #[verifier::rlimit(60)]
    pub proof fn lemma_removal(self, target: u16, a: int, pos: int)
        requires
            self.removal_ok(target, a, pos),
        ensures
            self.removed_to(target, self.removal(target, a, pos)),
    {
        let n0 = self.nodes.len() as int;
        let src = self.kept_src(target, n0);
        let t1 = self.removal(target, a, pos);
        let pt = self.node(target).parent;
        self.lemma_prune_step(target, n0);
        self.lemma_removal_shape(target, a, pos);
        self.lemma_removal_list(target, a, pos);
        self.lemma_idx_all();
        t1.lemma_idx_all();
        assert forall|v: u16| #[trigger] t1.has(v) implies t1.node(v) == (NodeView { children: t1.node(v).children, ..self.node(v) })
            && (v != pt ==> t1.node(v).children == self.node(v).children) by {
            let b = t1.idx(v);
            assert(self.nodes[src[b]].id == v);
            if b == a {
                assert(t1.nodes[b].id == pt);
            }
        }
        assert(t1.nodes[a].id == pt);
        assert(t1.node(pt) == t1.nodes[a]);
        assert forall|b: int| 0 < b < t1.nodes.len() implies t1.has(#[trigger] t1.nodes[b].parent)
            && t1.nodes[b].parent < t1.nodes[b].id by {
            let q = src[b];
            assert(src[0] < src[b]);
            let x = self.nodes[q].id;
            let p = self.nodes[q].parent;
            assert(self.node(x) == self.nodes[q]);
            assert(self.has(p));
            assert(!self.descends(x, target));
            assert(!self.descends(p, target));
        }
        assert forall|b: int| 0 <= b < t1.nodes.len() implies #[trigger] t1.children_ok(b) by {
            self.lemma_removal_children(target, a, pos, b);
        }
        assert(t1.wf());
    }

    /// A node lies in the subtree of `target` exactly when it is `target`
    /// or its parent was found to lie there earlier.
    pub(crate) proof fn lemma_drop_decision(self, target: u16, k: int)
        requires
            self.wf(),
            target != root_id(),
            0 <= k < self.nodes.len(),
        ensures
            (self.nodes[k].id == target || self.gone(target, k).contains(self.nodes[k].parent))
                == self.descends(self.nodes[k].id, target),
    {
        self.lemma_prune_step(target, k);
        self.lemma_idx_all();
        let nid = self.nodes[k].id;
        let par = self.nodes[k].parent;
        if k == 0 {
            assert(!self.descends(nid, target));
            assert(!self.gone(target, k).contains(par));
        } else {
            assert(self.nodes[0].id < self.nodes[k].id);
            self.lemma_parent(nid);
            assert(self.node(nid) == self.nodes[k]);
            let qp = self.idx(par);
            assert(self.nodes[qp].id == par);
            if qp >= k {
                assert(self.nodes[k].id <= self.nodes[qp].id);
            }
            if self.descends(par, target) {
                assert(self.gone(target, k).contains(par));
            }
        }
    }

    pub(crate) proof fn lemma_prune_seq(self, target: u16, k: int, cur: Seq<NodeView<'a, M>>)
        requires
            0 <= k < self.nodes.len(),
            cur == self.kept_src(target, k).map_values(|q: int| self.nodes[q]) + self.nodes.subrange(k, self.nodes.len() as int),
        ensures
            ({
                let next = self.kept_src(target, k + 1).map_values(|q: int| self.nodes[q])
                    + self.nodes.subrange(k + 1, self.nodes.len() as int);
                let i = self.kept_src(target, k).len() as int;
                &&& self.descends(self.nodes[k].id, target) ==> cur.remove(i) =~= next
                &&& !self.descends(self.nodes[k].id, target) ==> cur =~= next
            }),
    {
        let n0 = self.nodes.len() as int;
        let a = self.kept_src(target, k).map_values(|q: int| self.nodes[q]);
        let b = self.kept_src(target, k + 1).map_values(|q: int| self.nodes[q]);
        let i = self.kept_src(target, k).len() as int;
        if self.descends(self.nodes[k].id, target) {
            assert(b =~= a);
            assert(cur.remove(i) =~= b + self.nodes.subrange(k + 1, n0));
        } else {
            assert(b =~= a.push(self.nodes[k]));
            assert(cur =~= b + self.nodes.subrange(k + 1, n0));
        }
    }

    pub proof fn lemma_descends_ge(self, x: u16, a: u16)
        requires
            self.descends(x, a),
        ensures
            a <= x,
        decreases x,
    {
        if x != a {
            self.lemma_descends_ge(self.node(x).parent, a);
        }
    }

    #[verifier::rlimit(60)]
    pub proof fn lemma_prune_step(self, target: u16, k: int)
        requires
            self.sorted(),
            0 <= k <= self.nodes.len(),
        ensures
            forall|a: int, b: int| 0 <= a < b < self.kept_src(target, k).len()
                ==> self.kept_src(target, k)[a] < self.kept_src(target, k)[b],
            forall|a: int| 0 <= a < self.kept_src(target, k).len() ==> 0 <= #[trigger] self.kept_src(target, k)[a] < k
                && !self.descends(self.nodes[self.kept_src(target, k)[a]].id, target),
            forall|q: int| 0 <= q < k && !self.descends(#[trigger] self.nodes[q].id, target)
                ==> self.kept_src(target, k).contains(q),
            forall|v: u16| self.gone(target, k).contains(v) <==> exists|q: int| 0 <= q < k
                && #[trigger] self.nodes[q].id == v && self.descends(v, target),
            self.kept_src(target, k).len() + self.gone(target, k).len() == k,
        decreases k,
    {
        if k > 0 {
            self.lemma_prune_step(target, k - 1);
            let src = self.kept_src(target, k);
            let prev = self.kept_src(target, k - 1);
            if !self.descends(self.nodes[k - 1].id, target) {
                assert(src[src.len() - 1] == k - 1);
            }
            assert forall|q: int| 0 <= q < k && !self.descends(#[trigger] self.nodes[q].id, target)
                implies src.contains(q) by {
                if q < k - 1 {
                    let a = choose|a: int| 0 <= a < prev.len() && prev[a] == q;
                    assert(src[a] == q);
                } else {
                    assert(src[src.len() - 1] == q);
                }
            }
            assert forall|v: u16| self.gone(target, k).contains(v) <==> exists|q: int| 0 <= q < k
                && #[trigger] self.nodes[q].id == v && self.descends(v, target) by {
                let g = self.gone(target, k);
                let pg = self.gone(target, k - 1);
                if g.contains(v) {
                    let a = choose|a: int| 0 <= a < g.len() && g[a] == v;
                    if a < pg.len() {
                        assert(pg[a] == v);
                        assert(pg.contains(v));
                    } else {
                        assert(self.nodes[k - 1].id == v);
                    }
                }
                if exists|q: int| 0 <= q < k && #[trigger] self.nodes[q].id == v && self.descends(v, target) {
                    let q = choose|q: int| 0 <= q < k && #[trigger] self.nodes[q].id == v && self.descends(v, target);
                    if q < k - 1 {
                        assert(pg.contains(v));
                        let a = choose|a: int| 0 <= a < pg.len() && pg[a] == v;
                        assert(g[a] == v);
                    } else {
                        assert(g[g.len() - 1] == v);
                    }
                }
            }
        }
    }

    /// The widgets that a draw pass paints from node `id`, in order: nothing
    /// below a hidden node; else the node itself if it carries a widget,
    /// then each child's subtree in the order the children were added.
    pub open spec fn paint(self, id: u16) -> Seq<u16>
        decreases 65536 - id, self.node(id).children.len() + 1,
    {
        if !self.has(id) || !self.node(id).visible {
            Seq::empty()
        } else {
            (if self.node(id).widget is Some { seq![id] } else { Seq::empty() })
                + self.paint_children(id, self.node(id).children.len())
        }
    }

    /// What the first `k` children of node `id` paint, in order.
    pub open spec fn paint_children(self, id: u16, k: nat) -> Seq<u16>
        decreases 65536 - id, k,
    {
        if k == 0 || !self.has(id) || k > self.node(id).children.len() {
            Seq::empty()
        } else {
            let c = self.node(id).children[k - 1];
            self.paint_children(id, (k - 1) as nat) + (if id < c { self.paint(c) } else { Seq::empty() })
        }
    }

    /// `t` is this tree after every widget handled `event`, each with
    /// containment from its own bounding box; nothing else changed.
    pub open spec fn dispatched_to(self, event: InputEvent, t: TreeView<'a, M>) -> bool where M: Copy {
        &&& t.next_id == self.next_id
        &&& t.capacity == self.capacity
        &&& t.nodes.len() == self.nodes.len()
        &&& forall|i: int| 0 <= i < self.nodes.len() ==> {
            let n0 = #[trigger] self.nodes[i];
            let n1 = t.nodes[i];
            &&& n1 == (NodeView { widget: n1.widget, ..n0 })
            &&& (n0.widget is Some <==> n1.widget is Some)
            &&& n0.widget is Some ==> {
                let w0 = n0.widget.unwrap();
                let w1 = n1.widget.unwrap();
                &&& w1.bounds() == w0.bounds()
                &&& w1.state() == w0.state().handle_event(event, event_inside(w0.bounds(), event))
            }
        }
    }

    /// Whether some widget of the tree changes state on `event`.
    pub open spec fn any_moves(self, event: InputEvent) -> bool where M: Copy {
        exists|i: int| 0 <= i < self.nodes.len() && (#[trigger] self.nodes[i]).widget is Some
            && self.nodes[i].widget.unwrap().state().event_moves(event, event_inside(self.nodes[i].widget.unwrap().bounds(), event))
    }

    /// Trees that differ only in their widgets agree on well-formedness.
    pub proof fn lemma_wf_widgets(self, t: TreeView<'a, M>)
        requires
            self.wf(),
            t.next_id == self.next_id,
            t.capacity == self.capacity,
            t.nodes.len() == self.nodes.len(),
            forall|i: int| 0 <= i < self.nodes.len() ==> #[trigger] t.nodes[i] == (NodeView { widget: t.nodes[i].widget, ..self.nodes[i] }),
        ensures
            t.wf(),
    {
        assert forall|i: int| 0 <= i < self.nodes.len() implies #[trigger] t.nodes[i].id == self.nodes[i].id
            && t.nodes[i].parent == self.nodes[i].parent && t.nodes[i].children == self.nodes[i].children by {
            assert(t.nodes[i] == NodeView { widget: t.nodes[i].widget, ..self.nodes[i] });
        }
        self.lemma_idx_all();
        assert(t.sorted());
        t.lemma_idx_all();
        assert forall|v: u16| #[trigger] t.has(v) <==> self.has(v) by {
            if t.has(v) {
                assert(self.nodes[t.idx(v)].id == v);
            }
            if self.has(v) {
                assert(t.nodes[self.idx(v)].id == v);
            }
        }
        assert forall|v: u16| self.has(v) implies #[trigger] t.idx(v) == self.idx(v) by {
            assert(t.nodes[self.idx(v)].id == v);
        }
        assert forall|i: int| 0 < i < t.nodes.len() implies t.has(#[trigger] t.nodes[i].parent)
            && t.nodes[i].parent < t.nodes[i].id by {
            assert(self.has(self.nodes[i].parent));
        }
        assert forall|i: int| 0 <= i < t.nodes.len() implies #[trigger] t.children_ok(i) by {
            assert(self.children_ok(i));
            let ch = t.nodes[i].children;
            assert forall|k: int| 0 <= k < ch.len() implies t.has(#[trigger] ch[k])
                && t.node(ch[k]).parent == t.nodes[i].id by {
                assert(self.has(ch[k]));
            }
        }
    }

    /// An absolute position is the sum of at most `id + 1` offsets.
    pub proof fn lemma_abs_bound(self, id: u16)
        requires
            self.wf(),
        ensures
            -(id + 1) * 2147483648 <= self.abs_x(id) <= (id + 1) * 2147483647,
            -(id + 1) * 2147483648 <= self.abs_y(id) <= (id + 1) * 2147483647,
        decreases id,
    {
        if self.has(id) && id != root_id() && self.node(id).parent < id {
            self.lemma_abs_bound(self.node(id).parent);
        }
    }

    pub open spec fn wf(self) -> bool {
        &&& 1 <= self.nodes.len() <= self.capacity
        &&& self.nodes[0].id == root_id()
        &&& self.nodes[0].parent == invalid_id()
        &&& self.sorted()
        &&& forall|i: int| 0 <= i < self.nodes.len() ==> #[trigger] self.nodes[i].id < self.next_id
        &&& forall|i: int| 0 < i < self.nodes.len() ==> self.has(#[trigger] self.nodes[i].parent)
            && self.nodes[i].parent < self.nodes[i].id
        &&& forall|i: int| 0 <= i < self.nodes.len() ==> #[trigger] self.children_ok(i)
    }
}

} // verus!
