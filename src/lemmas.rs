//! Facts about the widget tree that relate several operations, proved over
//! the tree's abstract value.

use crate::geometry::{Point, Rectangle};
use crate::tree::{invalid_id, root_id, TreeView};
use crate::widgets::AnyWidget;
use vstd::prelude::*;

verus! {

/// The root always exists, has the root id and the invalid parent, and
/// survives every removal (`remove_widget` refuses the root itself).
pub proof fn lemma_root_permanent<'a, M>(t: TreeView<'a, M>, target: u16, t2: TreeView<'a, M>)
    requires
        t.wf(),
    ensures
        t.has(root_id()),
        t.node(root_id()).id == root_id(),
        t.node(root_id()).parent == invalid_id(),
        t.removed_to(target, t2) ==> t2.has(root_id()) && t2.node(root_id()).parent == invalid_id(),
{
    t.lemma_idx(0);
    if t.removed_to(target, t2) {
        t2.lemma_idx(0);
    }
}

/// An insertion hands out the counter's value, larger than every id in the
/// tree, and raises the counter; a removal leaves the counter alone. So an
/// insertion made after another, with or without a removal between them,
/// hands out a larger id.
pub proof fn lemma_ids_increase<'a, M: Copy>(
    t0: TreeView<'a, M>,
    parent_a: u16,
    bounds_a: Rectangle,
    widget_a: Option<AnyWidget<'a, M>>,
    removal: bool,
    target: u16,
    t2: TreeView<'a, M>,
    parent_b: u16,
)
    requires
        t0.wf(),
        t0.insert_result(parent_a) is Ok,
        removal ==> t0.inserted(parent_a, bounds_a, widget_a).removed_to(target, t2),
        !removal ==> t2 == t0.inserted(parent_a, bounds_a, widget_a),
        t2.insert_result(parent_b) is Ok,
    ensures
        forall|i: int| 0 <= i < t0.nodes.len() ==> #[trigger] t0.nodes[i].id < t0.insert_result(parent_a).unwrap(),
        t2.insert_result(parent_b).unwrap() > t0.insert_result(parent_a).unwrap(),
{
}

/// Removing a node other than the root removes it and every node below it,
/// keeps every other node, takes it out of its parent's child list, and
/// shrinks the tree by one plus the number of its descendants.
pub proof fn lemma_remove_subtree<'a, M>(t: TreeView<'a, M>, target: u16, t2: TreeView<'a, M>)
    requires
        t.wf(),
        t.has(target),
        target != root_id(),
        t.removed_to(target, t2),
    ensures
        !t2.has(target),
        forall|v: u16| t.descends(v, target) ==> !#[trigger] t2.has(v),
        forall|v: u16| t.has(v) && !t.descends(v, target) ==> #[trigger] t2.has(v),
        !t2.node(t.node(target).parent).children.contains(target),
        t.subtree_size(target) >= 1,
        t2.nodes.len() == t.nodes.len() - t.subtree_size(target),
{
    let n0 = t.nodes.len() as int;
    t.lemma_prune_step(target, n0);
    let q = t.idx(target);
    assert(t.nodes[q].id == target);
    assert(t.gone(target, n0).contains(target));
}

/// Visibility is conjunctive along the ancestor chain: a node is visible
/// exactly when it and every ancestor up to the root has its own flag set.
pub proof fn lemma_visible_iff_ancestors<'a, M>(t: TreeView<'a, M>, id: u16)
    requires
        t.wf(),
        t.has(id),
    ensures
        t.shown(id) <==> (forall|a: u16| #[trigger] t.descends(id, a) ==> t.has(a) && t.node(a).visible),
    decreases id,
{
    let all = forall|a: u16| #[trigger] t.descends(id, a) ==> t.has(a) && t.node(a).visible;
    assert(t.descends(id, id));
    if id == root_id() {
        assert forall|a: u16| #[trigger] t.descends(id, a) implies a == id by {
        }
    } else {
        t.lemma_parent(id);
        let p = t.node(id).parent;
        lemma_visible_iff_ancestors(t, p);
        assert forall|a: u16| #[trigger] t.descends(id, a) == (a == id || t.descends(p, a)) by {
        }
        if all {
            assert forall|a: u16| #[trigger] t.descends(p, a) implies t.has(a) && t.node(a).visible by {
                assert(t.descends(id, a));
            }
            assert(t.shown(p));
        }
        if t.shown(id) {
            assert(t.shown(p));
            assert forall|a: u16| #[trigger] t.descends(id, a) implies t.has(a) && t.node(a).visible by {
                if a != id {
                    assert(t.descends(p, a));
                }
            }
        }
    }
}

/// What the hit-test from node `id` returns is a widget, visible with all
/// its ancestors, whose absolute bounds hold `p`, and none of its children
/// is hit.
pub open spec fn sound_hit<'a, M>(t: TreeView<'a, M>, r: Option<u16>, p: Point) -> bool {
    r matches Some(w) ==> {
        &&& t.has(w)
        &&& t.node(w).widget is Some
        &&& t.shown(w)
        &&& t.abs_holds(w, p)
        &&& t.hit_children(w, p, t.node(w).children.len()) is None
    }
}

proof fn lemma_hit_sound_at<'a, M>(t: TreeView<'a, M>, id: u16, p: Point)
    requires
        t.wf(),
        id == root_id() || (t.has(id) && t.shown(t.node(id).parent)),
    ensures
        sound_hit(t, t.hit(id, p), p),
    decreases 65536 - id, t.node(id).children.len() + 1,
{
    if t.has(id) && t.node(id).visible && t.abs_holds(id, p) {
        if id != root_id() {
            t.lemma_parent(id);
        }
        assert(t.shown(id));
        lemma_hit_children_sound(t, id, p, t.node(id).children.len());
    }
}

proof fn lemma_hit_children_sound<'a, M>(t: TreeView<'a, M>, id: u16, p: Point, k: nat)
    requires
        t.wf(),
        t.shown(id),
    ensures
        sound_hit(t, t.hit_children(id, p, k), p),
    decreases 65536 - id, k,
{
    if k > 0 && t.has(id) && k <= t.node(id).children.len() {
        let c = t.node(id).children[k - 1];
        if id < c {
            let i = t.idx(id);
            assert(t.children_ok(i));
            assert(t.has(c));
            assert(t.node(c).parent == id);
            lemma_hit_sound_at(t, c, p);
        }
        lemma_hit_children_sound(t, id, p, (k - 1) as nat);
    }
}

/// The hit-test from the root returns only a widget (never a pure
/// container) that is visible with all its ancestors, whose absolute bounds
/// hold the point, and below which nothing is hit; so it returns none when
/// no such widget holds the point.
pub proof fn lemma_hit_sound<'a, M>(t: TreeView<'a, M>, p: Point)
    requires
        t.wf(),
    ensures
        sound_hit(t, t.hit(root_id(), p), p),
        (forall|w: u16| #[trigger] t.has(w) && t.node(w).widget is Some && t.shown(w) ==> !t.abs_holds(w, p))
            ==> t.hit(root_id(), p) is None,
{
    lemma_hit_sound_at(t, root_id(), p);
}

/// Setting a node's visibility twice in a row changes nothing after the
/// first call, and the draw order stays the same.
pub proof fn lemma_set_visible_idempotent<'a, M>(t: TreeView<'a, M>, id: u16, visible: bool)
    requires
        t.wf(),
        t.has(id),
    ensures
        t.with_visible(id, visible).has(id),
        t.with_visible(id, visible).with_visible(id, visible) == t.with_visible(id, visible),
        t.with_visible(id, visible).with_visible(id, visible).paint(root_id())
            == t.with_visible(id, visible).paint(root_id()),
{
    let t1 = t.with_visible(id, visible);
    let i = t.idx(id);
    t.lemma_idx(i);
    t.lemma_with_visible_wf(id, visible);
    assert(t1.nodes[i].id == id);
    t1.lemma_idx(i);
    assert(t1.with_visible(id, visible).nodes =~= t1.nodes);
}

} // verus!
