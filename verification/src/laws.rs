use crate::arena::attached;
use crate::document::{
    children_in_range, listed_under_parent, parents_in_range, spec_add_node, spec_append,
    spec_relocate, well_formed,
};
use crate::node::{with_child, with_id, with_parent, NodeId, NodeView};
use crate::occurrence::{
    lemma_occurrences_contains, lemma_occurrences_push, lemma_without_contains,
    lemma_without_keeps, lemma_without_removed, occurrences, without,
};
use vstd::prelude::*;

verus! {

/// Identities with the same number are the same identity.
pub proof fn lemma_node_id_eq(a: NodeId, b: NodeId)
    requires
        a.0 == b.0,
    ensures
        a == b,
{
}

/// A node can be listed only in the child list of the parent its own parent
/// reference names.
pub proof fn lemma_child_only_under_parent(nodes: Seq<NodeView>, i: int, c: NodeId)
    requires
        listed_under_parent(nodes),
        0 <= i < nodes.len(),
        c.0 < nodes.len(),
        nodes[c.0 as int].parent != Some(nodes[i].id),
    ensures
        !nodes[i].children.contains(c),
{
    if nodes[i].children.contains(c) {
        let j = choose|j: int| 0 <= j < nodes[i].children.len() && nodes[i].children[j] == c;
        assert(nodes[(nodes[i].children[j]).0 as int].parent == Some(nodes[i].id));
    }
}

/// An identity the arena has not assigned yet stands in no child list.
pub proof fn lemma_fresh_not_in_children(nodes: Seq<NodeView>, i: int, c: NodeId)
    requires
        children_in_range(nodes),
        0 <= i < nodes.len(),
        c.0 >= nodes.len(),
    ensures
        !nodes[i].children.contains(c),
{
    if nodes[i].children.contains(c) {
        let j = choose|j: int| 0 <= j < nodes[i].children.len() && nodes[i].children[j] == c;
        assert((nodes[i].children[j]).0 < nodes.len());
    }
}

/// Identities grow strictly across successive insertions: an identity handed
/// out later is strictly larger, so no identity is ever reused.
pub proof fn lemma_add_node_ids_monotonic(
    d0: Seq<NodeView>,
    d1: Seq<NodeView>,
    d2: Seq<NodeView>,
    n1: NodeView,
    n2: NodeView,
    p1: NodeId,
    p2: NodeId,
    i1: NodeId,
    i2: NodeId,
)
    requires
        p1.0 < d0.len(),
        spec_add_node(d0, d1, n1, p1, i1),
        spec_add_node(d1, d2, n2, p2, i2),
    ensures
        i1.0 < i2.0,
{
    lemma_add_node_lookup(d0, d1, n1, p1, i1);
}

/// An identity returned by an insertion resolves to exactly the node that
/// was stored: same payload, same children, the fresh identity, the parent
/// it was attached under. Every other node keeps its place, except the
/// parent, which gains the new child at the end of its list.
pub proof fn lemma_add_node_lookup(
    d0: Seq<NodeView>,
    d1: Seq<NodeView>,
    node: NodeView,
    p: NodeId,
    id: NodeId,
)
    requires
        p.0 < d0.len(),
        spec_add_node(d0, d1, node, p, id),
    ensures
        d1.len() == d0.len() + 1,
        d1[id.0 as int] == with_parent(with_id(node, id), p),
        d1[p.0 as int] == with_child(d0[p.0 as int], id),
        forall|k: int| 0 <= k < d0.len() && k != p.0 ==> d1[k] == d0[k],
{
}

/// After an insertion under `p`, the new node's parent is `p`, and `p`'s
/// child list holds the fresh identity exactly once: at the end.
pub proof fn lemma_add_node_attaches(
    d0: Seq<NodeView>,
    d1: Seq<NodeView>,
    node: NodeView,
    p: NodeId,
    id: NodeId,
)
    requires
        well_formed(d0),
        p.0 < d0.len(),
        spec_add_node(d0, d1, node, p, id),
    ensures
        d1[id.0 as int].parent == Some(p),
        d1[p.0 as int].children == d0[p.0 as int].children.push(id),
        d1[p.0 as int].children.last() == id,
        occurrences(d1[p.0 as int].children, id) == 1,
{
    lemma_add_node_lookup(d0, d1, node, p, id);
    lemma_fresh_not_in_children(d0, p.0 as int, id);
    lemma_occurrences_contains(d0[p.0 as int].children, id);
    lemma_occurrences_push(d0[p.0 as int].children, id, id);
}

/// Insertion of a fresh, childless, non-`Document`-payload node under an
/// existing parent keeps the document well formed.
pub proof fn lemma_add_node_preserves_well_formed(
    d0: Seq<NodeView>,
    d1: Seq<NodeView>,
    node: NodeView,
    p: NodeId,
    id: NodeId,
)
    requires
        well_formed(d0),
        p.0 < d0.len(),
        node.children == Seq::<NodeId>::empty(),
        !(node.data is Document),
        spec_add_node(d0, d1, node, p, id),
    ensures
        well_formed(d1),
{
    lemma_add_node_lookup(d0, d1, node, p, id);
    lemma_add_node_attaches(d0, d1, node, p, id);
    let len0 = d0.len() as int;
    assert(d1[p.0 as int].id == d0[p.0 as int].id);
    lemma_node_id_eq(d0[p.0 as int].id, p);
    assert forall|i: int| 0 <= i < d1.len() implies (#[trigger] d1[i]).id.0 == i by {}
    assert forall|i: int| 1 <= i < d1.len() implies !((#[trigger] d1[i]).data is Document) by {}
    assert forall|i: int| 1 <= i < d1.len() implies (#[trigger] d1[i]).parent is Some by {}
    assert(parents_in_range(d1)) by {
        assert forall|i: int|
            0 <= i < d1.len() implies ((#[trigger] d1[i]).parent matches Some(q) ==> q.0
            < d1.len()) by {}
    }
    assert(children_in_range(d1)) by {
        assert forall|i: int, j: int|
            0 <= i < d1.len() && 0 <= j < d1[i].children.len() implies (#[trigger] d1[i].children[j]).0
            < d1.len() by {
            if i == p.0 && j == d0[p.0 as int].children.len() {
            } else if i < len0 {
                assert((d0[i].children[j]).0 < d0.len());
            }
        }
    }
    assert forall|i: int|
        1 <= i < d1.len() implies occurrences(
        d1[(#[trigger] d1[i]).parent.unwrap().0 as int].children,
        d1[i].id,
    ) == 1 by {
        if i < len0 {
            let q = d0[i].parent.unwrap();
            assert(d1[i].parent == d0[i].parent);
            assert(occurrences(d0[q.0 as int].children, d0[i].id) == 1);
            if q.0 == p.0 {
                lemma_occurrences_push(d0[p.0 as int].children, id, d0[i].id);
            }
        }
    }
    assert(listed_under_parent(d1)) by {
        assert forall|i: int, j: int|
            0 <= i < d1.len() && 0 <= j < d1[i].children.len() implies d1[(#[trigger] d1[i].children[j]).0 as int].parent
            == Some(d1[i].id) by {
            if i == p.0 && j == d0[p.0 as int].children.len() {
                assert(d1[i].children[j] == id);
            } else if i < len0 {
                let c = d0[i].children[j];
                assert(d1[i].children[j] == c);
                assert(d0[c.0 as int].parent == Some(d0[i].id));
                assert(c.0 < d0.len());
            }
        }
    }
}

/// The documented hazard of `append`: attaching a node that is still listed
/// under another parent leaves it listed under both, while its parent
/// reference names only the last attach.
pub proof fn lemma_append_keeps_both_listings(
    d0: Seq<NodeView>,
    d1: Seq<NodeView>,
    n: NodeId,
    p1: NodeId,
    p2: NodeId,
)
    requires
        well_formed(d0),
        0 < n.0 < d0.len(),
        p2.0 < d0.len(),
        d0[n.0 as int].parent == Some(p1),
        p1 != p2,
        spec_append(d0, d1, n, p2),
    ensures
        occurrences(d1[p1.0 as int].children, n) == 1,
        occurrences(d1[p2.0 as int].children, n) == 1,
        d1[n.0 as int].parent == Some(p2),
{
    assert(p1.0 < d0.len());
    assert(p1.0 != p2.0);
    assert(d0[n.0 as int].id == n) by {
        lemma_node_id_eq(d0[n.0 as int].id, n);
    }
    assert(occurrences(d0[p1.0 as int].children, n) == 1);
    assert(d1[p1.0 as int].children == d0[p1.0 as int].children);
    assert(!d0[p2.0 as int].children.contains(n)) by {
        lemma_node_id_eq(d0[p2.0 as int].id, p2);
        lemma_child_only_under_parent(d0, p2.0 as int, n);
    }
    lemma_occurrences_contains(d0[p2.0 as int].children, n);
    lemma_occurrences_push(d0[p2.0 as int].children, n, n);
    assert(d1[p2.0 as int].children == d0[p2.0 as int].children.push(n));
}

/// Relocating a node that has no parent performs the attach half alone:
/// there is no list to strike it from, so the arena changes exactly as it
/// does for a plain attach.
pub proof fn lemma_relocate_unattached(d0: Seq<NodeView>, d1: Seq<NodeView>, n: NodeId, p2: NodeId)
    requires
        n.0 < d0.len(),
        d0[n.0 as int].parent is None,
        spec_relocate(d0, d1, n, p2),
    ensures
        d1 == attached(d0, p2, n),
{
}

/// Moving a non-root node under a new parent keeps the document well formed.
/// Afterwards the node's parent names the new parent, the new parent's child
/// list holds the node exactly once, and the node is gone from its old
/// parent's list when the two parents differ.
pub proof fn lemma_relocate_moves(d0: Seq<NodeView>, d1: Seq<NodeView>, n: NodeId, p2: NodeId)
    requires
        well_formed(d0),
        0 < n.0 < d0.len(),
        p2.0 < d0.len(),
        spec_relocate(d0, d1, n, p2),
    ensures
        d1.len() == d0.len(),
        d1[n.0 as int].parent == Some(p2),
        occurrences(d1[p2.0 as int].children, n) == 1,
        d0[n.0 as int].parent.unwrap().0 != p2.0 ==> !d1[d0[n.0 as int].parent.unwrap().0 as int].children.contains(
            n,
        ),
        well_formed(d1),
{
    let len = d0.len() as int;
    let p1 = d0[n.0 as int].parent.unwrap();
    assert(d0[n.0 as int].parent is Some);
    assert(p1.0 < len);
    let ch1 = d0[p1.0 as int].children;
    let ch1r = without(ch1, n);
    lemma_node_id_eq(d0[n.0 as int].id, n);
    lemma_node_id_eq(d0[p1.0 as int].id, p1);
    lemma_node_id_eq(d0[p2.0 as int].id, p2);
    assert(occurrences(ch1, n) == 1);
    lemma_without_removed(ch1, n);
    lemma_occurrences_contains(ch1r, n);
    // Pointwise shape of the result.
    assert forall|k: int| 0 <= k < len implies (#[trigger] d1[k]).id == d0[k].id && d1[k].data
        == d0[k].data by {}
    assert forall|k: int| 0 <= k < len && k != n.0 implies (#[trigger] d1[k]).parent
        == d0[k].parent by {}
    assert(d1[n.0 as int].parent == Some(p2));
    assert forall|k: int|
        0 <= k < len && k != p1.0 && k != p2.0 implies (#[trigger] d1[k]).children
        == d0[k].children by {}
    if p1.0 == p2.0 {
        assert(d1[p2.0 as int].children == ch1r.push(n));
        lemma_occurrences_push(ch1r, n, n);
    } else {
        assert(d1[p1.0 as int].children == ch1r);
        assert(d1[p2.0 as int].children == d0[p2.0 as int].children.push(n));
        assert(d0[n.0 as int].parent != Some(d0[p2.0 as int].id));
        lemma_child_only_under_parent(d0, p2.0 as int, n);
        lemma_occurrences_contains(d0[p2.0 as int].children, n);
        lemma_occurrences_push(d0[p2.0 as int].children, n, n);
    }
    assert(occurrences(d1[p2.0 as int].children, n) == 1);
    // Well-formedness of the result, conjunct by conjunct.
    assert forall|i: int| 0 <= i < d1.len() implies (#[trigger] d1[i]).id.0 == i by {}
    assert forall|i: int| 1 <= i < d1.len() implies !((#[trigger] d1[i]).data is Document) by {}
    assert forall|i: int| 1 <= i < d1.len() implies (#[trigger] d1[i]).parent is Some by {}
    assert(d1[0].parent is None);
    assert(d1[0].data is Document);
    assert(parents_in_range(d1)) by {
        assert forall|i: int|
            0 <= i < d1.len() implies ((#[trigger] d1[i]).parent matches Some(q) ==> q.0
            < d1.len()) by {}
    }
    assert forall|j: int| 0 <= j < ch1r.len() implies ((#[trigger] ch1r[j]).0 < len && ch1r[j]
        != n && d0[(ch1r[j]).0 as int].parent == Some(p1)) by {
        let c = ch1r[j];
        assert(ch1r.contains(c));
        lemma_without_contains(ch1, n, c);
        let jj = choose|jj: int| 0 <= jj < ch1.len() && ch1[jj] == c;
        assert((d0[p1.0 as int].children[jj]).0 < len);
        assert(d0[(d0[p1.0 as int].children[jj]).0 as int].parent == Some(d0[p1.0 as int].id));
    }
    assert(children_in_range(d1)) by {
        assert forall|i: int, j: int|
            0 <= i < d1.len() && 0 <= j < d1[i].children.len() implies (#[trigger] d1[i].children[j]).0
            < d1.len() by {
            if i == p2.0 && j == d1[i].children.len() - 1 {
                assert(d1[i].children[j] == n);
            } else if i == p1.0 || i == p2.0 {
                assert(d1[i].children[j] == ch1r[j] || d1[i].children[j] == d0[i].children[j]);
            } else {
                assert((d0[i].children[j]).0 < len);
            }
        }
    }
    assert forall|i: int|
        1 <= i < d1.len() implies occurrences(
        d1[(#[trigger] d1[i]).parent.unwrap().0 as int].children,
        d1[i].id,
    ) == 1 by {
        if i != n.0 {
            let q = d0[i].parent.unwrap();
            let m = d0[i].id;
            assert(d1[i].parent == d0[i].parent);
            assert(q.0 < len);
            assert(occurrences(d0[q.0 as int].children, m) == 1);
            if m.0 == n.0 {
                lemma_node_id_eq(m, n);
            }
            assert(m != n);
            if q.0 == p1.0 {
                lemma_without_keeps(ch1, n, m);
            }
            if q.0 == p2.0 {
                if p1.0 == p2.0 {
                    lemma_occurrences_push(ch1r, n, m);
                } else {
                    lemma_occurrences_push(d0[p2.0 as int].children, n, m);
                }
            }
        }
    }
    assert(listed_under_parent(d1)) by {
        assert forall|i: int, j: int|
            0 <= i < d1.len() && 0 <= j < d1[i].children.len() implies d1[(#[trigger] d1[i].children[j]).0 as int].parent
            == Some(d1[i].id) by {
            let c = d1[i].children[j];
            if i == p2.0 && j == d1[i].children.len() - 1 {
                assert(c == n);
                assert(d1[n.0 as int].parent == Some(p2));
            } else {
                // The entry comes from the old list of `i`, or from the old
                // parent's list with `n` struck out; either way it is not `n`.
                if i == p1.0 {
                    assert(c == ch1r[j]);
                    assert(c != n && c.0 < len && d0[c.0 as int].parent == Some(p1));
                } else {
                    assert(c == d0[i].children[j]);
                    assert(d0[c.0 as int].parent == Some(d0[i].id));
                    if c == n {
                        assert(d0[n.0 as int].parent == Some(d0[i].id));
                        assert(d0[i].id == p1);
                        assert(i == p1.0);
                    }
                }
                assert(c != n);
                if c.0 == n.0 {
                    lemma_node_id_eq(c, n);
                }
                assert(c.0 != n.0);
                assert(d1[c.0 as int].parent == d0[c.0 as int].parent);
            }
        }
    }
}

} // verus!
