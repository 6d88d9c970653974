use crate::node::{with_child, with_children, with_id, with_parent, Node, NodeId, NodeView};
use crate::occurrence::without;
use vstd::prelude::*;

verus! {

/// Append-only storage of nodes, each addressed by the sequential identity it
/// was assigned on insertion. The arena has no tree semantics of its own: it
/// stores nodes and performs raw attach bookkeeping when told to.
pub struct NodeArena {
    nodes: Vec<Node>,
}

impl View for NodeArena {
    type V = Seq<NodeView>;

    closed spec fn view(&self) -> Seq<NodeView> {
        self.nodes@.map_values(|n: Node| n@)
    }
}

/// `nodes` after the raw attach step: `child_id` appended to the parent's
/// child list, then the child repointed at `parent_id`.
pub open spec fn attached(nodes: Seq<NodeView>, parent_id: NodeId, child_id: NodeId) -> Seq<
    NodeView,
> {
    let step = nodes.update(parent_id.0 as int, with_child(nodes[parent_id.0 as int], child_id));
    step.update(child_id.0 as int, with_parent(step[child_id.0 as int], parent_id))
}

impl NodeArena {
    /// An empty arena holding no nodes.
    pub fn new() -> (r: NodeArena)
        ensures
            r@ == Seq::<NodeView>::empty(),
    {
        let r = NodeArena { nodes: Vec::new() };
        proof {
            assert(r@ =~= Seq::<NodeView>::empty());
        }
        r
    }

    /// Stores `node`, assigning it the next sequential identity, and returns
    /// that identity. The node's position fields travel with it unchanged.
    pub fn add_node(&mut self, node: Node) -> (r: NodeId)
        ensures
            r.0 == old(self)@.len(),
            final(self)@ == old(self)@.push(with_id(node@, r)),
    {
        let id = NodeId(self.nodes.len());
        let mut stored = node;
        stored.id = id;
        self.nodes.push(stored);
        proof {
            assert(self@ =~= old(self)@.push(with_id(node@, id)));
        }
        id
    }

    /// Looks a node up by identity; absent identities yield `None`.
    pub fn get_node(&self, node_id: NodeId) -> (r: Option<&Node>)
        ensures
            (node_id.0 < self@.len()) <==> (r is Some),
            r matches Some(n) ==> n@ == self@[node_id.0 as int],
    {
        if node_id.0 < self.nodes.len() {
            Some(&self.nodes[node_id.0])
        } else {
            None
        }
    }

    /// Looks a node up by identity for mutation; absent identities yield
    /// `None` and leave the arena untouched.
    pub fn get_mut_node(&mut self, node_id: NodeId) -> (r: Option<&mut Node>)
        ensures
            node_id.0 >= old(self)@.len() ==> r is None && final(self)@ == old(self)@,
            node_id.0 < old(self)@.len() ==> r is Some && (r.unwrap())@ == old(self)@[node_id.0 as int]
                && final(self)@ == old(self)@.update(node_id.0 as int, final(r.unwrap())@),
    {
        if node_id.0 < self.nodes.len() {
            Some(&mut self.nodes[node_id.0])
        } else {
            None
        }
    }

    /// The raw attach step: appends `child_id` to the parent's child list and
    /// repoints the child's parent. No detaching, no cycle check: callers that
    /// need the single-parent shape detach first.
    pub fn attach_node(&mut self, parent_id: NodeId, child_id: NodeId)
        requires
            parent_id.0 < old(self)@.len(),
            child_id.0 < old(self)@.len(),
        ensures
            final(self)@ == attached(old(self)@, parent_id, child_id),
    {
        let p = &mut self.nodes[parent_id.0];
        p.children.push(child_id);
        let c = &mut self.nodes[child_id.0];
        c.parent = Some(parent_id);
        proof {
            assert(self@ =~= attached(old(self)@, parent_id, child_id));
        }
    }

    /// Strikes every listing of `child_id` from the parent's child list,
    /// keeping the order of the remaining children.
    pub(crate) fn remove_child(&mut self, parent_id: NodeId, child_id: NodeId)
        requires
            parent_id.0 < old(self)@.len(),
        ensures
            final(self)@ == old(self)@.update(
                parent_id.0 as int,
                with_children(
                    old(self)@[parent_id.0 as int],
                    without(old(self)@[parent_id.0 as int].children, child_id),
                ),
            ),
    {
        let p = &mut self.nodes[parent_id.0];
        remove_occurrences(&mut p.children, child_id);
        proof {
            assert(self@ =~= old(self)@.update(
                parent_id.0 as int,
                with_children(
                    old(self)@[parent_id.0 as int],
                    without(old(self)@[parent_id.0 as int].children, child_id),
                ),
            ));
        }
    }
}

/// Removes every entry equal to `x` from `v`, keeping the order of the rest.
fn remove_occurrences(v: &mut Vec<NodeId>, x: NodeId)
    ensures
        final(v)@ == without(old(v)@, x),
{
    let mut kept: Vec<NodeId> = Vec::new();
    let mut i: usize = 0;
    while i < v.len()
        invariant
            i <= v@.len(),
            v@ == old(v)@,
            kept@ == without(v@.take(i as int), x),
        decreases v@.len() - i,
    {
        let e = v[i];
        proof {
            assert(v@.take(i as int + 1).drop_last() =~= v@.take(i as int));
            assert(v@.take(i as int + 1).last() == v@[i as int]);
        }
        if e != x {
            kept.push(e);
        }
        i = i + 1;
    }
    proof {
        assert(v@.take(v@.len() as int) =~= v@);
    }
    *v = kept;
}

} // verus!
