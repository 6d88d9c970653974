use crate::arena::{attached, NodeArena};
use crate::node::{with_children, with_id, Node, NodeId, NodeView};
use crate::occurrence::without;
use vstd::prelude::*;

verus! {

/// Which flavour of document is being built.
#[derive(PartialEq, Eq, Debug, Copy, Clone, Structural)]
pub enum DocumentType {
    HTML,
    IframeSrcDoc,
}

/// The document-wide rendering-compatibility classification. It is computed
/// by the parsing front-end and merely stored here.
#[derive(PartialEq, Eq, Debug, Copy, Clone, Structural)]
pub enum QuirksMode {
    NoQuirks,
    Quirks,
    LimitedQuirks,
}

/// The tree-consistent wrapper around a node arena, rooted at identity 0.
/// Its view is the sequence of node models the arena holds, in identity order.
pub struct Document {
    pub arena: NodeArena,
    pub doctype: DocumentType,
    pub quirks_mode: QuirksMode,
}

impl View for Document {
    type V = Seq<NodeView>;

    open spec fn view(&self) -> Seq<NodeView> {
        self.arena@
    }
}

/// Every parent reference points at a node the arena holds.
pub open spec fn parents_in_range(nodes: Seq<NodeView>) -> bool {
    forall|i: int|
        0 <= i < nodes.len() ==> ((#[trigger] nodes[i]).parent matches Some(p) ==> p.0
            < nodes.len())
}

/// Every child list entry points at a node the arena holds.
pub open spec fn children_in_range(nodes: Seq<NodeView>) -> bool {
    forall|i: int, j: int|
        0 <= i < nodes.len() && 0 <= j < nodes[i].children.len() ==> (#[trigger] nodes[i].children[j]).0
            < nodes.len()
}

/// A node listed as someone's child has its parent reference pointing right
/// back: no list holds a node that belongs to another parent.
pub open spec fn listed_under_parent(nodes: Seq<NodeView>) -> bool {
    forall|i: int, j: int|
        0 <= i < nodes.len() && 0 <= j < nodes[i].children.len()
            ==> nodes[(#[trigger] nodes[i].children[j]).0 as int].parent == Some(nodes[i].id)
}

/// The root-anchored tree shape the document maintains: identities equal
/// positions, the root is the one `Document`-payload node and the only one
/// without a parent, every reference stays inside the arena, and each
/// non-root node stands in its own parent's child list exactly once — and,
/// by `listed_under_parent`, in no other list.
pub open spec fn well_formed(nodes: Seq<NodeView>) -> bool {
    &&& nodes.len() >= 1
    &&& forall|i: int| 0 <= i < nodes.len() ==> (#[trigger] nodes[i]).id.0 == i
    &&& nodes[0].parent is None
    &&& nodes[0].data is Document
    &&& forall|i: int| 1 <= i < nodes.len() ==> !((#[trigger] nodes[i]).data is Document)
    &&& forall|i: int| 1 <= i < nodes.len() ==> (#[trigger] nodes[i]).parent is Some
    &&& parents_in_range(nodes)
    &&& children_in_range(nodes)
    &&& forall|i: int|
        1 <= i < nodes.len() ==> crate::occurrence::occurrences(
            nodes[(#[trigger] nodes[i]).parent.unwrap().0 as int].children,
            nodes[i].id,
        ) == 1
    &&& listed_under_parent(nodes)
}

/// The effect of `add_node`: the node stored under the fresh identity `id`,
/// one past every identity handed out before, then attached under
/// `parent_id`.
pub open spec fn spec_add_node(
    pre: Seq<NodeView>,
    post: Seq<NodeView>,
    node: NodeView,
    parent_id: NodeId,
    id: NodeId,
) -> bool {
    &&& id.0 == pre.len()
    &&& post == attached(pre.push(with_id(node, id)), parent_id, id)
}

/// The effect of `append`: the raw attach step alone, with no detaching.
pub open spec fn spec_append(
    pre: Seq<NodeView>,
    post: Seq<NodeView>,
    node_id: NodeId,
    parent_id: NodeId,
) -> bool {
    post == attached(pre, parent_id, node_id)
}

/// The effect of `relocate`: every listing of the node removed from its
/// current parent's child list, if it has one, then the attach step.
pub open spec fn spec_relocate(
    pre: Seq<NodeView>,
    post: Seq<NodeView>,
    node_id: NodeId,
    parent_id: NodeId,
) -> bool {
    post == attached(detach_from_parent(pre, node_id), parent_id, node_id)
}

/// `nodes` with `node_id` struck from its current parent's child list; the
/// arena unchanged when the node has no parent.
pub open spec fn detach_from_parent(nodes: Seq<NodeView>, node_id: NodeId) -> Seq<NodeView> {
    match nodes[node_id.0 as int].parent {
        Some(p1) => nodes.update(
            p1.0 as int,
            with_children(
                nodes[p1.0 as int],
                without(nodes[p1.0 as int].children, node_id),
            ),
        ),
        None => nodes,
    }
}

impl Document {
    /// Creates a document whose arena already holds the root node: identity
    /// 0, no parent, `Document` payload. This establishes the root shape for
    /// the document's whole lifetime.
    pub fn new() -> (r: Document)
        ensures
            r@.len() == 1,
            r@[0].id.0 == 0,
            r@[0].parent is None,
            r@[0].children == Seq::<NodeId>::empty(),
            r@[0].data is Document,
            r.doctype == DocumentType::HTML,
            r.quirks_mode == QuirksMode::NoQuirks,
            well_formed(r@),
    {
        let mut arena = NodeArena::new();
        arena.add_node(Node::new_document());
        Document { arena, doctype: DocumentType::HTML, quirks_mode: QuirksMode::NoQuirks }
    }

    /// Fetches a node by identity, or `None` when the arena never assigned
    /// it: lookups may probe speculatively.
    pub fn get_node_by_id(&self, node_id: NodeId) -> (r: Option<&Node>)
        ensures
            (node_id.0 < self@.len()) <==> (r is Some),
            r matches Some(n) ==> n@ == self@[node_id.0 as int],
    {
        self.arena.get_node(node_id)
    }

    /// Fetches a node by identity for mutation, or `None` when the arena
    /// never assigned it, in which case nothing changes.
    pub fn get_mut_node_by_id(&mut self, node_id: NodeId) -> (r: Option<&mut Node>)
        ensures
            final(self).doctype == old(self).doctype,
            final(self).quirks_mode == old(self).quirks_mode,
            node_id.0 >= old(self)@.len() ==> r is None && final(self)@ == old(self)@,
            node_id.0 < old(self)@.len() ==> r is Some && (r.unwrap())@ == old(self)@[node_id.0 as int]
                && final(self)@ == old(self)@.update(node_id.0 as int, final(r.unwrap())@),
    {
        self.arena.get_mut_node(node_id)
    }

    /// Stores `node` in the arena under a fresh identity and immediately
    /// attaches it under `parent_id`, which must already be in the arena.
    pub fn add_node(&mut self, node: Node, parent_id: NodeId) -> (r: NodeId)
        requires
            parent_id.0 < old(self)@.len(),
        ensures
            r.0 == old(self)@.len(),
            final(self)@.len() == old(self)@.len() + 1,
            spec_add_node(old(self)@, final(self)@, node@, parent_id, r),
            well_formed(old(self)@) && node@.children == Seq::<NodeId>::empty() && !(node@.data
                is Document) ==> well_formed(final(self)@),
            final(self).doctype == old(self).doctype,
            final(self).quirks_mode == old(self).quirks_mode,
    {
        let node_id = self.arena.add_node(node);
        self.arena.attach_node(parent_id, node_id);
        proof {
            if well_formed(old(self)@) && node@.children == Seq::<NodeId>::empty() && !(node@.data
                is Document) {
                crate::laws::lemma_add_node_preserves_well_formed(
                    old(self)@,
                    self@,
                    node@,
                    parent_id,
                    node_id,
                );
            }
        }
        node_id
    }

    /// Attaches an already-existing node under `parent_id` without detaching
    /// it first. This primitive deliberately leaves the single-parent shape
    /// to its callers: a node still listed elsewhere ends up in both lists.
    pub fn append(&mut self, node_id: NodeId, parent_id: NodeId)
        requires
            node_id.0 < old(self)@.len(),
            parent_id.0 < old(self)@.len(),
        ensures
            spec_append(old(self)@, final(self)@, node_id, parent_id),
            final(self).doctype == old(self).doctype,
            final(self).quirks_mode == old(self).quirks_mode,
    {
        self.arena.attach_node(parent_id, node_id);
    }

    /// Moves a node from its current parent, if any, under `parent_id`:
    /// strikes it from the old child list, appends it to the new one, and
    /// repoints its parent. This is the move that keeps the single-parent
    /// shape, in contrast with `append`.
    pub fn relocate(&mut self, node_id: NodeId, parent_id: NodeId)
        requires
            node_id.0 < old(self)@.len(),
            parent_id.0 < old(self)@.len(),
            old(self)@[node_id.0 as int].parent matches Some(p) ==> p.0 < old(self)@.len(),
        ensures
            spec_relocate(old(self)@, final(self)@, node_id, parent_id),
            well_formed(old(self)@) && node_id.0 != 0 ==> well_formed(final(self)@),
            final(self).doctype == old(self).doctype,
            final(self).quirks_mode == old(self).quirks_mode,
    {
        let cur_parent = self.arena.get_node(node_id).unwrap().parent;
        if let Some(parent_node_id) = cur_parent {
            self.arena.remove_child(parent_node_id, node_id);
        }
        self.arena.attach_node(parent_id, node_id);
        proof {
            if well_formed(old(self)@) && node_id.0 != 0 {
                crate::laws::lemma_relocate_moves(old(self)@, self@, node_id, parent_id);
            }
        }
    }

    /// Returns the root node. The root is installed by `new` and can never
    /// leave the arena, so a document built through this interface always has
    /// one.
    pub fn get_root(&self) -> (r: &Node)
        requires
            self@.len() >= 1,
        ensures
            r@ == self@[0],
    {
        self.arena.get_node(NodeId::root()).unwrap()
    }
}

impl Default for Document {
    /// An empty document: an arena with no nodes yet, ready for a root.
    fn default() -> (r: Document)
        ensures
            r@.len() == 0,
            r.doctype == DocumentType::HTML,
            r.quirks_mode == QuirksMode::NoQuirks,
    {
        Document {
            arena: NodeArena::new(),
            doctype: DocumentType::HTML,
            quirks_mode: QuirksMode::NoQuirks,
        }
    }
}

} // verus!
