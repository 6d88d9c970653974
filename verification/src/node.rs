use vstd::prelude::*;

verus! {

/// A stable identity for a node within one document's arena.
///
/// Identity 0 is reserved for the document root. All other identities are
/// handed out sequentially as nodes are stored; an identity is never reused
/// and has no meaning in any other document.
#[derive(Clone, Copy, Debug, PartialEq, Eq, PartialOrd, Ord, Hash, Structural)]
pub struct NodeId(pub usize);

impl NodeId {
    /// The identity of the document root.
    pub fn root() -> (r: NodeId)
        ensures
            r.0 == 0,
    {
        NodeId(0)
    }
}

/// The payload of a node: the closed set of kinds the store can hold.
///
/// Exactly one node per document carries `Document`; the attribute list of an
/// `Element` is a mapping kept as key/value pairs in insertion order, with
/// the unique-key shape stated by `attr_keys_unique` and owed by the caller
/// that assembles it.
#[derive(Clone, Debug, PartialEq)]
pub enum NodeData {
    Document,
    Element { name: String, attributes: Vec<(String, String)> },
    Text { value: String },
    Comment { value: String },
}

/// A tree element: its identity, its position in the tree, and its payload.
///
/// `parent` is `None` only for the root (or for a node built but not yet
/// attached); `children` lists the node's children in document order.
#[derive(Clone, Debug, PartialEq)]
pub struct Node {
    pub id: NodeId,
    pub parent: Option<NodeId>,
    pub children: Vec<NodeId>,
    pub data: NodeData,
}

/// The attribute list is a mapping: each attribute name appears at most
/// once. The store never derives or checks this itself — the caller that
/// assembles an element's attributes owes it — so it is stated here for
/// callers to establish and rely on, not consumed by the tree operations.
pub open spec fn attr_keys_unique(attrs: Seq<(String, String)>) -> bool {
    forall|i: int, j: int| 0 <= i < j < attrs.len() ==> (#[trigger] attrs[i]).0@ != (
    #[trigger] attrs[j]).0@
}

/// The mathematical model of a node: the fields the contracts speak of, with
/// the child list as a sequence. The payload is carried as a value, since no
/// tree operation ever rewrites it.
#[verifier::ext_equal]
pub ghost struct NodeView {
    pub id: NodeId,
    pub parent: Option<NodeId>,
    pub children: Seq<NodeId>,
    pub data: NodeData,
}

impl View for Node {
    type V = NodeView;

    open spec fn view(&self) -> NodeView {
        NodeView { id: self.id, parent: self.parent, children: self.children@, data: self.data }
    }
}

/// `n` with its identity replaced.
pub open spec fn with_id(n: NodeView, id: NodeId) -> NodeView {
    NodeView { id, ..n }
}

/// `n` repointed at the parent `p`.
pub open spec fn with_parent(n: NodeView, p: NodeId) -> NodeView {
    NodeView { parent: Some(p), ..n }
}

/// `n` with `c` appended to its child list.
pub open spec fn with_child(n: NodeView, c: NodeId) -> NodeView {
    NodeView { children: n.children.push(c), ..n }
}

/// `n` with its child list replaced by `cs`.
pub open spec fn with_children(n: NodeView, cs: Seq<NodeId>) -> NodeView {
    NodeView { children: cs, ..n }
}

impl Node {
    /// A fresh root payload node; the arena assigns the real identity on insertion.
    pub fn new_document() -> (r: Node)
        ensures
            r.id.0 == 0,
            r.parent is None,
            r.children@ == Seq::<NodeId>::empty(),
            r.data is Document,
    {
        Node { id: NodeId(0), parent: None, children: Vec::new(), data: NodeData::Document }
    }

    /// A fresh element node, not yet stored or attached.
    pub fn new_element(name: &str, attributes: Vec<(String, String)>) -> (r: Node)
        ensures
            r.id.0 == 0,
            r.parent is None,
            r.children@ == Seq::<NodeId>::empty(),
            (r.data matches NodeData::Element { name: n, attributes: a } && n@ == name@ && a
                == attributes),
    {
        Node {
            id: NodeId(0),
            parent: None,
            children: Vec::new(),
            data: NodeData::Element { name: name.to_owned(), attributes },
        }
    }

    /// A fresh text node, not yet stored or attached.
    pub fn new_text(value: &str) -> (r: Node)
        ensures
            r.id.0 == 0,
            r.parent is None,
            r.children@ == Seq::<NodeId>::empty(),
            (r.data matches NodeData::Text { value: v } && v@ == value@),
    {
        Node {
            id: NodeId(0),
            parent: None,
            children: Vec::new(),
            data: NodeData::Text { value: value.to_owned() },
        }
    }

    /// A fresh comment node, not yet stored or attached.
    pub fn new_comment(value: &str) -> (r: Node)
        ensures
            r.id.0 == 0,
            r.parent is None,
            r.children@ == Seq::<NodeId>::empty(),
            (r.data matches NodeData::Comment { value: v } && v@ == value@),
    {
        Node {
            id: NodeId(0),
            parent: None,
            children: Vec::new(),
            data: NodeData::Comment { value: value.to_owned() },
        }
    }
}

} // verus!
