use dom_arena::document::{Document, DocumentType, QuirksMode};
use dom_arena::node::{Node, NodeData, NodeId};

#[test]
fn root_uniqueness() {
    let document = Document::new();
    let root = document.get_root();
    assert_eq!(root.id, NodeId::root());
    assert!(root.parent.is_none());
    assert!(root.children.is_empty());
    assert!(matches!(root.data, NodeData::Document));
    assert!(document.get_node_by_id(NodeId(0)).is_some());
    assert!(document.get_node_by_id(NodeId(1)).is_none());
    assert_eq!(document.doctype, DocumentType::HTML);
    assert_eq!(document.quirks_mode, QuirksMode::NoQuirks);
}

#[test]
fn ids_are_monotonic_and_resolve() {
    let mut document = Document::new();
    let root_id = document.get_root().id;
    let a = document.add_node(Node::new_text("first"), root_id);
    let b = document.add_node(Node::new_text("second"), root_id);
    let c = document.add_node(Node::new_comment("third"), a);
    assert!(root_id < a);
    assert!(a < b);
    assert!(b < c);
    let got = document.get_node_by_id(b).unwrap();
    assert_eq!(got.id, b);
    assert!(matches!(&got.data, NodeData::Text { value } if value == "second"));
}

#[test]
fn add_node_attaches_under_parent() {
    let mut document = Document::new();
    let root_id = document.get_root().id;
    let p = document.add_node(Node::new_element("div", Vec::new()), root_id);
    let n = document.add_node(Node::new_text("inside"), p);
    let node = document.get_node_by_id(n).unwrap();
    assert_eq!(node.parent, Some(p));
    let parent = document.get_node_by_id(p).unwrap();
    assert_eq!(parent.children.iter().filter(|c| **c == n).count(), 1);
    assert_eq!(*parent.children.last().unwrap(), n);
}

#[test]
fn relocate_moves_between_parents() {
    let mut document = Document::new();
    let root_id = document.get_root().id;
    let p1 = document.add_node(Node::new_element("ul", Vec::new()), root_id);
    let p2 = document.add_node(Node::new_element("ol", Vec::new()), root_id);
    let n = document.add_node(Node::new_text("item"), p1);
    document.relocate(n, p2);
    assert!(!document.get_node_by_id(p1).unwrap().children.contains(&n));
    let listed = document
        .get_node_by_id(p2)
        .unwrap()
        .children
        .iter()
        .filter(|c| **c == n)
        .count();
    assert_eq!(listed, 1);
    assert_eq!(document.get_node_by_id(n).unwrap().parent, Some(p2));
}

#[test]
fn relocate_without_prior_parent_attaches() {
    // A node stripped of its parent reference by direct mutation: relocate
    // then performs the attach half alone.
    let mut document = Document::new();
    let root_id = document.get_root().id;
    let p2 = document.add_node(Node::new_element("div", Vec::new()), root_id);
    let n = document.add_node(Node::new_text("stray"), root_id);
    document.get_mut_node_by_id(n).unwrap().parent = None;
    document
        .get_mut_node_by_id(root_id)
        .unwrap()
        .children
        .retain(|c| *c != n);
    document.relocate(n, p2);
    assert_eq!(document.get_node_by_id(n).unwrap().parent, Some(p2));
    assert_eq!(document.get_node_by_id(p2).unwrap().children, vec![n]);
}

#[test]
fn append_leaves_node_in_both_lists() {
    let mut document = Document::new();
    let root_id = document.get_root().id;
    let p1 = document.add_node(Node::new_element("p", Vec::new()), root_id);
    let p2 = document.add_node(Node::new_element("q", Vec::new()), root_id);
    let n = document.add_node(Node::new_text("shared"), p1);
    document.append(n, p2);
    assert!(document.get_node_by_id(p1).unwrap().children.contains(&n));
    assert!(document.get_node_by_id(p2).unwrap().children.contains(&n));
    assert_eq!(document.get_node_by_id(n).unwrap().parent, Some(p2));
    let rendered = document.render();
    assert_eq!(rendered.matches("\"shared\"").count(), 2);
}

#[test]
fn mutable_lookup_changes_the_stored_node() {
    let mut document = Document::new();
    let root_id = document.get_root().id;
    let n = document.add_node(Node::new_text("before"), root_id);
    match &mut document.get_mut_node_by_id(n).unwrap().data {
        NodeData::Text { value } => {
            value.clear();
            value.push_str("after");
        }
        _ => panic!("expected a text node"),
    }
    let got = document.get_node_by_id(n).unwrap();
    assert!(matches!(&got.data, NodeData::Text { value } if value == "after"));
    assert!(document.get_mut_node_by_id(NodeId(99)).is_none());
}

#[test]
fn default_document_has_no_nodes() {
    let document = Document::default();
    assert!(document.get_node_by_id(NodeId(0)).is_none());
    assert_eq!(document.doctype, DocumentType::HTML);
    assert_eq!(document.quirks_mode, QuirksMode::NoQuirks);
}
