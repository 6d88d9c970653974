use dom_arena::document::Document;
use dom_arena::node::Node;

#[test]
fn traversal_order_with_known_shape() {
    let mut document = Document::new();
    let root_id = document.get_root().id;
    let html = document.add_node(Node::new_element("html", Vec::new()), root_id);
    let head = document.add_node(Node::new_element("head", Vec::new()), html);
    let title = document.add_node(Node::new_element("title", Vec::new()), head);
    document.add_node(Node::new_text("text"), title);
    let body = document.add_node(
        Node::new_element("body", vec![("class".to_string(), "main".to_string())]),
        html,
    );
    let p = document.add_node(Node::new_element("p", Vec::new()), body);
    document.add_node(Node::new_text("text"), p);
    document.add_node(Node::new_comment("note"), p);
    document.add_node(Node::new_text("text2"), p);

    let expected = r#"└─ Document
   └─ <html>
      ├─ <head>
      │  └─ <title>
      │     └─ "text"
      └─ <body class=main>
         └─ <p>
            ├─ "text"
            ├─ <!-- note -->
            └─ "text2"
"#;
    assert_eq!(document.render(), expected);
}

#[test]
fn deep_chain_is_truncated_with_ellipsis() {
    let mut document = Document::new();
    let mut parent = document.get_root().id;
    for _ in 0..16 {
        parent = document.add_node(Node::new_element("d", Vec::new()), parent);
    }
    let mut expected = String::from("└─ Document\n");
    for depth in 1..=14 {
        expected.push_str(&" ".repeat(3 * depth));
        expected.push_str("└─ <d>\n");
    }
    expected.push_str("...\n");
    assert_eq!(document.render(), expected);
}

#[test]
fn bar_continuations_count_their_bytes_toward_truncation() {
    // Each level adds a sibling after the spine element, so every spine
    // ancestor is a non-last child and contributes the five-byte bar
    // continuation: the cut falls at depth nine, where the prefix is 43
    // bytes, well before the depth a blank-only prefix reaches it.
    let mut document = Document::new();
    let mut parent = document.get_root().id;
    for _ in 0..10 {
        let spine = document.add_node(Node::new_element("a", Vec::new()), parent);
        document.add_node(Node::new_text("end"), parent);
        parent = spine;
    }
    let mut expected = String::from("└─ Document\n");
    for depth in 1..=9 {
        expected.push_str("   ");
        expected.push_str(&"│  ".repeat(depth - 1));
        expected.push_str("├─ <a>\n");
    }
    expected.push_str("...\n");
    expected.push_str("   ");
    expected.push_str(&"│  ".repeat(8));
    expected.push_str("└─ \"end\"\n");
    expected.push_str("...\n");
    for depth in (1..=8).rev() {
        expected.push_str("   ");
        expected.push_str(&"│  ".repeat(depth - 1));
        expected.push_str("└─ \"end\"\n");
    }
    assert_eq!(document.render(), expected);
}

#[test]
fn end_to_end_reordered_children_render_in_list_order() {
    let mut document = Document::new();
    let root_id = document.get_root().id;
    let html = document.add_node(Node::new_element("html", Vec::new()), root_id);
    let head = document.add_node(Node::new_element("head", Vec::new()), html);
    let title = document.add_node(Node::new_element("title", Vec::new()), head);
    document.add_node(Node::new_text("Hello world"), title);
    let body = document.add_node(Node::new_element("body", Vec::new()), html);
    let p = document.add_node(Node::new_element("p", Vec::new()), body);
    let t1 = document.add_node(Node::new_text("This is a paragraph"), p);
    let comment = document.add_node(Node::new_comment("This is a comment"), p);
    document.add_node(Node::new_text("This is another paragraph"), p);

    // Move the first text and the comment to the end: the child list becomes
    // the second text, the first text, the comment — and the rendering must
    // show the list order, not the creation order.
    document.relocate(t1, p);
    document.relocate(comment, p);

    let expected = r#"└─ Document
   └─ <html>
      ├─ <head>
      │  └─ <title>
      │     └─ "Hello world"
      └─ <body>
         └─ <p>
            ├─ "This is another paragraph"
            ├─ "This is a paragraph"
            └─ <!-- This is a comment -->
"#;
    assert_eq!(document.render(), expected);
}

#[test]
fn empty_document_renders_the_root_alone() {
    let document = Document::new();
    assert_eq!(document.render(), "└─ Document\n");
}
