use crate::document::{children_in_range, Document};
use crate::node::{Node, NodeData, NodeId, NodeView};
use vstd::prelude::*;
use vstd::string::StringExecFns;
use vstd::utf8::{encode_scalar, encode_utf8};

verus! {

broadcast use vstd::slice::group_slice_axioms;

/// UTF-8 encoding distributes over concatenation: a sequence's bytes are the
/// bytes of its parts, in order.
pub proof fn lemma_encode_utf8_concat(a: Seq<char>, b: Seq<char>)
    ensures
        encode_utf8(a + b) == encode_utf8(a) + encode_utf8(b),
    decreases a.len(),
{
    if a.len() == 0 {
        assert(a + b =~= b);
        assert(encode_utf8(a) + encode_utf8(b) =~= encode_utf8(b));
    } else {
        assert((a + b)[0] == a[0]);
        assert((a + b).drop_first() =~= a.drop_first() + b);
        lemma_encode_utf8_concat(a.drop_first(), b);
        assert(encode_utf8(a + b) =~= encode_utf8(a) + encode_utf8(b));
    }
}

/// The byte widths of the two continuation glyphs: three blanks take three
/// bytes; the bar is a three-byte character followed by two blanks.
pub proof fn lemma_continuation_glyph_bytes(last: bool)
    ensures
        encode_utf8(continuation_glyph(last)).len() == (if last {
            3int
        } else {
            5int
        }),
{
    let g = continuation_glyph(last);
    let t1 = g.drop_first();
    let t2 = t1.drop_first();
    let t3 = t2.drop_first();
    assert(t1 =~= seq![' ', ' ']);
    assert(t2 =~= seq![' ']);
    assert(t3 =~= Seq::<char>::empty());
    assert(encode_scalar(' ' as u32).len() == 1);
    if !last {
        assert(encode_scalar(g[0] as u32).len() == 3);
    }
    assert(encode_utf8(t3).len() == 0);
    assert(encode_utf8(t2).len() == 1);
    assert(encode_utf8(t1).len() == 2);
}

/// The glyph drawn directly before a node's label: a corner for the last
/// sibling at its level, a tee for any other.
pub open spec fn branch_glyph(last: bool) -> Seq<char> {
    if last {
        "└─ "@
    } else {
        "├─ "@
    }
}

/// The continuation added below a node for its children's lines: blank under
/// a last sibling, a bar under any other.
pub open spec fn continuation_glyph(last: bool) -> Seq<char> {
    if last {
        seq![' ', ' ', ' ']
    } else {
        seq!['│', ' ', ' ']
    }
}

/// The first `k` attributes rendered as ` name=value`, in list order.
pub open spec fn attrs_text(attrs: Seq<(String, String)>, k: int) -> Seq<char>
    decreases k,
{
    if k <= 0 || k > attrs.len() {
        Seq::empty()
    } else {
        attrs_text(attrs, k - 1) + " "@ + attrs[k - 1].0@ + "="@ + attrs[k - 1].1@
    }
}

/// A node's label: what its line shows after the tree-drawing glyphs.
pub open spec fn label_text(data: NodeData) -> Seq<char> {
    match data {
        NodeData::Document => "Document"@,
        NodeData::Text { value } => "\""@ + value@ + "\""@,
        NodeData::Comment { value } => "<!-- "@ + value@ + " -->"@,
        NodeData::Element { name, attributes } => "<"@ + name@ + attrs_text(
            attributes@,
            attributes@.len() as int,
        ) + ">"@,
    }
}

/// Depth-first pre-order rendering of one node and its descendants, each
/// line opened by `prefix` and a branch glyph. After the node's own line,
/// rendering stops with an ellipsis line once the prefix has grown past a
/// fixed width in UTF-8 bytes — the guard against pathologically deep or
/// cyclic-looking trees, at the price of truncating legitimate very deep
/// ones.
pub open spec fn render_node(
    nodes: Seq<NodeView>,
    node: NodeView,
    prefix: Seq<char>,
    last: bool,
) -> Seq<char>
    decreases 46 - encode_utf8(prefix).len(), 0int,
{
    let line = prefix + branch_glyph(last) + label_text(node.data) + "\n"@;
    if encode_utf8(prefix).len() > 40 {
        line + "..."@ + "\n"@
    } else {
        proof {
            lemma_encode_utf8_concat(prefix, continuation_glyph(last));
            lemma_continuation_glyph_bytes(last);
        }
        line + render_children(
            nodes,
            node.children,
            node.children.len() as int,
            prefix + continuation_glyph(last),
        )
    }
}

/// The renderings of the first `k` children, concatenated in list order;
/// only the last child of the full list counts as last.
pub open spec fn render_children(
    nodes: Seq<NodeView>,
    children: Seq<NodeId>,
    k: int,
    prefix: Seq<char>,
) -> Seq<char>
    decreases 46 - encode_utf8(prefix).len(), k,
{
    if k <= 0 || k > children.len() {
        Seq::empty()
    } else {
        render_children(nodes, children, k - 1, prefix) + render_node(
            nodes,
            nodes[(children[k - 1]).0 as int],
            prefix,
            k == children.len(),
        )
    }
}

impl Document {
    /// Writes the rendering of `node` and its descendants onto `out`: one
    /// line per node, depth first, children in list order, descent cut off
    /// with an ellipsis once the prefix outgrows the fixed byte width.
    #[verifier::rlimit(100)]
    pub fn print_tree(&self, node: &Node, prefix: String, last: bool, out: &mut String)
        requires
            children_in_range(self@),
            forall|j: int|
                0 <= j < node@.children.len() ==> (#[trigger] node@.children[j]).0 < self@.len(),
        ensures
            final(out)@ == old(out)@ + render_node(self@, node@, prefix@, last),
        decreases 46 - encode_utf8(prefix@).len(),
    {
        let ghost out0 = out@;
        out.append(prefix.as_str());
        if last {
            out.append("└─ ");
        } else {
            out.append("├─ ");
        }
        match &node.data {
            NodeData::Document => {
                out.append("Document");
                out.append("\n");
            },
            NodeData::Text { value } => {
                out.append("\"");
                out.append(value.as_str());
                out.append("\"");
                out.append("\n");
            },
            NodeData::Comment { value } => {
                out.append("<!-- ");
                out.append(value.as_str());
                out.append(" -->");
                out.append("\n");
            },
            NodeData::Element { name, attributes } => {
                out.append("<");
                out.append(name.as_str());
                let ghost base = out@;
                let mut ai: usize = 0;
                while ai < attributes.len()
                    invariant
                        ai <= attributes@.len(),
                        out@ == base + attrs_text(attributes@, ai as int),
                    decreases attributes@.len() - ai,
                {
                    let pair = &attributes[ai];
                    out.append(" ");
                    out.append(pair.0.as_str());
                    out.append("=");
                    out.append(pair.1.as_str());
                    ai = ai + 1;
                    proof {
                        assert(out@ =~= base + attrs_text(attributes@, ai as int));
                    }
                }
                out.append(">");
                out.append("\n");
            },
        }
        let ghost line = out0 + prefix@ + branch_glyph(last) + label_text(node@.data) + "\n"@;
        proof {
            assert(out@ =~= line);
        }
        let plen = prefix.as_str().as_bytes().len();
        if plen > 40 {
            out.append("...");
            out.append("\n");
            proof {
                assert(out@ =~= out0 + render_node(self@, node@, prefix@, last));
            }
            return ;
        }
        let mut cp = prefix;
        if last {
            cp.append("   ");
            proof {
                reveal_strlit("   ");
                assert(cp@ =~= prefix@ + continuation_glyph(true));
            }
        } else {
            cp.append("│  ");
            proof {
                reveal_strlit("│  ");
                assert(cp@ =~= prefix@ + continuation_glyph(false));
            }
        }
        let len = node.children.len();
        let mut i: usize = 0;
        while i < len
            invariant
                len == node@.children.len(),
                i <= len,
                children_in_range(self@),
                forall|j: int|
                    0 <= j < node@.children.len() ==> (#[trigger] node@.children[j]).0
                        < self@.len(),
                cp@ == prefix@ + continuation_glyph(last),
                encode_utf8(prefix@).len() <= 40,
                out@ == line + render_children(self@, node@.children, i as int, cp@),
            decreases len - i,
        {
            let child_id = node.children[i];
            let child = self.arena.get_node(child_id).unwrap();
            proof {
                lemma_encode_utf8_concat(prefix@, continuation_glyph(last));
                lemma_continuation_glyph_bytes(last);
            }
            self.print_tree(child, cp.clone(), i == len - 1, out);
            i = i + 1;
            proof {
                assert(out@ =~= line + render_children(self@, node@.children, i as int, cp@));
            }
        }
        proof {
            assert(out@ =~= out0 + render_node(self@, node@, prefix@, last));
        }
    }

    /// The whole-document rendering: the root with an empty prefix, drawn as
    /// the last entry at its level.
    pub fn render(&self) -> (r: String)
        requires
            self@.len() >= 1,
            children_in_range(self@),
        ensures
            r@ == render_node(self@, self@[0], Seq::<char>::empty(), true),
    {
        let mut out = String::new();
        let root = self.get_root();
        let prefix = String::new();
        self.print_tree(root, prefix, true, &mut out);
        proof {
            assert(Seq::<char>::empty() + render_node(self@, self@[0], Seq::<char>::empty(), true)
                =~= render_node(self@, self@[0], Seq::<char>::empty(), true));
        }
        out
    }
}

} // verus!
