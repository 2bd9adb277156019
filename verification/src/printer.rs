//! The printer: serializes a document tree back to markup text.
//! Elements without children self-close; attribute values are emitted
//! exactly as stored. `print_nodes_spec` is the mathematical wire format;
//! the executable printer is proved to produce exactly that text.

use vstd::prelude::*;
use crate::strutil::{chars_to_string, push_str_chars};
use crate::tree::{attrs_entries_vec, Document, Node, VNode};

verus! {

/// The serialized attribute list from position `j` on: one
/// space-prefixed `key="value"` item per entry.
pub open spec fn attrs_text_from(attrs: Seq<(Seq<char>, Seq<char>)>, j: int) -> Seq<char>
    decreases attrs.len() - j,
{
    if j < 0 || j >= attrs.len() {
        Seq::empty()
    } else {
        " "@ + attrs[j].0 + "=\""@ + attrs[j].1 + "\""@ + attrs_text_from(attrs, j + 1)
    }
}

/// The serialized text of one node.
pub open spec fn print_node_spec(n: VNode) -> Seq<char>
    decreases n, 1int, 0int,
{
    match n {
        VNode::Element(e) => "<"@ + e.name + attrs_text_from(e.attrs, 0) + (
        if e.children.len() == 0 {
            "/>"@
        } else {
            ">"@ + print_nodes_spec(e.children, 0) + "</"@ + e.name + ">"@
        }),
        VNode::Text(s) => s,
        VNode::Comment(s) => "<!--"@ + s + "-->"@,
        VNode::Cdata(s) => "<![CDATA["@ + s + "]]>"@,
        VNode::Doctype(s) => "<!DOCTYPE "@ + s + ">"@,
        VNode::ProcessingInstruction(t, c) => "<?"@ + t + (match c {
            Some(cc) => " "@ + cc,
            None => Seq::empty(),
        }) + "?>"@,
    }
}

/// The serialized text of the nodes from position `j` on.
pub open spec fn print_nodes_spec(ns: Seq<VNode>, j: int) -> Seq<char>
    decreases ns, 0int, ns.len() - j,
{
    if j < 0 || j >= ns.len() {
        Seq::empty()
    } else {
        print_node_spec(ns[j]) + print_nodes_spec(ns, j + 1)
    }
}

/// Serializes one node, appending to `out`.
fn print_node(node: &Node, out: &mut Vec<char>)
    ensures
        final(out)@ == old(out)@ + print_node_spec(node.view()),
    decreases node,
{
    match node {
        Node::Element(elem) => {
            let ghost e = node.view()->Element_0;
            push_str_chars(out, "<");
            push_str_chars(out, elem.name.as_str());
            let attrs = attrs_entries_vec(&elem.attributes);
            let ghost base = out@;
            let mut j: usize = 0;
            while j < attrs.len()
                invariant
                    j <= attrs@.len(),
                    attrs@.len() == e.attrs.len(),
                    forall|q: int|
                        0 <= q < attrs@.len() ==> (#[trigger] attrs@[q].0@, attrs@[q].1@)
                            == e.attrs[q],
                    out@ + attrs_text_from(e.attrs, j as int) == base + attrs_text_from(e.attrs, 0),
                decreases attrs@.len() - j,
            {
                push_str_chars(out, " ");
                push_str_chars(out, attrs[j].0.as_str());
                push_str_chars(out, "=\"");
                push_str_chars(out, attrs[j].1.as_str());
                push_str_chars(out, "\"");
                proof {
                    assert(out@ + attrs_text_from(e.attrs, j + 1) =~= base + attrs_text_from(
                        e.attrs,
                        0,
                    ));
                }
                j = j + 1;
            }
            proof {
                assert(out@ =~= base + attrs_text_from(e.attrs, 0));
            }
            if elem.children.len() == 0 {
                push_str_chars(out, "/>");
                proof {
                    assert(out@ =~= old(out)@ + print_node_spec(node.view()));
                }
            } else {
                push_str_chars(out, ">");
                let ghost base2 = out@;
                let mut q: usize = 0;
                while q < elem.children.len()
                    invariant
                        *node == Node::Element(*elem),
                        q <= elem.children@.len(),
                        e.children.len() == elem.children@.len(),
                        forall|r: int|
                            0 <= r < elem.children@.len() ==> e.children[r] == (
                            #[trigger] elem.children@[r]).view(),
                        out@ + print_nodes_spec(e.children, q as int) == base2 + print_nodes_spec(
                            e.children,
                            0,
                        ),
                    decreases elem.children@.len() - q,
                {
                    proof {
                        assert(decreases_to!(*node => node->Element_0.children@[q as int]));
                    }
                    print_node(&elem.children[q], out);
                    proof {
                        assert(out@ + print_nodes_spec(e.children, q + 1) =~= base2
                            + print_nodes_spec(e.children, 0));
                    }
                    q = q + 1;
                }
                proof {
                    assert(out@ =~= base2 + print_nodes_spec(e.children, 0));
                }
                push_str_chars(out, "</");
                push_str_chars(out, elem.name.as_str());
                push_str_chars(out, ">");
                proof {
                    assert(out@ =~= old(out)@ + print_node_spec(node.view()));
                }
            }
        },
        Node::Text(s) => {
            push_str_chars(out, s.as_str());
        },
        Node::Comment(s) => {
            push_str_chars(out, "<!--");
            push_str_chars(out, s.as_str());
            push_str_chars(out, "-->");
            proof {
                assert(out@ =~= old(out)@ + print_node_spec(node.view()));
            }
        },
        Node::Cdata(s) => {
            push_str_chars(out, "<![CDATA[");
            push_str_chars(out, s.as_str());
            push_str_chars(out, "]]>");
            proof {
                assert(out@ =~= old(out)@ + print_node_spec(node.view()));
            }
        },
        Node::Doctype(s) => {
            push_str_chars(out, "<!DOCTYPE ");
            push_str_chars(out, s.as_str());
            push_str_chars(out, ">");
            proof {
                assert(out@ =~= old(out)@ + print_node_spec(node.view()));
            }
        },
        Node::ProcessingInstruction(t, c) => {
            push_str_chars(out, "<?");
            push_str_chars(out, t.as_str());
            match c {
                Some(cc) => {
                    push_str_chars(out, " ");
                    push_str_chars(out, cc.as_str());
                },
                None => {},
            }
            push_str_chars(out, "?>");
            proof {
                assert(out@ =~= old(out)@ + print_node_spec(node.view()));
            }
        },
    }
}

/// Serializes a whole document: the concatenated text of its top-level
/// nodes.
pub fn print(doc: &Document) -> (r: String)
    ensures
        r@ == print_nodes_spec(doc.view(), 0),
{
    let mut out: Vec<char> = Vec::new();
    let ghost vs = doc.view();
    let mut i: usize = 0;
    while i < doc.root.len()
        invariant
            i <= doc.root@.len(),
            vs == doc.view(),
            vs.len() == doc.root@.len(),
            out@ + print_nodes_spec(vs, i as int) == print_nodes_spec(vs, 0),
        decreases doc.root@.len() - i,
    {
        proof {
            assert(vs[i as int] == doc.root@[i as int].view());
        }
        print_node(&doc.root[i], &mut out);
        proof {
            assert(out@ + print_nodes_spec(vs, i + 1) =~= print_nodes_spec(vs, 0));
        }
        i = i + 1;
    }
    proof {
        assert(out@ =~= print_nodes_spec(vs, 0));
    }
    chars_to_string(&out)
}

} // verus!
