//! Removes every comment node, anywhere in the tree.

use vstd::prelude::*;
use crate::plugins::Plugin;
use crate::tree::{
    attrs_clone, clone_node, lemma_node_element_view, lemma_nodes_view_snoc, nodes_view, Document,
    Element, Node, VElement, VNode,
};

verus! {

/// The node list with every comment removed, from position `k` on.
pub open spec fn rm_comments_spec(ns: Seq<VNode>, k: int) -> Seq<VNode>
    decreases ns, ns.len() - k,
{
    if k < 0 || k >= ns.len() {
        Seq::empty()
    } else {
        let rest = rm_comments_spec(ns, k + 1);
        match ns[k] {
            VNode::Comment(_) => rest,
            VNode::Element(e) => seq![
                VNode::Element(
                    VElement {
                        name: e.name,
                        attrs: e.attrs,
                        children: rm_comments_spec(e.children, 0),
                    },
                ),
            ] + rest,
            _ => seq![ns[k]] + rest,
        }
    }
}

/// Rebuilds a node list without its comments: exactly
/// `rm_comments_spec`.
fn rm_comments_nodes(ns: &Vec<Node>) -> (r: Vec<Node>)
    ensures
        nodes_view(r@) == rm_comments_spec(nodes_view(ns@), 0),
    decreases ns@,
{
    let ghost vs = nodes_view(ns@);
    let mut out: Vec<Node> = Vec::new();
    let mut i: usize = 0;
    while i < ns.len()
        invariant
            i <= ns@.len(),
            vs == nodes_view(ns@),
            vs.len() == ns@.len(),
            nodes_view(out@) + rm_comments_spec(vs, i as int) == rm_comments_spec(vs, 0),
        decreases ns@.len() - i,
    {
        let ghost out0 = out@;
        proof {
            assert(vs[i as int] == ns@[i as int].view());
        }
        match &ns[i] {
            Node::Comment(_) => {},
            Node::Element(e) => {
                proof {
                    assert(decreases_to!(ns@ => ns@[i as int]->Element_0.children@));
                    lemma_node_element_view(*e);
                }
                let ch = rm_comments_nodes(&e.children);
                let e2 = Element {
                    name: e.name.clone(),
                    attributes: attrs_clone(&e.attributes),
                    children: ch,
                };
                let ghost e2v = e2.view();
                proof {
                    lemma_node_element_view(e2);
                }
                out.push(Node::Element(e2));
                proof {
                    lemma_nodes_view_snoc(out@);
                    assert(out@.drop_last() =~= out0);
                    assert(nodes_view(out@) + rm_comments_spec(vs, i + 1) =~~= rm_comments_spec(
                        vs,
                        0,
                    ));
                }
            },
            _ => {
                let c = clone_node(&ns[i]);
                let ghost cv = c.view();
                out.push(c);
                proof {
                    lemma_nodes_view_snoc(out@);
                    assert(out@.drop_last() =~= out0);
                    assert(nodes_view(out@) + rm_comments_spec(vs, i + 1) =~~= rm_comments_spec(
                        vs,
                        0,
                    ));
                }
            },
        }
        i = i + 1;
    }
    proof {
        assert(nodes_view(out@) =~= rm_comments_spec(vs, 0));
    }
    out
}

/// The comment-removal pass.
pub struct RemoveComments;

impl RemoveComments {
    /// Removes every comment in the document.
    pub fn run(doc: &mut Document)
        ensures
            final(doc).view() == rm_comments_spec(old(doc).view(), 0),
    {
        let out = rm_comments_nodes(&doc.root);
        doc.root = out;
    }
}

impl Plugin for RemoveComments {
    fn apply(&self, doc: &mut Document) {
        RemoveComments::run(doc);
    }
}

} // verus!
