//! Removes doctype nodes from the document's top level.

use vstd::prelude::*;
use crate::plugins::Plugin;
use crate::tree::{clone_node, lemma_nodes_view_snoc, nodes_view, Document, Node, VNode};

verus! {

/// The top-level node list without doctype nodes, from position `k` on;
/// nothing else changes.
pub open spec fn rm_doctype_spec(ns: Seq<VNode>, k: int) -> Seq<VNode>
    decreases ns.len() - k,
{
    if k < 0 || k >= ns.len() {
        Seq::empty()
    } else {
        let rest = rm_doctype_spec(ns, k + 1);
        match ns[k] {
            VNode::Doctype(_) => rest,
            _ => seq![ns[k]] + rest,
        }
    }
}

/// The doctype-removal pass.
pub struct RemoveDoctype;

impl RemoveDoctype {
    /// Removes top-level doctype nodes.
    pub fn run(doc: &mut Document)
        ensures
            final(doc).view() == rm_doctype_spec(old(doc).view(), 0),
    {
        let ghost vs = doc.view();
        let mut out: Vec<Node> = Vec::new();
        let mut i: usize = 0;
        while i < doc.root.len()
            invariant
                i <= doc.root@.len(),
                vs == doc.view(),
                vs.len() == doc.root@.len(),
                nodes_view(out@) + rm_doctype_spec(vs, i as int) == rm_doctype_spec(vs, 0),
            decreases doc.root@.len() - i,
        {
            let ghost out0 = out@;
            proof {
                assert(vs[i as int] == doc.root@[i as int].view());
            }
            match &doc.root[i] {
                Node::Doctype(_) => {},
                _ => {
                    let c = clone_node(&doc.root[i]);
                    let ghost cv = c.view();
                    out.push(c);
                    proof {
                        lemma_nodes_view_snoc(out@);
                        assert(out@.drop_last() =~= out0);
                        assert(nodes_view(out@) + rm_doctype_spec(vs, i + 1) =~~= rm_doctype_spec(
                            vs,
                            0,
                        ));
                    }
                },
            }
            i = i + 1;
        }
        proof {
            assert(nodes_view(out@) =~= rm_doctype_spec(vs, 0));
        }
        doc.root = out;
    }
}

impl Plugin for RemoveDoctype {
    fn apply(&self, doc: &mut Document) {
        RemoveDoctype::run(doc);
    }
}

} // verus!
