//! Removes the `<?xml ...?>` processing instruction from the document's
//! top level.

use vstd::prelude::*;
use crate::plugins::Plugin;
use crate::strutil::string_eq_str;
use crate::tree::{clone_node, lemma_nodes_view_snoc, nodes_view, Document, Node, VNode};

verus! {

/// The top-level node list without processing instructions whose target
/// is `xml`, from position `k` on.
pub open spec fn rm_xml_pi_spec(ns: Seq<VNode>, k: int) -> Seq<VNode>
    decreases ns.len() - k,
{
    if k < 0 || k >= ns.len() {
        Seq::empty()
    } else {
        let rest = rm_xml_pi_spec(ns, k + 1);
        match ns[k] {
            VNode::ProcessingInstruction(t, _) => if t == "xml"@ {
                rest
            } else {
                seq![ns[k]] + rest
            },
            _ => seq![ns[k]] + rest,
        }
    }
}

/// The xml-declaration-removal pass.
pub struct RemoveXMLProcInst;

impl RemoveXMLProcInst {
    /// Removes top-level `xml` processing instructions.
    pub fn run(doc: &mut Document)
        ensures
            final(doc).view() == rm_xml_pi_spec(old(doc).view(), 0),
    {
        let ghost vs = doc.view();
        let mut out: Vec<Node> = Vec::new();
        let mut i: usize = 0;
        while i < doc.root.len()
            invariant
                i <= doc.root@.len(),
                vs == doc.view(),
                vs.len() == doc.root@.len(),
                nodes_view(out@) + rm_xml_pi_spec(vs, i as int) == rm_xml_pi_spec(vs, 0),
            decreases doc.root@.len() - i,
        {
            let ghost out0 = out@;
            proof {
                assert(vs[i as int] == doc.root@[i as int].view());
            }
            let is_xml_pi = match &doc.root[i] {
                Node::ProcessingInstruction(t, _) => string_eq_str(t, "xml"),
                _ => false,
            };
            if !is_xml_pi {
                let c = clone_node(&doc.root[i]);
                let ghost cv = c.view();
                out.push(c);
                proof {
                    lemma_nodes_view_snoc(out@);
                    assert(out@.drop_last() =~= out0);
                    assert(nodes_view(out@) + rm_xml_pi_spec(vs, i + 1) =~~= rm_xml_pi_spec(vs, 0));
                }
            }
            i = i + 1;
        }
        proof {
            assert(nodes_view(out@) =~= rm_xml_pi_spec(vs, 0));
        }
        doc.root = out;
    }
}

impl Plugin for RemoveXMLProcInst {
    fn apply(&self, doc: &mut Document) {
        RemoveXMLProcInst::run(doc);
    }
}

} // verus!
