//! Removes empty container elements (`g`, `defs`, `mask`, ...).
//! The emptiness test looks at the children as they stand before the
//! recursive cleaning of that level's subtrees, so containers emptied by
//! this very pass survive until a later run.

use vstd::prelude::*;
use crate::plugins::Plugin;
use crate::strutil::string_eq_str;
use crate::tree::{
    attrs_clone, clone_node, lemma_node_element_view, lemma_nodes_view_snoc, nodes_view, Document,
    Element, Node, VElement, VNode,
};

verus! {

/// Is this a container element name?
pub open spec fn is_container(name: Seq<char>) -> bool {
    name == "defs"@ || name == "g"@ || name == "marker"@ || name == "mask"@ || name
        == "missing-glyph"@ || name == "pattern"@ || name == "switch"@ || name == "symbol"@
}

/// The node list with childless containers removed, from position `k`
/// on.
pub open spec fn rm_empty_spec(ns: Seq<VNode>, k: int) -> Seq<VNode>
    decreases ns, ns.len() - k,
{
    if k < 0 || k >= ns.len() {
        Seq::empty()
    } else {
        let rest = rm_empty_spec(ns, k + 1);
        match ns[k] {
            VNode::Element(e) => if is_container(e.name) && e.children.len() == 0 {
                rest
            } else {
                seq![
                    VNode::Element(
                        VElement {
                            name: e.name,
                            attrs: e.attrs,
                            children: rm_empty_spec(e.children, 0),
                        },
                    ),
                ] + rest
            },
            _ => seq![ns[k]] + rest,
        }
    }
}

/// Is this a container element name, executable.
fn is_container_x(name: &String) -> (r: bool)
    ensures
        r == is_container(name@),
{
    string_eq_str(name, "defs") || string_eq_str(name, "g") || string_eq_str(name, "marker")
        || string_eq_str(name, "mask") || string_eq_str(name, "missing-glyph") || string_eq_str(
        name,
        "pattern",
    ) || string_eq_str(name, "switch") || string_eq_str(name, "symbol")
}

/// Rebuilds a node list without childless containers: exactly
/// `rm_empty_spec`.
fn rm_empty_nodes(ns: &Vec<Node>) -> (r: Vec<Node>)
    ensures
        nodes_view(r@) == rm_empty_spec(nodes_view(ns@), 0),
    decreases ns@,
{
    let ghost vs = nodes_view(ns@);
    let mut out: Vec<Node> = Vec::new();
    let mut i: usize = 0;
    while i < ns.len()
        invariant
            i <= ns@.len(),
            vs == nodes_view(ns@),
            vs.len() == ns@.len(),
            nodes_view(out@) + rm_empty_spec(vs, i as int) == rm_empty_spec(vs, 0),
        decreases ns@.len() - i,
    {
        let ghost out0 = out@;
        proof {
            assert(vs[i as int] == ns@[i as int].view());
        }
        match &ns[i] {
            Node::Element(e) => {
                proof {
                    lemma_node_element_view(*e);
                }
                if is_container_x(&e.name) && e.children.len() == 0 {
                    proof {
                        assert(nodes_view(e.children@) =~= Seq::<VNode>::empty());
                    }
                } else {
                    proof {
                        assert(decreases_to!(ns@ => ns@[i as int]->Element_0.children@));
                    }
                    let ch = rm_empty_nodes(&e.children);
                    let e2 = Element {
                        name: e.name.clone(),
                        attributes: attrs_clone(&e.attributes),
                        children: ch,
                    };
                    proof {
                        lemma_node_element_view(e2);
                    }
                    out.push(Node::Element(e2));
                    proof {
                        lemma_nodes_view_snoc(out@);
                        assert(out@.drop_last() =~= out0);
                        assert(nodes_view(out@) + rm_empty_spec(vs, i + 1) =~~= rm_empty_spec(
                            vs,
                            0,
                        ));
                    }
                }
            },
            _ => {
                let c = clone_node(&ns[i]);
                let ghost cv = c.view();
                out.push(c);
                proof {
                    lemma_nodes_view_snoc(out@);
                    assert(out@.drop_last() =~= out0);
                    assert(nodes_view(out@) + rm_empty_spec(vs, i + 1) =~~= rm_empty_spec(vs, 0));
                }
            },
        }
        i = i + 1;
    }
    proof {
        assert(nodes_view(out@) =~= rm_empty_spec(vs, 0));
    }
    out
}

/// The empty-container-removal pass.
pub struct RemoveEmptyContainers;

impl RemoveEmptyContainers {
    /// Removes childless container elements everywhere in the document.
    pub fn run(doc: &mut Document)
        ensures
            final(doc).view() == rm_empty_spec(old(doc).view(), 0),
    {
        let out = rm_empty_nodes(&doc.root);
        doc.root = out;
    }
}

impl Plugin for RemoveEmptyContainers {
    fn apply(&self, doc: &mut Document) {
        RemoveEmptyContainers::run(doc);
    }
}

} // verus!
