//! Removes every `desc` element; also home of the shared
//! remove-by-element-name traversal.

use vstd::prelude::*;
use crate::plugins::Plugin;
use crate::strutil::string_eq_str;
use crate::tree::{
    attrs_clone, clone_node, lemma_node_element_view, lemma_nodes_view_snoc, nodes_view, Document,
    Element, Node, VElement, VNode,
};

verus! {

/// The node list with every element of the given name removed (whole
/// subtree), from position `k` on; other elements keep their places and
/// are cleaned recursively.
pub open spec fn rm_named_spec(ns: Seq<VNode>, k: int, name: Seq<char>) -> Seq<VNode>
    decreases ns, ns.len() - k,
{
    if k < 0 || k >= ns.len() {
        Seq::empty()
    } else {
        let rest = rm_named_spec(ns, k + 1, name);
        match ns[k] {
            VNode::Element(e) => if e.name == name {
                rest
            } else {
                seq![
                    VNode::Element(
                        VElement {
                            name: e.name,
                            attrs: e.attrs,
                            children: rm_named_spec(e.children, 0, name),
                        },
                    ),
                ] + rest
            },
            _ => seq![ns[k]] + rest,
        }
    }
}

/// Rebuilds a node list without elements of the given name: exactly
/// `rm_named_spec`.
pub fn remove_elems_by_name(ns: &Vec<Node>, name: &str) -> (r: Vec<Node>)
    ensures
        nodes_view(r@) == rm_named_spec(nodes_view(ns@), 0, name@),
    decreases ns@,
{
    let ghost vs = nodes_view(ns@);
    let mut out: Vec<Node> = Vec::new();
    let mut i: usize = 0;
    while i < ns.len()
        invariant
            i <= ns@.len(),
            vs == nodes_view(ns@),
            vs.len() == ns@.len(),
            nodes_view(out@) + rm_named_spec(vs, i as int, name@) == rm_named_spec(vs, 0, name@),
        decreases ns@.len() - i,
    {
        let ghost out0 = out@;
        proof {
            assert(vs[i as int] == ns@[i as int].view());
        }
        match &ns[i] {
            Node::Element(e) => {
                proof {
                    lemma_node_element_view(*e);
                }
                if string_eq_str(&e.name, name) {
                } else {
                    proof {
                        assert(decreases_to!(ns@ => ns@[i as int]->Element_0.children@));
                    }
                    let ch = remove_elems_by_name(&e.children, name);
                    let e2 = Element {
                        name: e.name.clone(),
                        attributes: attrs_clone(&e.attributes),
                        children: ch,
                    };
                    proof {
                        lemma_node_element_view(e2);
                    }
                    out.push(Node::Element(e2));
                    proof {
                        lemma_nodes_view_snoc(out@);
                        assert(out@.drop_last() =~= out0);
                        assert(nodes_view(out@) + rm_named_spec(vs, i + 1, name@)
                            =~~= rm_named_spec(vs, 0, name@));
                    }
                }
            },
            _ => {
                let c = clone_node(&ns[i]);
                let ghost cv = c.view();
                out.push(c);
                proof {
                    lemma_nodes_view_snoc(out@);
                    assert(out@.drop_last() =~= out0);
                    assert(nodes_view(out@) + rm_named_spec(vs, i + 1, name@) =~~= rm_named_spec(
                        vs,
                        0,
                        name@,
                    ));
                }
            },
        }
        i = i + 1;
    }
    proof {
        assert(nodes_view(out@) =~= rm_named_spec(vs, 0, name@));
    }
    out
}

/// The description-removal pass.
pub struct RemoveDesc;

impl RemoveDesc {
    /// Removes every `desc` element in the document.
    pub fn run(doc: &mut Document)
        ensures
            final(doc).view() == rm_named_spec(old(doc).view(), 0, "desc"@),
    {
        let out = remove_elems_by_name(&doc.root, "desc");
        doc.root = out;
    }
}

impl Plugin for RemoveDesc {
    fn apply(&self, doc: &mut Document) {
        RemoveDesc::run(doc);
    }
}

} // verus!
