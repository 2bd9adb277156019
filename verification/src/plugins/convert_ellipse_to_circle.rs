//! Converts an `ellipse` whose two radii are written identically into a
//! `circle` with a single radius.

use vstd::prelude::*;
use crate::plugins::Plugin;
use crate::strutil::string_eq_str;
use crate::tree::{
    attrs_clone, attrs_get, attrs_insert, attrs_shift_remove, clone_node, entries_have_key,
    entries_insert, entries_remove_key, entries_value_of, lemma_node_element_view,
    lemma_nodes_view_snoc, nodes_view, Document, Element, Node, VElement, VNode,
};

verus! {

/// Whether an element converts: named `ellipse`, with `rx` and `ry`
/// present and textually equal.
pub open spec fn ellipse_converts(e: VElement) -> bool {
    e.name == "ellipse"@ && entries_have_key(e.attrs, "rx"@) && entries_have_key(e.attrs, "ry"@)
        && entries_value_of(e.attrs, "rx"@) == entries_value_of(e.attrs, "ry"@)
}

/// The converted element: renamed `circle`, radii replaced by `r`.
pub open spec fn ellipse_convert(e: VElement) -> VElement {
    VElement {
        name: "circle"@,
        attrs: entries_insert(
            entries_remove_key(entries_remove_key(e.attrs, "rx"@), "ry"@),
            "r"@,
            entries_value_of(e.attrs, "rx"@),
        ),
        children: e.children,
    }
}

/// The tree after ellipse conversion, from position `k` on.
pub open spec fn conv_ell_spec(ns: Seq<VNode>, k: int) -> Seq<VNode>
    decreases ns, ns.len() - k,
{
    if k < 0 || k >= ns.len() {
        Seq::empty()
    } else {
        let rest = conv_ell_spec(ns, k + 1);
        match ns[k] {
            VNode::Element(e) => {
                let e1 = if ellipse_converts(e) {
                    ellipse_convert(e)
                } else {
                    e
                };
                seq![
                    VNode::Element(
                        VElement {
                            name: e1.name,
                            attrs: e1.attrs,
                            children: conv_ell_spec(e1.children, 0),
                        },
                    ),
                ] + rest
            },
            _ => seq![ns[k]] + rest,
        }
    }
}

/// Rebuilds a node list with ellipses converted: exactly
/// `conv_ell_spec`.
fn conv_ell_nodes(ns: &Vec<Node>) -> (r: Vec<Node>)
    ensures
        nodes_view(r@) == conv_ell_spec(nodes_view(ns@), 0),
    decreases ns@,
{
    let ghost vs = nodes_view(ns@);
    let mut out: Vec<Node> = Vec::new();
    let mut i: usize = 0;
    while i < ns.len()
        invariant
            i <= ns@.len(),
            vs == nodes_view(ns@),
            vs.len() == ns@.len(),
            nodes_view(out@) + conv_ell_spec(vs, i as int) == conv_ell_spec(vs, 0),
        decreases ns@.len() - i,
    {
        let ghost out0 = out@;
        proof {
            assert(vs[i as int] == ns@[i as int].view());
        }
        match &ns[i] {
            Node::Element(e) => {
                proof {
                    lemma_node_element_view(*e);
                    assert(decreases_to!(ns@ => ns@[i as int]->Element_0.children@));
                }
                let ch = conv_ell_nodes(&e.children);
                let mut name = e.name.clone();
                let mut am = attrs_clone(&e.attributes);
                if string_eq_str(&e.name, "ellipse") {
                    let rx = attrs_get(&am, "rx");
                    let ry = attrs_get(&am, "ry");
                    match (rx, ry) {
                        (Some(rxv), Some(ryv)) => {
                            if rxv.eq(&ryv) {
                                name = "circle".to_owned();
                                attrs_shift_remove(&mut am, "rx");
                                attrs_shift_remove(&mut am, "ry");
                                attrs_insert(&mut am, "r".to_owned(), rxv);
                            }
                        },
                        _ => {},
                    }
                }
                let e2 = Element { name, attributes: am, children: ch };
                proof {
                    lemma_node_element_view(e2);
                }
                out.push(Node::Element(e2));
                proof {
                    lemma_nodes_view_snoc(out@);
                    assert(out@.drop_last() =~= out0);
                    assert(nodes_view(out@) + conv_ell_spec(vs, i + 1) =~~= conv_ell_spec(vs, 0));
                }
            },
            _ => {
                let c = clone_node(&ns[i]);
                let ghost cv = c.view();
                out.push(c);
                proof {
                    lemma_nodes_view_snoc(out@);
                    assert(out@.drop_last() =~= out0);
                    assert(nodes_view(out@) + conv_ell_spec(vs, i + 1) =~~= conv_ell_spec(vs, 0));
                }
            },
        }
        i = i + 1;
    }
    proof {
        assert(nodes_view(out@) =~= conv_ell_spec(vs, 0));
    }
    out
}

/// The ellipse-to-circle pass.
pub struct ConvertEllipseToCircle;

impl ConvertEllipseToCircle {
    /// Converts equal-radius ellipses to circles.
    pub fn run(doc: &mut Document)
        ensures
            final(doc).view() == conv_ell_spec(old(doc).view(), 0),
    {
        let out = conv_ell_nodes(&doc.root);
        doc.root = out;
    }
}

impl Plugin for ConvertEllipseToCircle {
    fn apply(&self, doc: &mut Document) {
        ConvertEllipseToCircle::run(doc);
    }
}

} // verus!
