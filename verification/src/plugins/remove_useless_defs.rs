//! Unreferenced-definition removal: inside every `defs` container, only
//! element children whose id is live survive; a `defs` that ends up
//! empty is removed from its parent. Nested containers are pruned leaves
//! first, so emptied ancestors cascade away in a single pass.

use vstd::prelude::*;
use crate::plugins::collections::{collect_live_ids, live_ids};
use crate::plugins::Plugin;
use crate::strutil::string_eq_str;
use crate::tree::{
    attrs_clone, clone_node, entries_have_key, entries_value_of, get_attr,
    lemma_node_element_view, lemma_nodes_view_snoc, nodes_view, strs_view, Document, Element, Node,
    VElement, VNode,
};

verus! {

/// The children of a definition container, filtered: only elements with
/// a live id stay.
pub open spec fn keep_live(ns: Seq<VNode>, j: int, live: Seq<Seq<char>>) -> Seq<VNode>
    decreases ns.len() - j,
{
    if j < 0 || j >= ns.len() {
        Seq::empty()
    } else {
        let rest = keep_live(ns, j + 1, live);
        match ns[j] {
            VNode::Element(e) => if entries_have_key(e.attrs, "id"@) && live.contains(
                entries_value_of(e.attrs, "id"@),
            ) {
                seq![ns[j]] + rest
            } else {
                rest
            },
            _ => rest,
        }
    }
}

/// The tree after unreferenced-definition removal, from position `k` on:
/// children are processed first; a `defs` then keeps only live-id
/// element children; a `defs` left childless disappears.
pub open spec fn rm_defs_spec(ns: Seq<VNode>, k: int, live: Seq<Seq<char>>) -> Seq<VNode>
    decreases ns, ns.len() - k,
{
    if k < 0 || k >= ns.len() {
        Seq::empty()
    } else {
        let rest = rm_defs_spec(ns, k + 1, live);
        match ns[k] {
            VNode::Element(e) => {
                let ch = rm_defs_spec(e.children, 0, live);
                let ch2 = if e.name == "defs"@ {
                    keep_live(ch, 0, live)
                } else {
                    ch
                };
                if e.name == "defs"@ && ch2.len() == 0 {
                    rest
                } else {
                    seq![VNode::Element(VElement { name: e.name, attrs: e.attrs, children: ch2 })]
                        + rest
                }
            },
            _ => seq![ns[k]] + rest,
        }
    }
}

/// Filters a built child list to its live-id elements: exactly
/// `keep_live`.
fn keep_live_nodes(ns: Vec<Node>, live: &Vec<String>) -> (r: Vec<Node>)
    ensures
        nodes_view(r@) == keep_live(nodes_view(ns@), 0, strs_view(live@)),
{
    let ghost vs = nodes_view(ns@);
    let ghost lv = strs_view(live@);
    let mut out: Vec<Node> = Vec::new();
    let mut i: usize = 0;
    while i < ns.len()
        invariant
            i <= ns@.len(),
            vs == nodes_view(ns@),
            lv == strs_view(live@),
            vs.len() == ns@.len(),
            nodes_view(out@) + keep_live(vs, i as int, lv) == keep_live(vs, 0, lv),
        decreases ns@.len() - i,
    {
        let ghost out0 = out@;
        proof {
            assert(vs[i as int] == ns@[i as int].view());
        }
        let keep = match &ns[i] {
            Node::Element(e) => {
                proof {
                    lemma_node_element_view(*e);
                }
                match get_attr(e, "id") {
                    Some(v) => crate::tree::strs_contain(live, v.as_str()),
                    None => false,
                }
            },
            _ => false,
        };
        if keep {
            let c = clone_node(&ns[i]);
            let ghost cv = c.view();
            out.push(c);
            proof {
                lemma_nodes_view_snoc(out@);
                assert(out@.drop_last() =~= out0);
                assert(nodes_view(out@) + keep_live(vs, i + 1, lv) =~~= keep_live(vs, 0, lv));
            }
        }
        i = i + 1;
    }
    proof {
        assert(nodes_view(out@) =~= keep_live(vs, 0, lv));
    }
    out
}

/// Rebuilds a node list with unreferenced definitions removed: exactly
/// `rm_defs_spec`.
fn rm_defs_nodes(ns: &Vec<Node>, live: &Vec<String>) -> (r: Vec<Node>)
    ensures
        nodes_view(r@) == rm_defs_spec(nodes_view(ns@), 0, strs_view(live@)),
    decreases ns@,
{
    let ghost vs = nodes_view(ns@);
    let ghost lv = strs_view(live@);
    let mut out: Vec<Node> = Vec::new();
    let mut i: usize = 0;
    while i < ns.len()
        invariant
            i <= ns@.len(),
            vs == nodes_view(ns@),
            lv == strs_view(live@),
            vs.len() == ns@.len(),
            nodes_view(out@) + rm_defs_spec(vs, i as int, lv) == rm_defs_spec(vs, 0, lv),
        decreases ns@.len() - i,
    {
        let ghost out0 = out@;
        proof {
            assert(vs[i as int] == ns@[i as int].view());
        }
        match &ns[i] {
            Node::Element(e) => {
                proof {
                    lemma_node_element_view(*e);
                    assert(decreases_to!(ns@ => ns@[i as int]->Element_0.children@));
                }
                let ch = rm_defs_nodes(&e.children, live);
                let is_defs = string_eq_str(&e.name, "defs");
                let ch2 = if is_defs {
                    keep_live_nodes(ch, live)
                } else {
                    ch
                };
                if is_defs && ch2.len() == 0 {
                    proof {
                        assert(nodes_view(ch2@) =~= Seq::<VNode>::empty());
                    }
                } else {
                    let e2 = Element {
                        name: e.name.clone(),
                        attributes: attrs_clone(&e.attributes),
                        children: ch2,
                    };
                    proof {
                        lemma_node_element_view(e2);
                    }
                    out.push(Node::Element(e2));
                    proof {
                        lemma_nodes_view_snoc(out@);
                        assert(out@.drop_last() =~= out0);
                        assert(nodes_view(out@) + rm_defs_spec(vs, i + 1, lv) =~~= rm_defs_spec(
                            vs,
                            0,
                            lv,
                        ));
                    }
                }
            },
            _ => {
                let c = clone_node(&ns[i]);
                let ghost cv = c.view();
                out.push(c);
                proof {
                    lemma_nodes_view_snoc(out@);
                    assert(out@.drop_last() =~= out0);
                    assert(nodes_view(out@) + rm_defs_spec(vs, i + 1, lv) =~~= rm_defs_spec(
                        vs,
                        0,
                        lv,
                    ));
                }
            },
        }
        i = i + 1;
    }
    proof {
        assert(nodes_view(out@) =~= rm_defs_spec(vs, 0, lv));
    }
    out
}

/// The unreferenced-definition-removal pass.
pub struct RemoveUselessDefs;

impl RemoveUselessDefs {
    /// Prunes definition containers against a liveness snapshot taken
    /// before any mutation.
    pub fn run(doc: &mut Document)
        ensures
            final(doc).view() == rm_defs_spec(old(doc).view(), 0, live_ids(old(doc).view())),
    {
        let used = collect_live_ids(&doc.root);
        let out = rm_defs_nodes(&doc.root, &used);
        doc.root = out;
    }
}

impl Plugin for RemoveUselessDefs {
    fn apply(&self, doc: &mut Document) {
        RemoveUselessDefs::run(doc);
    }
}

} // verus!
