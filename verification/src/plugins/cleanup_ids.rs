//! Unused-id stripping: drops the `id` attribute from any element whose
//! id is not referenced anywhere in the document. The element itself
//! stays. The live-id set is recomputed from the tree at each run.

use vstd::prelude::*;
use crate::plugins::collections::{collect_live_ids, live_ids};
use crate::plugins::Plugin;
use crate::tree::{
    attrs_clone, attrs_shift_remove, clone_node, entries_have_key, entries_remove_key,
    entries_value_of, lemma_node_element_view, lemma_nodes_view_snoc, nodes_view, strs_view,
    Document, Element, Node, VElement, VNode,
};

verus! {

/// The attribute list of one element after id stripping: the `id` entry
/// goes when its value is not live.
pub open spec fn strip_id_attrs(
    attrs: Seq<(Seq<char>, Seq<char>)>,
    live: Seq<Seq<char>>,
) -> Seq<(Seq<char>, Seq<char>)> {
    if entries_have_key(attrs, "id"@) && !live.contains(entries_value_of(attrs, "id"@)) {
        entries_remove_key(attrs, "id"@)
    } else {
        attrs
    }
}

/// The tree after unused-id stripping, from position `k` on.
pub open spec fn strip_ids_spec(ns: Seq<VNode>, k: int, live: Seq<Seq<char>>) -> Seq<VNode>
    decreases ns, ns.len() - k,
{
    if k < 0 || k >= ns.len() {
        Seq::empty()
    } else {
        let rest = strip_ids_spec(ns, k + 1, live);
        match ns[k] {
            VNode::Element(e) => seq![
                VNode::Element(
                    VElement {
                        name: e.name,
                        attrs: strip_id_attrs(e.attrs, live),
                        children: strip_ids_spec(e.children, 0, live),
                    },
                ),
            ] + rest,
            _ => seq![ns[k]] + rest,
        }
    }
}

/// Rebuilds a node list with unused ids stripped: exactly
/// `strip_ids_spec`.
fn strip_ids_nodes(ns: &Vec<Node>, live: &Vec<String>) -> (r: Vec<Node>)
    ensures
        nodes_view(r@) == strip_ids_spec(nodes_view(ns@), 0, strs_view(live@)),
    decreases ns@,
{
    let ghost vs = nodes_view(ns@);
    let ghost lv = strs_view(live@);
    let mut out: Vec<Node> = Vec::new();
    let mut i: usize = 0;
    while i < ns.len()
        invariant
            i <= ns@.len(),
            vs == nodes_view(ns@),
            lv == strs_view(live@),
            vs.len() == ns@.len(),
            nodes_view(out@) + strip_ids_spec(vs, i as int, lv) == strip_ids_spec(vs, 0, lv),
        decreases ns@.len() - i,
    {
        let ghost out0 = out@;
        proof {
            assert(vs[i as int] == ns@[i as int].view());
        }
        match &ns[i] {
            Node::Element(e) => {
                proof {
                    lemma_node_element_view(*e);
                    assert(decreases_to!(ns@ => ns@[i as int]->Element_0.children@));
                }
                let ch = strip_ids_nodes(&e.children, live);
                let mut am = attrs_clone(&e.attributes);
                let idv = crate::tree::attrs_get(&am, "id");
                match idv {
                    Some(v) => {
                        if !crate::tree::strs_contain(live, v.as_str()) {
                            attrs_shift_remove(&mut am, "id");
                        }
                    },
                    None => {},
                }
                let e2 = Element { name: e.name.clone(), attributes: am, children: ch };
                proof {
                    lemma_node_element_view(e2);
                }
                out.push(Node::Element(e2));
                proof {
                    lemma_nodes_view_snoc(out@);
                    assert(out@.drop_last() =~= out0);
                    assert(nodes_view(out@) + strip_ids_spec(vs, i + 1, lv) =~~= strip_ids_spec(
                        vs,
                        0,
                        lv,
                    ));
                }
            },
            _ => {
                let c = clone_node(&ns[i]);
                let ghost cv = c.view();
                out.push(c);
                proof {
                    lemma_nodes_view_snoc(out@);
                    assert(out@.drop_last() =~= out0);
                    assert(nodes_view(out@) + strip_ids_spec(vs, i + 1, lv) =~~= strip_ids_spec(
                        vs,
                        0,
                        lv,
                    ));
                }
            },
        }
        i = i + 1;
    }
    proof {
        assert(nodes_view(out@) =~= strip_ids_spec(vs, 0, lv));
    }
    out
}

/// The unused-id-stripping pass.
pub struct CleanupIds;

impl CleanupIds {
    /// Strips every id that nothing references, against a liveness
    /// snapshot taken before any mutation.
    pub fn run(doc: &mut Document)
        ensures
            final(doc).view() == strip_ids_spec(
                old(doc).view(),
                0,
                live_ids(old(doc).view()),
            ),
    {
        let used = collect_live_ids(&doc.root);
        let out = strip_ids_nodes(&doc.root, &used);
        doc.root = out;
    }
}

impl Plugin for CleanupIds {
    fn apply(&self, doc: &mut Document) {
        CleanupIds::run(doc);
    }
}

} // verus!
