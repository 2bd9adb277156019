//! Merges adjacent `path` siblings that agree on every attribute except
//! `d`: the second path's data is appended to the first's, and the
//! second element goes away. Deeper levels merge first.

use vstd::prelude::*;
use crate::plugins::Plugin;
use crate::strutil::string_eq_str;
use crate::tree::{
    attr_entries, attrs_clone, attrs_entries_vec, attrs_get, attrs_insert, clone_node,
    entries_have_key, entries_insert, entries_value_of, lemma_node_element_view,
    lemma_nodes_view_snoc, nodes_view, Document, Element, Node, VElement, VNode,
};

verus! {

/// Attribute agreement for merging: equal counts, and every entry of
/// the first (except `d`) present in the second with the same value.
pub open spec fn attrs_match(a: Seq<(Seq<char>, Seq<char>)>, b: Seq<(Seq<char>, Seq<char>)>) -> bool {
    a.len() == b.len() && forall|i: int|
        0 <= i < a.len() && (#[trigger] a[i]).0 != "d"@ ==> entries_have_key(b, a[i].0)
            && entries_value_of(b, a[i].0) == a[i].1
}

/// Can `b` merge into `a`?
pub open spec fn mergeable(a: VNode, b: VNode) -> bool {
    match (a, b) {
        (VNode::Element(e1), VNode::Element(e2)) => e1.name == "path"@ && e2.name == "path"@
            && attrs_match(e1.attrs, e2.attrs),
        _ => false,
    }
}

/// `b` merged into `a`: when `a` carries path data, `b`'s data (or
/// nothing) is appended behind a space; without a `d` on `a`, `b` is
/// simply dropped.
pub open spec fn merged(a: VNode, b: VNode) -> VNode {
    let e1 = a->Element_0;
    let e2 = b->Element_0;
    if entries_have_key(e1.attrs, "d"@) {
        let d2 = if entries_have_key(e2.attrs, "d"@) {
            entries_value_of(e2.attrs, "d"@)
        } else {
            Seq::empty()
        };
        VNode::Element(
            VElement {
                name: e1.name,
                attrs: entries_insert(
                    e1.attrs,
                    "d"@,
                    entries_value_of(e1.attrs, "d"@) + seq![' '] + d2,
                ),
                children: e1.children,
            },
        )
    } else {
        a
    }
}

/// The merge fold over a sibling list: each node either merges into the
/// accumulated last node or is appended.
pub open spec fn mp_fold(ns: Seq<VNode>, k: int, acc: Seq<VNode>) -> Seq<VNode>
    decreases ns.len() - k,
{
    if k < 0 || k >= ns.len() {
        acc
    } else if acc.len() > 0 && mergeable(acc.last(), ns[k]) {
        mp_fold(ns, k + 1, acc.update(acc.len() - 1, merged(acc.last(), ns[k])))
    } else {
        mp_fold(ns, k + 1, acc.push(ns[k]))
    }
}

/// Stage one: children merge first.
pub open spec fn mp_rec(ns: Seq<VNode>, k: int) -> Seq<VNode>
    decreases ns, 0int, ns.len() - k,
{
    if k < 0 || k >= ns.len() {
        Seq::empty()
    } else {
        let rest = mp_rec(ns, k + 1);
        match ns[k] {
            VNode::Element(e) => seq![
                VNode::Element(
                    VElement { name: e.name, attrs: e.attrs, children: mp_all(e.children) },
                ),
            ] + rest,
            _ => seq![ns[k]] + rest,
        }
    }
}

/// A sibling list after path merging: children first, then the fold.
pub open spec fn mp_all(ns: Seq<VNode>) -> Seq<VNode>
    decreases ns, 1int, 0int,
{
    mp_fold(mp_rec(ns, 0), 0, Seq::empty())
}

/// Attribute agreement, executable: exactly `attrs_match`.
pub fn are_attrs_equal(e1: &Element, e2: &Element) -> (r: bool)
    ensures
        r == attrs_match(attr_entries(e1.attributes), attr_entries(e2.attributes)),
{
    let ghost a = attr_entries(e1.attributes);
    let ghost b = attr_entries(e2.attributes);
    let ea = attrs_entries_vec(&e1.attributes);
    let eb = attrs_entries_vec(&e2.attributes);
    if ea.len() != eb.len() {
        return false;
    }
    let mut i: usize = 0;
    while i < ea.len()
        invariant
            i <= ea@.len(),
            a == attr_entries(e1.attributes),
            b == attr_entries(e2.attributes),
            ea@.len() == a.len(),
            a.len() == b.len(),
            forall|q: int|
                0 <= q < ea@.len() ==> (#[trigger] ea@[q].0@, ea@[q].1@) == a[q],
            forall|q: int|
                0 <= q < i && (#[trigger] a[q]).0 != "d"@ ==> entries_have_key(b, a[q].0)
                    && entries_value_of(b, a[q].0) == a[q].1,
        decreases ea@.len() - i,
    {
        proof {
            assert((ea@[i as int].0@, ea@[i as int].1@) == a[i as int]);
        }
        if !string_eq_str(&ea[i].0, "d") {
            match attrs_get(&e2.attributes, ea[i].0.as_str()) {
                Some(v2) => {
                    if !v2.eq(&ea[i].1) {
                        proof {
                            assert(entries_value_of(b, a[i as int].0) != a[i as int].1);
                        }
                        return false;
                    }
                },
                None => {
                    return false;
                },
            }
        }
        i = i + 1;
    }
    true
}

/// Stage one, executable: merge children, keep this level intact.
fn mp_rec_nodes(ns: &Vec<Node>) -> (r: Vec<Node>)
    ensures
        nodes_view(r@) == mp_rec(nodes_view(ns@), 0),
    decreases ns@, 0int,
{
    let ghost vs = nodes_view(ns@);
    let mut out: Vec<Node> = Vec::new();
    let mut i: usize = 0;
    while i < ns.len()
        invariant
            i <= ns@.len(),
            vs == nodes_view(ns@),
            vs.len() == ns@.len(),
            nodes_view(out@) + mp_rec(vs, i as int) == mp_rec(vs, 0),
        decreases ns@.len() - i,
    {
        let ghost out0 = out@;
        proof {
            assert(vs[i as int] == ns@[i as int].view());
        }
        match &ns[i] {
            Node::Element(e) => {
                proof {
                    lemma_node_element_view(*e);
                    assert(decreases_to!(ns@ => ns@[i as int]->Element_0.children@));
                }
                let ch = mp_all_nodes(&e.children);
                let e2 = Element {
                    name: e.name.clone(),
                    attributes: attrs_clone(&e.attributes),
                    children: ch,
                };
                proof {
                    lemma_node_element_view(e2);
                }
                out.push(Node::Element(e2));
                proof {
                    lemma_nodes_view_snoc(out@);
                    assert(out@.drop_last() =~= out0);
                    assert(nodes_view(out@) + mp_rec(vs, i + 1) =~~= mp_rec(vs, 0));
                }
            },
            _ => {
                let c = clone_node(&ns[i]);
                let ghost cv = c.view();
                out.push(c);
                proof {
                    lemma_nodes_view_snoc(out@);
                    assert(out@.drop_last() =~= out0);
                    assert(nodes_view(out@) + mp_rec(vs, i + 1) =~~= mp_rec(vs, 0));
                }
            },
        }
        i = i + 1;
    }
    proof {
        assert(nodes_view(out@) =~= mp_rec(vs, 0));
    }
    out
}

/// Full merging of a sibling list, executable: exactly `mp_all`.
fn mp_all_nodes(ns: &Vec<Node>) -> (r: Vec<Node>)
    ensures
        nodes_view(r@) == mp_all(nodes_view(ns@)),
    decreases ns@, 1int,
{
    let built = mp_rec_nodes(ns);
    let ghost bs = nodes_view(built@);
    let mut out: Vec<Node> = Vec::new();
    proof {
        assert(nodes_view(out@) =~= Seq::<VNode>::empty());
    }
    let mut k: usize = 0;
    while k < built.len()
        invariant
            k <= built@.len(),
            bs == nodes_view(built@),
            bs.len() == built@.len(),
            mp_fold(bs, k as int, nodes_view(out@)) == mp_fold(bs, 0, Seq::empty()),
        decreases built@.len() - k,
    {
        let ghost out0 = out@;
        proof {
            assert(bs[k as int] == built@[k as int].view());
        }
        let mut do_merge = false;
        if out.len() > 0 {
            match (&out[out.len() - 1], &built[k]) {
                (Node::Element(e1), Node::Element(e2)) => {
                    if string_eq_str(&e1.name, "path") && string_eq_str(&e2.name, "path") {
                        if are_attrs_equal(e1, e2) {
                            do_merge = true;
                        }
                    }
                    proof {
                        lemma_node_element_view(*e1);
                        lemma_node_element_view(*e2);
                    }
                },
                _ => {},
            }
        }
        proof {
            if out@.len() > 0 {
                assert(nodes_view(out@).last() == out@[out@.len() - 1].view());
            }
            assert(do_merge == (nodes_view(out@).len() > 0 && mergeable(
                nodes_view(out@).last(),
                bs[k as int],
            )));
        }
        if do_merge {
            let d2: String = match &built[k] {
                Node::Element(e2) => {
                    match attrs_get(&e2.attributes, "d") {
                        Some(d) => d,
                        None => String::new(),
                    }
                },
                _ => String::new(),
            };
            let last = out.pop().unwrap();
            match last {
                Node::Element(e1) => {
                    proof {
                        lemma_node_element_view(e1);
                    }
                    let ghost e1v = e1.view();
                    let mut am = e1.attributes;
                    match attrs_get(&am, "d") {
                        Some(d1) => {
                            let mut nd = d1;
                            nd.append(" ");
                            nd.append(d2.as_str());
                            attrs_insert(&mut am, "d".to_owned(), nd);
                        },
                        None => {},
                    }
                    let e1n = Element { name: e1.name, attributes: am, children: e1.children };
                    proof {
                        lemma_node_element_view(e1n);
                        assert(" "@ =~= seq![' ']) by {
                            reveal_strlit(" ");
                        };
                        assert(VNode::Element(e1n.view()) =~~= merged(
                            nodes_view(out0).last(),
                            bs[k as int],
                        ));
                    }
                    out.push(Node::Element(e1n));
                    proof {
                        lemma_nodes_view_snoc(out@);
                        assert(out@.drop_last() =~= out0.drop_last());
                        assert(nodes_view(out@) =~~= nodes_view(out0).update(
                            nodes_view(out0).len() - 1,
                            merged(nodes_view(out0).last(), bs[k as int]),
                        ));
                    }
                },
                _ => {
                    proof {
                        assert(false);
                    }
                    out.push(last);
                },
            }
        } else {
            let c = clone_node(&built[k]);
            let ghost cv = c.view();
            out.push(c);
            proof {
                lemma_nodes_view_snoc(out@);
                assert(out@.drop_last() =~= out0);
                assert(nodes_view(out@) =~= nodes_view(out0).push(bs[k as int]));
            }
        }
        k = k + 1;
    }
    proof {
        assert(nodes_view(out@) =~= mp_fold(bs, 0, Seq::empty()));
    }
    out
}

/// The path-merging pass.
pub struct MergePaths;

impl MergePaths {
    /// Merges adjacent compatible paths everywhere in the document.
    pub fn run(doc: &mut Document)
        ensures
            final(doc).view() == mp_all(old(doc).view()),
    {
        let out = mp_all_nodes(&doc.root);
        doc.root = out;
    }
}

impl Plugin for MergePaths {
    fn apply(&self, doc: &mut Document) {
        MergePaths::run(doc);
    }
}

} // verus!
