//! Replaces references to single-stop gradients by the stop's flat
//! color (a stopless gradient counts as `none`), in `fill` and `stroke`
//! values of the whole `url(#id)` form.

use vstd::prelude::*;
use crate::plugins::Plugin;
use crate::strutil::{chars_sub, chars_to_string, str_to_chars, string_eq_str};
use crate::tree::{
    attrs_clone, attrs_get, attrs_insert, clone_node, entries_have_key, entries_insert,
    entries_value_of, lemma_node_element_view, lemma_nodes_view_snoc, nodes_view, Document,
    Element, Node, VElement, VNode,
};

verus! {

/// How many `stop` element children a child list holds, from `j` on.
pub open spec fn count_stops(ns: Seq<VNode>, j: int) -> int
    decreases ns.len() - j,
{
    if j < 0 || j >= ns.len() {
        0
    } else {
        (match ns[j] {
            VNode::Element(e) => if e.name == "stop"@ {
                1int
            } else {
                0int
            },
            _ => 0int,
        }) + count_stops(ns, j + 1)
    }
}

/// The `stop-color` of the first `stop` child, when there is one.
pub open spec fn first_stop_color(ns: Seq<VNode>, j: int) -> Option<Seq<char>>
    decreases ns.len() - j,
{
    if j < 0 || j >= ns.len() {
        None
    } else {
        match ns[j] {
            VNode::Element(e) => if e.name == "stop"@ {
                if entries_have_key(e.attrs, "stop-color"@) {
                    Some(entries_value_of(e.attrs, "stop-color"@))
                } else {
                    None
                }
            } else {
                first_stop_color(ns, j + 1)
            },
            _ => first_stop_color(ns, j + 1),
        }
    }
}

/// The replacement entry one gradient element contributes, if any.
pub open spec fn grad_entry(e: VElement) -> Seq<(Seq<char>, Seq<char>)> {
    if (e.name == "linearGradient"@ || e.name == "radialGradient"@) && entries_have_key(
        e.attrs,
        "id"@,
    ) {
        let id = entries_value_of(e.attrs, "id"@);
        let n = count_stops(e.children, 0);
        if n == 1 {
            match first_stop_color(e.children, 0) {
                Some(c) => seq![(id, c)],
                None => Seq::empty(),
            }
        } else if n == 0 {
            seq![(id, "none"@)]
        } else {
            Seq::empty()
        }
    } else {
        Seq::empty()
    }
}

/// All replacement entries of one subtree, element first, then its
/// children.
pub open spec fn grad_node(n: VNode) -> Seq<(Seq<char>, Seq<char>)>
    decreases n, 0int,
{
    match n {
        VNode::Element(e) => grad_entry(e) + grad_nodes(e.children, 0),
        _ => Seq::empty(),
    }
}

/// All replacement entries of a node list, from `j` on.
pub open spec fn grad_nodes(ns: Seq<VNode>, j: int) -> Seq<(Seq<char>, Seq<char>)>
    decreases ns, ns.len() - j,
{
    if j < 0 || j >= ns.len() {
        Seq::empty()
    } else {
        grad_node(ns[j]) + grad_nodes(ns, j + 1)
    }
}

/// The last entry for key `k` among the first `j` entries (later
/// gatherings overwrite earlier ones).
pub open spec fn lookup_last(tbl: Seq<(Seq<char>, Seq<char>)>, k: Seq<char>, j: int) -> Option<
    Seq<char>,
>
    decreases j,
{
    if j <= 0 || j > tbl.len() {
        None
    } else if tbl[j - 1].0 == k {
        Some(tbl[j - 1].1)
    } else {
        lookup_last(tbl, k, j - 1)
    }
}

/// Is this value a whole `url(#id)` reference? (At least one character
/// of id is not required; the form alone decides.)
pub open spec fn whole_url(v: Seq<char>) -> bool {
    v.len() >= 6 && v.subrange(0, 5) == "url(#"@ && v.last() == ')'
}

/// The id inside a whole `url(#id)` value.
pub open spec fn url_id(v: Seq<char>) -> Seq<char> {
    v.subrange(5, v.len() - 1)
}

/// One attribute value after replacement.
pub open spec fn replace_value(v: Seq<char>, tbl: Seq<(Seq<char>, Seq<char>)>) -> Seq<char> {
    if whole_url(v) {
        match lookup_last(tbl, url_id(v), tbl.len() as int) {
            Some(c) => c,
            None => v,
        }
    } else {
        v
    }
}

/// An element's attributes with `fill` and `stroke` replaced.
pub open spec fn replace_attrs(attrs: Seq<(Seq<char>, Seq<char>)>, tbl: Seq<(Seq<char>, Seq<char>)>) -> Seq<(Seq<char>, Seq<char>)> {
    let a1 = if entries_have_key(attrs, "fill"@) && whole_url(entries_value_of(attrs, "fill"@))
        && lookup_last(tbl, url_id(entries_value_of(attrs, "fill"@)), tbl.len() as int) is Some {
        entries_insert(attrs, "fill"@, replace_value(entries_value_of(attrs, "fill"@), tbl))
    } else {
        attrs
    };
    if entries_have_key(a1, "stroke"@) && whole_url(entries_value_of(a1, "stroke"@)) && lookup_last(
        tbl,
        url_id(entries_value_of(a1, "stroke"@)),
        tbl.len() as int,
    ) is Some {
        entries_insert(a1, "stroke"@, replace_value(entries_value_of(a1, "stroke"@), tbl))
    } else {
        a1
    }
}

/// The tree after replacement, from position `k` on.
pub open spec fn replace_spec(ns: Seq<VNode>, k: int, tbl: Seq<(Seq<char>, Seq<char>)>) -> Seq<
    VNode,
>
    decreases ns, ns.len() - k,
{
    if k < 0 || k >= ns.len() {
        Seq::empty()
    } else {
        let rest = replace_spec(ns, k + 1, tbl);
        match ns[k] {
            VNode::Element(e) => seq![
                VNode::Element(
                    VElement {
                        name: e.name,
                        attrs: replace_attrs(e.attrs, tbl),
                        children: replace_spec(e.children, 0, tbl),
                    },
                ),
            ] + rest,
            _ => seq![ns[k]] + rest,
        }
    }
}

/// The whole pass at the specification level: gather, then replace (a
/// document with no single-stop gradient stays unchanged except that
/// the gathering is still empty).
pub open spec fn one_stop_spec(ns: Seq<VNode>) -> Seq<VNode> {
    let tbl = grad_nodes(ns, 0);
    if tbl.len() == 0 {
        ns
    } else {
        replace_spec(ns, 0, tbl)
    }
}

/// Gathers the replacement table from one subtree, executable.
fn gather_gradients(node: &Node, tbl: &mut Vec<(String, String)>)
    ensures
        crate::plugins::sort_attrs::entry_pairs_view(final(tbl)@)
            == crate::plugins::sort_attrs::entry_pairs_view(old(tbl)@) + grad_node(node.view()),
    decreases node,
{
    let ghost pv = crate::plugins::sort_attrs::entry_pairs_view(tbl@);
    match node {
        Node::Element(e) => {
            proof {
                lemma_node_element_view(*e);
            }
            let ghost ev = node.view()->Element_0;
            let is_grad = string_eq_str(&e.name, "linearGradient") || string_eq_str(
                &e.name,
                "radialGradient",
            );
            if is_grad {
                match attrs_get(&e.attributes, "id") {
                    Some(id) => {
                        let mut stop_count: u64 = 0;
                        let mut stop_color: Option<String> = None;
                        let mut q: usize = 0;
                        while q < e.children.len()
                            invariant
                                *node == Node::Element(*e),
                                ev == node.view()->Element_0,
                                q <= e.children@.len(),
                                ev.children.len() == e.children@.len(),
                                forall|r: int|
                                    0 <= r < e.children@.len() ==> ev.children[r] == (
                                    #[trigger] e.children@[r]).view(),
                                stop_count <= q,
                                stop_count as int + count_stops(ev.children, q as int)
                                    == count_stops(ev.children, 0),
                                stop_count == 0 ==> stop_color is None && first_stop_color(
                                    ev.children,
                                    q as int,
                                ) == first_stop_color(ev.children, 0),
                                stop_count > 0 ==> (match stop_color {
                                    Some(c) => Some(c@),
                                    None => None,
                                }) == first_stop_color(ev.children, 0),
                            decreases e.children@.len() - q,
                        {
                            match &e.children[q] {
                                Node::Element(ce) => {
                                    proof {
                                        lemma_node_element_view(*ce);
                                    }
                                    if string_eq_str(&ce.name, "stop") {
                                        if stop_count == 0 {
                                            stop_color = attrs_get(&ce.attributes, "stop-color");
                                        }
                                        stop_count = stop_count + 1;
                                    }
                                },
                                _ => {},
                            }
                            q = q + 1;
                        }
                        let ghost g0 = crate::plugins::sort_attrs::entry_pairs_view(tbl@);
                        if stop_count == 1 {
                            match stop_color {
                                Some(c) => {
                                    tbl.push((id, c));
                                    proof {
                                        assert(crate::plugins::sort_attrs::entry_pairs_view(tbl@)
                                            =~= g0 + grad_entry(ev));
                                    }
                                },
                                None => {
                                    proof {
                                        assert(crate::plugins::sort_attrs::entry_pairs_view(tbl@)
                                            =~= g0 + grad_entry(ev));
                                    }
                                },
                            }
                        } else if stop_count == 0 {
                            tbl.push((id, "none".to_owned()));
                            proof {
                                assert(crate::plugins::sort_attrs::entry_pairs_view(tbl@) =~= g0
                                    + grad_entry(ev));
                            }
                        } else {
                            proof {
                                assert(crate::plugins::sort_attrs::entry_pairs_view(tbl@) =~= g0
                                    + grad_entry(ev));
                            }
                        }
                    },
                    None => {
                        proof {
                            assert(crate::plugins::sort_attrs::entry_pairs_view(tbl@) =~= pv
                                + grad_entry(ev));
                        }
                    },
                }
            } else {
                proof {
                    assert(crate::plugins::sort_attrs::entry_pairs_view(tbl@) =~= pv + grad_entry(
                        ev,
                    ));
                }
            }
            let ghost mid = crate::plugins::sort_attrs::entry_pairs_view(tbl@);
            proof {
                assert(mid == pv + grad_entry(ev));
            }
            let mut q: usize = 0;
            while q < e.children.len()
                invariant
                    *node == Node::Element(*e),
                    ev == node.view()->Element_0,
                    q <= e.children@.len(),
                    ev.children.len() == e.children@.len(),
                    forall|r: int|
                        0 <= r < e.children@.len() ==> ev.children[r] == (
                        #[trigger] e.children@[r]).view(),
                    crate::plugins::sort_attrs::entry_pairs_view(tbl@) + grad_nodes(
                        ev.children,
                        q as int,
                    ) == mid + grad_nodes(ev.children, 0),
                decreases e.children@.len() - q,
            {
                proof {
                    assert(decreases_to!(*node => node->Element_0.children@[q as int]));
                }
                gather_gradients(&e.children[q], tbl);
                proof {
                    assert(crate::plugins::sort_attrs::entry_pairs_view(tbl@) + grad_nodes(
                        ev.children,
                        q + 1,
                    ) =~= mid + grad_nodes(ev.children, 0));
                }
                q = q + 1;
            }
            proof {
                assert(crate::plugins::sort_attrs::entry_pairs_view(tbl@) =~= pv + grad_node(
                    node.view(),
                ));
            }
        },
        _ => {
            proof {
                assert(crate::plugins::sort_attrs::entry_pairs_view(tbl@) =~= pv + grad_node(
                    node.view(),
                ));
            }
        },
    }
}

/// Looks the id up in the table (last entry wins), executable.
fn lookup_last_x(tbl: &Vec<(String, String)>, k: &str) -> (r: Option<String>)
    ensures
        ({
            let tv = crate::plugins::sort_attrs::entry_pairs_view(tbl@);
            match r {
                Some(c) => lookup_last(tv, k@, tv.len() as int) == Some(c@),
                None => lookup_last(tv, k@, tv.len() as int) is None,
            }
        }),
{
    let ghost tv = crate::plugins::sort_attrs::entry_pairs_view(tbl@);
    let mut j: usize = tbl.len();
    while j > 0
        invariant
            j <= tbl@.len(),
            tv == crate::plugins::sort_attrs::entry_pairs_view(tbl@),
            tv.len() == tbl@.len(),
            lookup_last(tv, k@, j as int) == lookup_last(tv, k@, tv.len() as int),
        decreases j,
    {
        proof {
            assert((tbl@[j - 1].0@, tbl@[j - 1].1@) == tv[j - 1]);
        }
        if crate::strutil::str_eq(tbl[j - 1].0.as_str(), k) {
            return Some(tbl[j - 1].1.clone());
        }
        j = j - 1;
    }
    None
}

/// Extracts the id of a whole `url(#id)` value, executable.
fn whole_url_x(v: &String) -> (r: Option<String>)
    ensures
        match r {
            Some(id) => whole_url(v@) && id@ == url_id(v@),
            None => !whole_url(v@),
        },
{
    let cs = str_to_chars(v.as_str());
    if cs.len() >= 6 {
        let c0 = cs[0];
        let c1 = cs[1];
        let c2 = cs[2];
        let c3 = cs[3];
        let c4 = cs[4];
        let cl = cs[cs.len() - 1];
        if c0 == 'u' && c1 == 'r' && c2 == 'l' && c3 == '(' && c4 == '#' && cl == ')' {
            proof {
                assert(v@.subrange(0, 5) =~= "url(#"@) by {
                    reveal_strlit("url(#");
                };
            }
            let id = chars_sub(&cs, 5, cs.len() - 1);
            Some(chars_to_string(&id))
        } else {
            proof {
                if whole_url(v@) {
                    reveal_strlit("url(#");
                    assert(v@.subrange(0, 5)[0] == v@[0]);
                    assert(v@.subrange(0, 5)[1] == v@[1]);
                    assert(v@.subrange(0, 5)[2] == v@[2]);
                    assert(v@.subrange(0, 5)[3] == v@[3]);
                    assert(v@.subrange(0, 5)[4] == v@[4]);
                    assert(false);
                }
            }
            None
        }
    } else {
        None
    }
}

/// Replaces one paint attribute in a map when it is a known reference.
fn replace_paint(am: &mut indexmap::IndexMap<String, String>, key: &str, tbl: &Vec<
    (String, String),
>)
    ensures
        ({
            let tv = crate::plugins::sort_attrs::entry_pairs_view(tbl@);
            let a = crate::tree::attr_entries(*old(am));
            crate::tree::attr_entries(*final(am)) == (if entries_have_key(a, key@) && whole_url(
                entries_value_of(a, key@),
            ) && lookup_last(tv, url_id(entries_value_of(a, key@)), tv.len() as int) is Some {
                entries_insert(a, key@, replace_value(entries_value_of(a, key@), tv))
            } else {
                a
            })
        }),
{
    match attrs_get(am, key) {
        Some(v) => {
            match whole_url_x(&v) {
                Some(id) => {
                    match lookup_last_x(tbl, id.as_str()) {
                        Some(color) => {
                            attrs_insert(am, key.to_owned(), color);
                        },
                        None => {},
                    }
                },
                None => {},
            }
        },
        None => {},
    }
}

/// Rebuilds a node list with gradient references replaced: exactly
/// `replace_spec`.
fn replace_nodes(ns: &Vec<Node>, tbl: &Vec<(String, String)>) -> (r: Vec<Node>)
    ensures
        nodes_view(r@) == replace_spec(
            nodes_view(ns@),
            0,
            crate::plugins::sort_attrs::entry_pairs_view(tbl@),
        ),
    decreases ns@,
{
    let ghost vs = nodes_view(ns@);
    let ghost tv = crate::plugins::sort_attrs::entry_pairs_view(tbl@);
    let mut out: Vec<Node> = Vec::new();
    let mut i: usize = 0;
    while i < ns.len()
        invariant
            i <= ns@.len(),
            vs == nodes_view(ns@),
            tv == crate::plugins::sort_attrs::entry_pairs_view(tbl@),
            vs.len() == ns@.len(),
            nodes_view(out@) + replace_spec(vs, i as int, tv) == replace_spec(vs, 0, tv),
        decreases ns@.len() - i,
    {
        let ghost out0 = out@;
        proof {
            assert(vs[i as int] == ns@[i as int].view());
        }
        match &ns[i] {
            Node::Element(e) => {
                proof {
                    lemma_node_element_view(*e);
                    assert(decreases_to!(ns@ => ns@[i as int]->Element_0.children@));
                }
                let ch = replace_nodes(&e.children, tbl);
                let mut am = attrs_clone(&e.attributes);
                replace_paint(&mut am, "fill", tbl);
                replace_paint(&mut am, "stroke", tbl);
                let e2 = Element { name: e.name.clone(), attributes: am, children: ch };
                proof {
                    lemma_node_element_view(e2);
                }
                out.push(Node::Element(e2));
                proof {
                    lemma_nodes_view_snoc(out@);
                    assert(out@.drop_last() =~= out0);
                    assert(nodes_view(out@) + replace_spec(vs, i + 1, tv) =~~= replace_spec(
                        vs,
                        0,
                        tv,
                    ));
                }
            },
            _ => {
                let c = clone_node(&ns[i]);
                let ghost cv = c.view();
                out.push(c);
                proof {
                    lemma_nodes_view_snoc(out@);
                    assert(out@.drop_last() =~= out0);
                    assert(nodes_view(out@) + replace_spec(vs, i + 1, tv) =~~= replace_spec(
                        vs,
                        0,
                        tv,
                    ));
                }
            },
        }
        i = i + 1;
    }
    proof {
        assert(nodes_view(out@) =~= replace_spec(vs, 0, tv));
    }
    out
}

/// The one-stop-gradient pass.
pub struct ConvertOneStopGradients;

impl ConvertOneStopGradients {
    /// Replaces references to single-stop gradients by flat color.
    pub fn run(doc: &mut Document)
        ensures
            final(doc).view() == one_stop_spec(old(doc).view()),
    {
        let mut tbl: Vec<(String, String)> = Vec::new();
        let ghost vs = doc.view();
        proof {
            assert(crate::plugins::sort_attrs::entry_pairs_view(tbl@) =~= Seq::<
                (Seq<char>, Seq<char>),
            >::empty());
        }
        let mut i: usize = 0;
        while i < doc.root.len()
            invariant
                i <= doc.root@.len(),
                vs == doc.view(),
                vs.len() == doc.root@.len(),
                crate::plugins::sort_attrs::entry_pairs_view(tbl@) + grad_nodes(vs, i as int)
                    == grad_nodes(vs, 0),
            decreases doc.root@.len() - i,
        {
            proof {
                assert(vs[i as int] == doc.root@[i as int].view());
            }
            gather_gradients(&doc.root[i], &mut tbl);
            proof {
                assert(crate::plugins::sort_attrs::entry_pairs_view(tbl@) + grad_nodes(vs, i + 1)
                    =~= grad_nodes(vs, 0));
            }
            i = i + 1;
        }
        proof {
            assert(crate::plugins::sort_attrs::entry_pairs_view(tbl@) =~= grad_nodes(vs, 0));
        }
        if tbl.len() > 0 {
            let out = replace_nodes(&doc.root, &tbl);
            doc.root = out;
        }
    }
}

impl Plugin for ConvertOneStopGradients {
    fn apply(&self, doc: &mut Document) {
        ConvertOneStopGradients::run(doc);
    }
}

} // verus!
