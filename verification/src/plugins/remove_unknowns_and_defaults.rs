//! Removes attributes whose value is a known default (for instance
//! `x="0"` or `stroke-width="1"`), including a hand-picked list of unit
//! spellings of the same value (`0px`, `1px`). The default table is a
//! configurable list, not a general unit algebra.

use vstd::prelude::*;
use crate::plugins::Plugin;
use crate::strutil::str_eq;
use crate::tree::{
    attr_entries, attrs_entries_vec, attrs_insert, attrs_new, clone_node, entries_insert,
    lemma_node_element_view, lemma_nodes_view_snoc, nodes_view, Document, Element, Node, VElement,
    VNode,
};

verus! {

/// The views of a table of string pairs.
pub open spec fn pairs_view(ps: Seq<(String, String)>) -> Seq<(Seq<char>, Seq<char>)> {
    Seq::new(ps.len(), |k: int| (ps[k].0@, ps[k].1@))
}

/// The default value bound to key `k` in the table (first match).
pub open spec fn tbl_lookup(tbl: Seq<(Seq<char>, Seq<char>)>, k: Seq<char>, j: int) -> Option<
    Seq<char>,
>
    decreases tbl.len() - j,
{
    if j < 0 || j >= tbl.len() {
        None
    } else if tbl[j].0 == k {
        Some(tbl[j].1)
    } else {
        tbl_lookup(tbl, k, j + 1)
    }
}

/// Is `(k, v)` a default pairing under the table, counting the listed
/// unit spellings of zero and one?
pub open spec fn is_default(tbl: Seq<(Seq<char>, Seq<char>)>, k: Seq<char>, v: Seq<char>) -> bool {
    match tbl_lookup(tbl, k, 0) {
        Some(def) => v == def || (def == "0"@ && (v == "0px"@ || v == "0pt"@ || v == "0em"@)) || (
        def == "1"@ && v == "1px"@),
        None => false,
    }
}

/// The attribute list rebuilt without default entries.
pub open spec fn drop_defaults(
    attrs: Seq<(Seq<char>, Seq<char>)>,
    tbl: Seq<(Seq<char>, Seq<char>)>,
    j: int,
    acc: Seq<(Seq<char>, Seq<char>)>,
) -> Seq<(Seq<char>, Seq<char>)>
    decreases attrs.len() - j,
{
    if j < 0 || j >= attrs.len() {
        acc
    } else if is_default(tbl, attrs[j].0, attrs[j].1) {
        drop_defaults(attrs, tbl, j + 1, acc)
    } else {
        drop_defaults(attrs, tbl, j + 1, entries_insert(acc, attrs[j].0, attrs[j].1))
    }
}

/// The tree after default removal, from position `k` on.
pub open spec fn rm_defaults_spec(ns: Seq<VNode>, k: int, tbl: Seq<(Seq<char>, Seq<char>)>) -> Seq<
    VNode,
>
    decreases ns, ns.len() - k,
{
    if k < 0 || k >= ns.len() {
        Seq::empty()
    } else {
        let rest = rm_defaults_spec(ns, k + 1, tbl);
        match ns[k] {
            VNode::Element(e) => seq![
                VNode::Element(
                    VElement {
                        name: e.name,
                        attrs: drop_defaults(e.attrs, tbl, 0, Seq::empty()),
                        children: rm_defaults_spec(e.children, 0, tbl),
                    },
                ),
            ] + rest,
            _ => seq![ns[k]] + rest,
        }
    }
}

/// Looks a key up in the table, executable.
fn tbl_lookup_x(tbl: &Vec<(String, String)>, k: &str) -> (r: Option<String>)
    ensures
        match r {
            Some(v) => tbl_lookup(pairs_view(tbl@), k@, 0) == Some(v@),
            None => tbl_lookup(pairs_view(tbl@), k@, 0) is None,
        },
{
    let mut j: usize = 0;
    while j < tbl.len()
        invariant
            j <= tbl@.len(),
            tbl_lookup(pairs_view(tbl@), k@, j as int) == tbl_lookup(pairs_view(tbl@), k@, 0),
        decreases tbl@.len() - j,
    {
        if str_eq(tbl[j].0.as_str(), k) {
            proof {
                assert(pairs_view(tbl@)[j as int].0 == k@);
            }
            return Some(tbl[j].1.clone());
        }
        proof {
            assert(pairs_view(tbl@)[j as int].0 != k@);
        }
        j = j + 1;
    }
    None
}

/// Is this entry a default, executable.
fn is_default_x(tbl: &Vec<(String, String)>, k: &String, v: &String) -> (r: bool)
    ensures
        r == is_default(pairs_view(tbl@), k@, v@),
{
    match tbl_lookup_x(tbl, k.as_str()) {
        Some(def) => str_eq(v.as_str(), def.as_str()) || (str_eq(def.as_str(), "0") && (str_eq(
            v.as_str(),
            "0px",
        ) || str_eq(v.as_str(), "0pt") || str_eq(v.as_str(), "0em"))) || (str_eq(def.as_str(), "1")
            && str_eq(v.as_str(), "1px")),
        None => false,
    }
}

/// The default-removal pass, with its table of default attribute
/// values.
pub struct RemoveUnknownsAndDefaults {
    pub default_attrs: Vec<(String, String)>,
}

/// The fixed default table this pass ships with.
pub open spec fn default_table() -> Seq<(Seq<char>, Seq<char>)> {
    seq![
        ("cx"@, "0"@),
        ("cy"@, "0"@),
        ("x"@, "0"@),
        ("y"@, "0"@),
        ("r"@, "0"@),
        ("rx"@, "0"@),
        ("ry"@, "0"@),
        ("rotate"@, "0"@),
        ("scale"@, "1"@),
        ("stroke-width"@, "1"@),
        ("stroke-opacity"@, "1"@),
        ("fill-opacity"@, "1"@),
        ("stop-opacity"@, "1"@),
        ("letter-spacing"@, "normal"@),
        ("word-spacing"@, "normal"@),
    ]
}

impl Default for RemoveUnknownsAndDefaults {
    /// The common geometry, paint and text defaults.
    fn default() -> (r: Self)
        ensures
            pairs_view(r.default_attrs@) == default_table(),
    {
        let mut t: Vec<(String, String)> = Vec::new();
        t.push(("cx".to_owned(), "0".to_owned()));
        t.push(("cy".to_owned(), "0".to_owned()));
        t.push(("x".to_owned(), "0".to_owned()));
        t.push(("y".to_owned(), "0".to_owned()));
        t.push(("r".to_owned(), "0".to_owned()));
        t.push(("rx".to_owned(), "0".to_owned()));
        t.push(("ry".to_owned(), "0".to_owned()));
        t.push(("rotate".to_owned(), "0".to_owned()));
        t.push(("scale".to_owned(), "1".to_owned()));
        t.push(("stroke-width".to_owned(), "1".to_owned()));
        t.push(("stroke-opacity".to_owned(), "1".to_owned()));
        t.push(("fill-opacity".to_owned(), "1".to_owned()));
        t.push(("stop-opacity".to_owned(), "1".to_owned()));
        t.push(("letter-spacing".to_owned(), "normal".to_owned()));
        t.push(("word-spacing".to_owned(), "normal".to_owned()));
        let r = RemoveUnknownsAndDefaults { default_attrs: t };
        proof {
            assert(pairs_view(r.default_attrs@) =~= default_table());
        }
        r
    }
}

/// Rebuilds a node list without default attributes: exactly
/// `rm_defaults_spec`.
fn rm_defaults_nodes(ns: &Vec<Node>, tbl: &Vec<(String, String)>) -> (r: Vec<Node>)
    ensures
        nodes_view(r@) == rm_defaults_spec(nodes_view(ns@), 0, pairs_view(tbl@)),
    decreases ns@,
{
    let ghost vs = nodes_view(ns@);
    let ghost tv = pairs_view(tbl@);
    let mut out: Vec<Node> = Vec::new();
    let mut i: usize = 0;
    while i < ns.len()
        invariant
            i <= ns@.len(),
            vs == nodes_view(ns@),
            tv == pairs_view(tbl@),
            vs.len() == ns@.len(),
            nodes_view(out@) + rm_defaults_spec(vs, i as int, tv) == rm_defaults_spec(vs, 0, tv),
        decreases ns@.len() - i,
    {
        let ghost out0 = out@;
        proof {
            assert(vs[i as int] == ns@[i as int].view());
        }
        match &ns[i] {
            Node::Element(e) => {
                proof {
                    lemma_node_element_view(*e);
                    assert(decreases_to!(ns@ => ns@[i as int]->Element_0.children@));
                }
                let ch = rm_defaults_nodes(&e.children, tbl);
                let entries = attrs_entries_vec(&e.attributes);
                let mut am = attrs_new();
                let ghost src = attr_entries(e.attributes);
                let mut j: usize = 0;
                while j < entries.len()
                    invariant
                        j <= entries@.len(),
                        tv == pairs_view(tbl@),
                        src == attr_entries(e.attributes),
                        entries@.len() == src.len(),
                        forall|q: int|
                            0 <= q < entries@.len() ==> (#[trigger] entries@[q].0@,
                            entries@[q].1@) == src[q],
                        drop_defaults(src, tv, j as int, attr_entries(am)) == drop_defaults(
                            src,
                            tv,
                            0,
                            Seq::empty(),
                        ),
                    decreases entries@.len() - j,
                {
                    proof {
                        assert((entries@[j as int].0@, entries@[j as int].1@) == src[j as int]);
                    }
                    if !is_default_x(tbl, &entries[j].0, &entries[j].1) {
                        attrs_insert(&mut am, entries[j].0.clone(), entries[j].1.clone());
                    }
                    j = j + 1;
                }
                let e2 = Element { name: e.name.clone(), attributes: am, children: ch };
                proof {
                    lemma_node_element_view(e2);
                }
                out.push(Node::Element(e2));
                proof {
                    lemma_nodes_view_snoc(out@);
                    assert(out@.drop_last() =~= out0);
                    assert(nodes_view(out@) + rm_defaults_spec(vs, i + 1, tv)
                        =~~= rm_defaults_spec(vs, 0, tv));
                }
            },
            _ => {
                let c = clone_node(&ns[i]);
                let ghost cv = c.view();
                out.push(c);
                proof {
                    lemma_nodes_view_snoc(out@);
                    assert(out@.drop_last() =~= out0);
                    assert(nodes_view(out@) + rm_defaults_spec(vs, i + 1, tv)
                        =~~= rm_defaults_spec(vs, 0, tv));
                }
            },
        }
        i = i + 1;
    }
    proof {
        assert(nodes_view(out@) =~= rm_defaults_spec(vs, 0, tv));
    }
    out
}

impl RemoveUnknownsAndDefaults {
    /// Removes default-valued attributes against this instance's table.
    pub fn run(&self, doc: &mut Document)
        ensures
            final(doc).view() == rm_defaults_spec(
                old(doc).view(),
                0,
                pairs_view(self.default_attrs@),
            ),
    {
        let out = rm_defaults_nodes(&doc.root, &self.default_attrs);
        doc.root = out;
    }
}

impl Plugin for RemoveUnknownsAndDefaults {
    fn apply(&self, doc: &mut Document) {
        self.run(doc);
    }
}

} // verus!
