//! Normalizes whitespace inside attribute values: newlines and tabs
//! become spaces, runs of whitespace collapse to one space, and leading
//! and trailing whitespace goes away.

use vstd::prelude::*;
use crate::plugins::collections::{is_ws, is_ws_c};
use crate::plugins::convert_style_to_attrs::{trim, trim_x};
use crate::plugins::Plugin;
use crate::strutil::{chars_to_string, str_to_chars};
use crate::tree::{
    attr_entries, attrs_entries_vec, attrs_insert, attrs_new, clone_node, entries_insert,
    lemma_node_element_view, lemma_nodes_view_snoc, nodes_view, Document, Element, Node, VElement,
    VNode,
};

verus! {

/// Whitespace mapped to spaces, runs collapsed to the run's last space.
pub open spec fn squeeze_ws(s: Seq<char>, i: int) -> Seq<char>
    decreases s.len() - i,
{
    if i < 0 || i >= s.len() {
        Seq::empty()
    } else if is_ws(s[i]) && i + 1 < s.len() && is_ws(s[i + 1]) {
        squeeze_ws(s, i + 1)
    } else if is_ws(s[i]) {
        seq![' '] + squeeze_ws(s, i + 1)
    } else {
        seq![s[i]] + squeeze_ws(s, i + 1)
    }
}

/// One cleaned attribute value.
pub open spec fn clean_value(s: Seq<char>) -> Seq<char> {
    trim(squeeze_ws(s, 0))
}

/// Cleans one value's text, executable: exactly `clean_value`.
fn clean_value_x(s: &String) -> (r: String)
    ensures
        r@ == clean_value(s@),
{
    let v = str_to_chars(s.as_str());
    let mut out: Vec<char> = Vec::new();
    let mut i: usize = 0;
    while i < v.len()
        invariant
            i <= v@.len(),
            v@ == s@,
            out@ + squeeze_ws(v@, i as int) == squeeze_ws(v@, 0),
        decreases v@.len() - i,
    {
        let c = v[i];
        let cw = is_ws_c(c);
        let mut nextw = false;
        if i + 1 < v.len() {
            nextw = is_ws_c(v[i + 1]);
        }
        if cw && nextw {
        } else if cw {
            out.push(' ');
            proof {
                assert(out@ + squeeze_ws(v@, i + 1) =~= squeeze_ws(v@, 0));
            }
        } else {
            out.push(c);
            proof {
                assert(out@ + squeeze_ws(v@, i + 1) =~= squeeze_ws(v@, 0));
            }
        }
        i = i + 1;
    }
    proof {
        assert(out@ =~= squeeze_ws(v@, 0));
    }
    let t = trim_x(out);
    chars_to_string(&t)
}

/// The attribute list rebuilt with cleaned values, inserting entries in
/// their stored order.
pub open spec fn clean_attrs(
    attrs: Seq<(Seq<char>, Seq<char>)>,
    j: int,
    acc: Seq<(Seq<char>, Seq<char>)>,
) -> Seq<(Seq<char>, Seq<char>)>
    decreases attrs.len() - j,
{
    if j < 0 || j >= attrs.len() {
        acc
    } else {
        clean_attrs(attrs, j + 1, entries_insert(acc, attrs[j].0, clean_value(attrs[j].1)))
    }
}

/// The tree with every attribute value cleaned, from position `k` on.
pub open spec fn clean_ws_spec(ns: Seq<VNode>, k: int) -> Seq<VNode>
    decreases ns, ns.len() - k,
{
    if k < 0 || k >= ns.len() {
        Seq::empty()
    } else {
        let rest = clean_ws_spec(ns, k + 1);
        match ns[k] {
            VNode::Element(e) => seq![
                VNode::Element(
                    VElement {
                        name: e.name,
                        attrs: clean_attrs(e.attrs, 0, Seq::empty()),
                        children: clean_ws_spec(e.children, 0),
                    },
                ),
            ] + rest,
            _ => seq![ns[k]] + rest,
        }
    }
}

/// Rebuilds a node list with attribute whitespace cleaned: exactly
/// `clean_ws_spec`.
fn clean_ws_nodes(ns: &Vec<Node>) -> (r: Vec<Node>)
    ensures
        nodes_view(r@) == clean_ws_spec(nodes_view(ns@), 0),
    decreases ns@,
{
    let ghost vs = nodes_view(ns@);
    let mut out: Vec<Node> = Vec::new();
    let mut i: usize = 0;
    while i < ns.len()
        invariant
            i <= ns@.len(),
            vs == nodes_view(ns@),
            vs.len() == ns@.len(),
            nodes_view(out@) + clean_ws_spec(vs, i as int) == clean_ws_spec(vs, 0),
        decreases ns@.len() - i,
    {
        let ghost out0 = out@;
        proof {
            assert(vs[i as int] == ns@[i as int].view());
        }
        match &ns[i] {
            Node::Element(e) => {
                proof {
                    lemma_node_element_view(*e);
                    assert(decreases_to!(ns@ => ns@[i as int]->Element_0.children@));
                }
                let ch = clean_ws_nodes(&e.children);
                let entries = attrs_entries_vec(&e.attributes);
                let mut am = attrs_new();
                let ghost src = attr_entries(e.attributes);
                let mut j: usize = 0;
                while j < entries.len()
                    invariant
                        j <= entries@.len(),
                        src == attr_entries(e.attributes),
                        entries@.len() == src.len(),
                        forall|q: int|
                            0 <= q < entries@.len() ==> (#[trigger] entries@[q].0@,
                            entries@[q].1@) == src[q],
                        clean_attrs(src, j as int, attr_entries(am)) == clean_attrs(
                            src,
                            0,
                            Seq::empty(),
                        ),
                    decreases entries@.len() - j,
                {
                    proof {
                        assert((entries@[j as int].0@, entries@[j as int].1@) == src[j as int]);
                    }
                    let cv = clean_value_x(&entries[j].1);
                    attrs_insert(&mut am, entries[j].0.clone(), cv);
                    j = j + 1;
                }
                let e2 = Element { name: e.name.clone(), attributes: am, children: ch };
                proof {
                    lemma_node_element_view(e2);
                }
                out.push(Node::Element(e2));
                proof {
                    lemma_nodes_view_snoc(out@);
                    assert(out@.drop_last() =~= out0);
                    assert(nodes_view(out@) + clean_ws_spec(vs, i + 1) =~~= clean_ws_spec(vs, 0));
                }
            },
            _ => {
                let c = clone_node(&ns[i]);
                let ghost cv = c.view();
                out.push(c);
                proof {
                    lemma_nodes_view_snoc(out@);
                    assert(out@.drop_last() =~= out0);
                    assert(nodes_view(out@) + clean_ws_spec(vs, i + 1) =~~= clean_ws_spec(vs, 0));
                }
            },
        }
        i = i + 1;
    }
    proof {
        assert(nodes_view(out@) =~= clean_ws_spec(vs, 0));
    }
    out
}

/// The attribute-whitespace-cleanup pass.
pub struct CleanupAttrs;

impl CleanupAttrs {
    /// Cleans every attribute value in the document.
    pub fn run(doc: &mut Document)
        ensures
            final(doc).view() == clean_ws_spec(old(doc).view(), 0),
    {
        let out = clean_ws_nodes(&doc.root);
        doc.root = out;
    }
}

impl Plugin for CleanupAttrs {
    fn apply(&self, doc: &mut Document) {
        CleanupAttrs::run(doc);
    }
}

} // verus!
