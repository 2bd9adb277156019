//! Sorts every element's attributes by key, in the keys' character
//! order.

use vstd::prelude::*;
use crate::plugins::Plugin;
use crate::tree::{
    attr_entries, attrs_entries_vec, attrs_insert, attrs_new, clone_node, entries_insert,
    lemma_node_element_view, lemma_nodes_view_snoc, nodes_view, Document, Element, Node, VElement,
    VNode,
};

verus! {

/// Character-order comparison of two texts from position `i` on.
pub open spec fn lex_le_from(a: Seq<char>, b: Seq<char>, i: int) -> bool
    decreases a.len() - i,
{
    if i < 0 || i >= a.len() {
        true
    } else if i >= b.len() {
        false
    } else if (a[i] as u32) < (b[i] as u32) {
        true
    } else if (a[i] as u32) > (b[i] as u32) {
        false
    } else {
        lex_le_from(a, b, i + 1)
    }
}

/// Is `a` at or before `b` in character order?
pub open spec fn lex_le(a: Seq<char>, b: Seq<char>) -> bool {
    lex_le_from(a, b, 0)
}

/// Character-order comparison, executable.
pub fn lex_le_x(a: &str, b: &str) -> (r: bool)
    ensures
        r == lex_le(a@, b@),
{
    let na = a.unicode_len();
    let nb = b.unicode_len();
    let mut i: usize = 0;
    loop
        invariant
            i <= na,
            na == a@.len(),
            nb == b@.len(),
            lex_le_from(a@, b@, i as int) == lex_le(a@, b@),
        decreases na - i,
    {
        if i >= na {
            return true;
        }
        if i >= nb {
            return false;
        }
        let ca = a.get_char(i) as u32;
        let cb = b.get_char(i) as u32;
        if ca < cb {
            return true;
        }
        if ca > cb {
            return false;
        }
        i = i + 1;
    }
}

/// The position where an entry with key `k` goes in a key-sorted list:
/// after every key at or before it.
pub open spec fn insert_pos(s: Seq<(Seq<char>, Seq<char>)>, k: Seq<char>, j: int) -> int
    decreases s.len() - j,
{
    if j < 0 || j >= s.len() {
        s.len() as int
    } else if lex_le(s[j].0, k) {
        insert_pos(s, k, j + 1)
    } else {
        j
    }
}

/// The entries, insertion-sorted by key.
pub open spec fn sort_entries(entries: Seq<(Seq<char>, Seq<char>)>, j: int, acc: Seq<(Seq<char>, Seq<char>)>) -> Seq<(Seq<char>, Seq<char>)>
    decreases entries.len() - j,
{
    if j < 0 || j >= entries.len() {
        acc
    } else {
        sort_entries(entries, j + 1, acc.insert(insert_pos(acc, entries[j].0, 0), entries[j]))
    }
}

/// An attribute list rebuilt in sorted entry order.
pub open spec fn reinsert(entries: Seq<(Seq<char>, Seq<char>)>, j: int, acc: Seq<(Seq<char>, Seq<char>)>) -> Seq<(Seq<char>, Seq<char>)>
    decreases entries.len() - j,
{
    if j < 0 || j >= entries.len() {
        acc
    } else {
        reinsert(entries, j + 1, entries_insert(acc, entries[j].0, entries[j].1))
    }
}

/// The tree with attributes sorted, from position `k` on.
pub open spec fn sort_attrs_spec(ns: Seq<VNode>, k: int) -> Seq<VNode>
    decreases ns, ns.len() - k,
{
    if k < 0 || k >= ns.len() {
        Seq::empty()
    } else {
        let rest = sort_attrs_spec(ns, k + 1);
        match ns[k] {
            VNode::Element(e) => seq![
                VNode::Element(
                    VElement {
                        name: e.name,
                        attrs: reinsert(sort_entries(e.attrs, 0, Seq::empty()), 0, Seq::empty()),
                        children: sort_attrs_spec(e.children, 0),
                    },
                ),
            ] + rest,
            _ => seq![ns[k]] + rest,
        }
    }
}

/// The views of a vector of entry pairs.
pub open spec fn entry_pairs_view(ps: Seq<(String, String)>) -> Seq<(Seq<char>, Seq<char>)> {
    Seq::new(ps.len(), |k: int| (ps[k].0@, ps[k].1@))
}

/// Sorts an entry vector by key, executable: exactly `sort_entries`.
fn sort_entries_x(entries: Vec<(String, String)>) -> (r: Vec<(String, String)>)
    ensures
        entry_pairs_view(r@) == sort_entries(entry_pairs_view(entries@), 0, Seq::empty()),
{
    let ghost ev = entry_pairs_view(entries@);
    let mut out: Vec<(String, String)> = Vec::new();
    proof {
        assert(entry_pairs_view(out@) =~= Seq::<(Seq<char>, Seq<char>)>::empty());
    }
    let mut j: usize = 0;
    while j < entries.len()
        invariant
            j <= entries@.len(),
            ev == entry_pairs_view(entries@),
            ev.len() == entries@.len(),
            sort_entries(ev, j as int, entry_pairs_view(out@)) == sort_entries(
                ev,
                0,
                Seq::empty(),
            ),
        decreases entries@.len() - j,
    {
        let ghost acc = entry_pairs_view(out@);
        proof {
            assert((entries@[j as int].0@, entries@[j as int].1@) == ev[j as int]);
        }
        let mut pos: usize = 0;
        while pos < out.len() && lex_le_x(out[pos].0.as_str(), entries[j].0.as_str())
            invariant
                pos <= out@.len(),
                acc == entry_pairs_view(out@),
                acc.len() == out@.len(),
                ev == entry_pairs_view(entries@),
                j < entries@.len(),
                insert_pos(acc, ev[j as int].0, pos as int) == insert_pos(acc, ev[j as int].0, 0),
            decreases out@.len() - pos,
        {
            proof {
                assert(acc[pos as int].0 == out@[pos as int].0@);
            }
            pos = pos + 1;
        }
        proof {
            if pos < out@.len() {
                assert(acc[pos as int].0 == out@[pos as int].0@);
            }
            assert(pos == insert_pos(acc, ev[j as int].0, 0));
        }
        let pair = (entries[j].0.clone(), entries[j].1.clone());
        out.insert(pos, pair);
        proof {
            assert(entry_pairs_view(out@) =~= acc.insert(
                insert_pos(acc, ev[j as int].0, 0),
                ev[j as int],
            ));
        }
        j = j + 1;
    }
    out
}

/// Rebuilds a node list with attributes sorted: exactly
/// `sort_attrs_spec`.
fn sort_attrs_nodes(ns: &Vec<Node>) -> (r: Vec<Node>)
    ensures
        nodes_view(r@) == sort_attrs_spec(nodes_view(ns@), 0),
    decreases ns@,
{
    let ghost vs = nodes_view(ns@);
    let mut out: Vec<Node> = Vec::new();
    let mut i: usize = 0;
    while i < ns.len()
        invariant
            i <= ns@.len(),
            vs == nodes_view(ns@),
            vs.len() == ns@.len(),
            nodes_view(out@) + sort_attrs_spec(vs, i as int) == sort_attrs_spec(vs, 0),
        decreases ns@.len() - i,
    {
        let ghost out0 = out@;
        proof {
            assert(vs[i as int] == ns@[i as int].view());
        }
        match &ns[i] {
            Node::Element(e) => {
                proof {
                    lemma_node_element_view(*e);
                    assert(decreases_to!(ns@ => ns@[i as int]->Element_0.children@));
                }
                let ch = sort_attrs_nodes(&e.children);
                let entries = attrs_entries_vec(&e.attributes);
                proof {
                    assert(entry_pairs_view(entries@) =~= attr_entries(e.attributes));
                }
                let sorted = sort_entries_x(entries);
                let mut am = attrs_new();
                let ghost sv = entry_pairs_view(sorted@);
                let mut j: usize = 0;
                while j < sorted.len()
                    invariant
                        j <= sorted@.len(),
                        sv == entry_pairs_view(sorted@),
                        sv.len() == sorted@.len(),
                        reinsert(sv, j as int, attr_entries(am)) == reinsert(sv, 0, Seq::empty()),
                    decreases sorted@.len() - j,
                {
                    proof {
                        assert((sorted@[j as int].0@, sorted@[j as int].1@) == sv[j as int]);
                    }
                    attrs_insert(&mut am, sorted[j].0.clone(), sorted[j].1.clone());
                    j = j + 1;
                }
                let e2 = Element { name: e.name.clone(), attributes: am, children: ch };
                proof {
                    lemma_node_element_view(e2);
                }
                out.push(Node::Element(e2));
                proof {
                    lemma_nodes_view_snoc(out@);
                    assert(out@.drop_last() =~= out0);
                    assert(nodes_view(out@) + sort_attrs_spec(vs, i + 1) =~~= sort_attrs_spec(
                        vs,
                        0,
                    ));
                }
            },
            _ => {
                let c = clone_node(&ns[i]);
                let ghost cv = c.view();
                out.push(c);
                proof {
                    lemma_nodes_view_snoc(out@);
                    assert(out@.drop_last() =~= out0);
                    assert(nodes_view(out@) + sort_attrs_spec(vs, i + 1) =~~= sort_attrs_spec(
                        vs,
                        0,
                    ));
                }
            },
        }
        i = i + 1;
    }
    proof {
        assert(nodes_view(out@) =~= sort_attrs_spec(vs, 0));
    }
    out
}

/// The attribute-sorting pass.
pub struct SortAttrs;

impl SortAttrs {
    /// Sorts every element's attributes by key.
    pub fn run(doc: &mut Document)
        ensures
            final(doc).view() == sort_attrs_spec(old(doc).view(), 0),
    {
        let out = sort_attrs_nodes(&doc.root);
        doc.root = out;
    }
}

impl Plugin for SortAttrs {
    fn apply(&self, doc: &mut Document) {
        SortAttrs::run(doc);
    }
}

} // verus!
