//! Sorts the children of every `defs` element by tag name (non-elements
//! sort as the empty name).

use vstd::prelude::*;
use crate::plugins::sort_attrs::{lex_le, lex_le_x};
use crate::plugins::Plugin;
use crate::strutil::string_eq_str;
use crate::tree::{
    attrs_clone, clone_node, lemma_node_element_view, lemma_nodes_view_snoc, nodes_view, Document,
    Element, Node, VElement, VNode,
};

verus! {

/// The sort key of a node: its element name, or nothing.
pub open spec fn sort_key(n: VNode) -> Seq<char> {
    match n {
        VNode::Element(e) => e.name,
        _ => Seq::empty(),
    }
}

/// Where a node with key `k` goes in a key-sorted list.
pub open spec fn node_insert_pos(s: Seq<VNode>, k: Seq<char>, j: int) -> int
    decreases s.len() - j,
{
    if j < 0 || j >= s.len() {
        s.len() as int
    } else if lex_le(sort_key(s[j]), k) {
        node_insert_pos(s, k, j + 1)
    } else {
        j
    }
}

/// The nodes, insertion-sorted by name.
pub open spec fn sort_nodes(ns: Seq<VNode>, j: int, acc: Seq<VNode>) -> Seq<VNode>
    decreases ns.len() - j,
{
    if j < 0 || j >= ns.len() {
        acc
    } else {
        sort_nodes(ns, j + 1, acc.insert(node_insert_pos(acc, sort_key(ns[j]), 0), ns[j]))
    }
}

/// The tree with every `defs`'s children sorted, from position `k` on;
/// subtrees are processed first (the sort key, an element name, is not
/// changed by that).
pub open spec fn sort_defs_spec(ns: Seq<VNode>, k: int) -> Seq<VNode>
    decreases ns, ns.len() - k,
{
    if k < 0 || k >= ns.len() {
        Seq::empty()
    } else {
        let rest = sort_defs_spec(ns, k + 1);
        match ns[k] {
            VNode::Element(e) => {
                let ch = sort_defs_spec(e.children, 0);
                let ch2 = if e.name == "defs"@ {
                    sort_nodes(ch, 0, Seq::empty())
                } else {
                    ch
                };
                seq![VNode::Element(VElement { name: e.name, attrs: e.attrs, children: ch2 })]
                    + rest
            },
            _ => seq![ns[k]] + rest,
        }
    }
}

/// The sort key of a node, executable.
fn node_key(n: &Node) -> (r: String)
    ensures
        r@ == sort_key(n.view()),
{
    match n {
        Node::Element(e) => e.name.clone(),
        _ => String::new(),
    }
}

/// Insertion-sorts a node list by name, executable: exactly
/// `sort_nodes`.
fn sort_nodes_x(ns: Vec<Node>) -> (r: Vec<Node>)
    ensures
        nodes_view(r@) == sort_nodes(nodes_view(ns@), 0, Seq::empty()),
{
    let ghost vs = nodes_view(ns@);
    let mut out: Vec<Node> = Vec::new();
    proof {
        assert(nodes_view(out@) =~= Seq::<VNode>::empty());
    }
    let mut j: usize = 0;
    while j < ns.len()
        invariant
            j <= ns@.len(),
            vs == nodes_view(ns@),
            vs.len() == ns@.len(),
            sort_nodes(vs, j as int, nodes_view(out@)) == sort_nodes(vs, 0, Seq::empty()),
        decreases ns@.len() - j,
    {
        let ghost acc = nodes_view(out@);
        proof {
            assert(vs[j as int] == ns@[j as int].view());
        }
        let key = node_key(&ns[j]);
        let mut pos: usize = 0;
        let mut searching = true;
        while searching
            invariant
                searching ==> pos <= out@.len(),
                !searching ==> pos as int == node_insert_pos(acc, sort_key(vs[j as int]), 0),
                pos <= out@.len(),
                acc == nodes_view(out@),
                acc.len() == out@.len(),
                vs == nodes_view(ns@),
                j < ns@.len(),
                key@ == sort_key(vs[j as int]),
                searching ==> node_insert_pos(acc, sort_key(vs[j as int]), pos as int)
                    == node_insert_pos(acc, sort_key(vs[j as int]), 0),
            decreases out@.len() - pos + (if searching {
                1int
            } else {
                0int
            }),
        {
            if pos < out.len() {
                let pk = node_key(&out[pos]);
                proof {
                    assert(acc[pos as int] == out@[pos as int].view());
                }
                if lex_le_x(pk.as_str(), key.as_str()) {
                    pos = pos + 1;
                } else {
                    searching = false;
                }
            } else {
                searching = false;
            }
        }
        let c = clone_node(&ns[j]);
        out.insert(pos, c);
        proof {
            assert(nodes_view(out@) =~= acc.insert(
                node_insert_pos(acc, sort_key(vs[j as int]), 0),
                vs[j as int],
            ));
        }
        j = j + 1;
    }
    out
}

/// Rebuilds a node list with defs children sorted: exactly
/// `sort_defs_spec`.
fn sort_defs_nodes(ns: &Vec<Node>) -> (r: Vec<Node>)
    ensures
        nodes_view(r@) == sort_defs_spec(nodes_view(ns@), 0),
    decreases ns@,
{
    let ghost vs = nodes_view(ns@);
    let mut out: Vec<Node> = Vec::new();
    let mut i: usize = 0;
    while i < ns.len()
        invariant
            i <= ns@.len(),
            vs == nodes_view(ns@),
            vs.len() == ns@.len(),
            nodes_view(out@) + sort_defs_spec(vs, i as int) == sort_defs_spec(vs, 0),
        decreases ns@.len() - i,
    {
        let ghost out0 = out@;
        proof {
            assert(vs[i as int] == ns@[i as int].view());
        }
        match &ns[i] {
            Node::Element(e) => {
                proof {
                    lemma_node_element_view(*e);
                    assert(decreases_to!(ns@ => ns@[i as int]->Element_0.children@));
                }
                let ch = sort_defs_nodes(&e.children);
                let ch2 = if string_eq_str(&e.name, "defs") {
                    sort_nodes_x(ch)
                } else {
                    ch
                };
                let e2 = Element {
                    name: e.name.clone(),
                    attributes: attrs_clone(&e.attributes),
                    children: ch2,
                };
                proof {
                    lemma_node_element_view(e2);
                }
                out.push(Node::Element(e2));
                proof {
                    lemma_nodes_view_snoc(out@);
                    assert(out@.drop_last() =~= out0);
                    assert(nodes_view(out@) + sort_defs_spec(vs, i + 1) =~~= sort_defs_spec(
                        vs,
                        0,
                    ));
                }
            },
            _ => {
                let c = clone_node(&ns[i]);
                let ghost cv = c.view();
                out.push(c);
                proof {
                    lemma_nodes_view_snoc(out@);
                    assert(out@.drop_last() =~= out0);
                    assert(nodes_view(out@) + sort_defs_spec(vs, i + 1) =~~= sort_defs_spec(
                        vs,
                        0,
                    ));
                }
            },
        }
        i = i + 1;
    }
    proof {
        assert(nodes_view(out@) =~= sort_defs_spec(vs, 0));
    }
    out
}

/// The defs-children-sorting pass.
pub struct SortDefsChildren;

impl SortDefsChildren {
    /// Sorts the children of every `defs` by tag name.
    pub fn run(doc: &mut Document)
        ensures
            final(doc).view() == sort_defs_spec(old(doc).view(), 0),
    {
        let out = sort_defs_nodes(&doc.root);
        doc.root = out;
    }
}

impl Plugin for SortDefsChildren {
    fn apply(&self, doc: &mut Document) {
        SortDefsChildren::run(doc);
    }
}

} // verus!
