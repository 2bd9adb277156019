//! Removes `xmlns:prefix` declarations whose prefix no element or
//! attribute name in the document uses.

use vstd::prelude::*;
use crate::plugins::convert_style_to_attrs::{lemma_style_scans, next_colon};
use crate::plugins::Plugin;
use crate::strutil::{chars_sub, chars_to_string, str_to_chars};
use crate::tree::{
    attr_entries, attrs_entries_vec, attrs_insert, attrs_new, clone_node, entries_insert,
    lemma_node_element_view, lemma_nodes_view_snoc, nodes_view, strs_view, Document, Element,
    Node, VElement, VNode,
};

verus! {

/// The namespace prefix of a name: the part before its first `:`, when
/// one is there.
pub open spec fn name_prefix(s: Seq<char>) -> Option<Seq<char>> {
    let c = next_colon(s, 0);
    if c < s.len() {
        Some(s.subrange(0, c))
    } else {
        None
    }
}

/// The prefix as a one-or-zero element sequence.
pub open spec fn prefix_seq(s: Seq<char>) -> Seq<Seq<char>> {
    match name_prefix(s) {
        Some(p) => seq![p],
        None => Seq::empty(),
    }
}

/// The prefixes used by an attribute list from position `j` on.
pub open spec fn attr_prefixes(attrs: Seq<(Seq<char>, Seq<char>)>, j: int) -> Seq<Seq<char>>
    decreases attrs.len() - j,
{
    if j < 0 || j >= attrs.len() {
        Seq::empty()
    } else {
        prefix_seq(attrs[j].0) + attr_prefixes(attrs, j + 1)
    }
}

/// The prefixes used in one node's subtree.
pub open spec fn node_prefixes(n: VNode) -> Seq<Seq<char>>
    decreases n, 0int,
{
    match n {
        VNode::Element(e) => prefix_seq(e.name) + attr_prefixes(e.attrs, 0) + nodes_prefixes(
            e.children,
            0,
        ),
        _ => Seq::empty(),
    }
}

/// The prefixes used in a node list from position `j` on.
pub open spec fn nodes_prefixes(ns: Seq<VNode>, j: int) -> Seq<Seq<char>>
    decreases ns, ns.len() - j,
{
    if j < 0 || j >= ns.len() {
        Seq::empty()
    } else {
        node_prefixes(ns[j]) + nodes_prefixes(ns, j + 1)
    }
}

/// Is this key an `xmlns:` declaration?
pub open spec fn is_xmlns_decl(k: Seq<char>) -> bool {
    k.len() > 6 && k.subrange(0, 6) == "xmlns:"@
}

/// The attribute list without declarations of unused prefixes.
pub open spec fn drop_unused_ns(
    attrs: Seq<(Seq<char>, Seq<char>)>,
    used: Seq<Seq<char>>,
    j: int,
    acc: Seq<(Seq<char>, Seq<char>)>,
) -> Seq<(Seq<char>, Seq<char>)>
    decreases attrs.len() - j,
{
    if j < 0 || j >= attrs.len() {
        acc
    } else if is_xmlns_decl(attrs[j].0) && !used.contains(
        attrs[j].0.subrange(6, attrs[j].0.len() as int),
    ) {
        drop_unused_ns(attrs, used, j + 1, acc)
    } else {
        drop_unused_ns(attrs, used, j + 1, entries_insert(acc, attrs[j].0, attrs[j].1))
    }
}

/// The tree after unused-namespace removal, from position `k` on.
pub open spec fn rm_ns_spec(ns: Seq<VNode>, k: int, used: Seq<Seq<char>>) -> Seq<VNode>
    decreases ns, ns.len() - k,
{
    if k < 0 || k >= ns.len() {
        Seq::empty()
    } else {
        let rest = rm_ns_spec(ns, k + 1, used);
        match ns[k] {
            VNode::Element(e) => seq![
                VNode::Element(
                    VElement {
                        name: e.name,
                        attrs: drop_unused_ns(e.attrs, used, 0, Seq::empty()),
                        children: rm_ns_spec(e.children, 0, used),
                    },
                ),
            ] + rest,
            _ => seq![ns[k]] + rest,
        }
    }
}

/// The namespace prefix of a name, executable.
pub fn name_prefix_x(s: &String) -> (r: Option<String>)
    ensures
        match r {
            Some(p) => name_prefix(s@) == Some(p@),
            None => name_prefix(s@) is None,
        },
{
    let v = str_to_chars(s.as_str());
    let mut c: usize = 0;
    while c < v.len() && v[c] != ':'
        invariant
            c <= v@.len(),
            v@ == s@,
            next_colon(s@, 0) == next_colon(s@, c as int),
        decreases v@.len() - c,
    {
        c = c + 1;
    }
    proof {
        assert(c == next_colon(s@, 0));
    }
    if c < v.len() {
        let p = chars_sub(&v, 0, c);
        Some(chars_to_string(&p))
    } else {
        None
    }
}

/// Collects the prefixes used in one subtree, executable.
fn collect_prefixes(node: &Node, used: &mut Vec<String>)
    ensures
        strs_view(final(used)@) == strs_view(old(used)@) + node_prefixes(node.view()),
    decreases node,
{
    match node {
        Node::Element(e) => {
            proof {
                lemma_node_element_view(*e);
            }
            let ghost ev = node.view()->Element_0;
            match name_prefix_x(&e.name) {
                Some(p) => {
                    used.push(p);
                    proof {
                        assert(strs_view(used@) =~= strs_view(old(used)@) + prefix_seq(ev.name));
                    }
                },
                None => {
                    proof {
                        assert(strs_view(used@) =~= strs_view(old(used)@) + prefix_seq(ev.name));
                    }
                },
            }
            let ghost u1 = used@;
            let attrs = attrs_entries_vec(&e.attributes);
            let mut j: usize = 0;
            while j < attrs.len()
                invariant
                    *node == Node::Element(*e),
                    ev == node.view()->Element_0,
                    j <= attrs@.len(),
                    attrs@.len() == ev.attrs.len(),
                    forall|q: int|
                        0 <= q < attrs@.len() ==> (#[trigger] attrs@[q].0@, attrs@[q].1@)
                            == ev.attrs[q],
                    strs_view(used@) + attr_prefixes(ev.attrs, j as int) == strs_view(u1)
                        + attr_prefixes(ev.attrs, 0),
                decreases attrs@.len() - j,
            {
                proof {
                    assert((attrs@[j as int].0@, attrs@[j as int].1@) == ev.attrs[j as int]);
                }
                let ghost u0 = used@;
                match name_prefix_x(&attrs[j].0) {
                    Some(p) => {
                        used.push(p);
                        proof {
                            assert(strs_view(used@) =~= strs_view(u0) + prefix_seq(
                                ev.attrs[j as int].0,
                            ));
                        }
                    },
                    None => {
                        proof {
                            assert(strs_view(used@) =~= strs_view(u0) + prefix_seq(
                                ev.attrs[j as int].0,
                            ));
                        }
                    },
                }
                proof {
                    assert(strs_view(used@) + attr_prefixes(ev.attrs, j + 1) =~= strs_view(u1)
                        + attr_prefixes(ev.attrs, 0));
                }
                j = j + 1;
            }
            let ghost u2 = used@;
            let mut q: usize = 0;
            while q < e.children.len()
                invariant
                    *node == Node::Element(*e),
                    ev == node.view()->Element_0,
                    q <= e.children@.len(),
                    ev.children.len() == e.children@.len(),
                    forall|r: int|
                        0 <= r < e.children@.len() ==> ev.children[r] == (
                        #[trigger] e.children@[r]).view(),
                    strs_view(used@) + nodes_prefixes(ev.children, q as int) == strs_view(u2)
                        + nodes_prefixes(ev.children, 0),
                    strs_view(u2) == strs_view(old(used)@) + prefix_seq(ev.name) + attr_prefixes(
                        ev.attrs,
                        0,
                    ),
                decreases e.children@.len() - q,
            {
                proof {
                    assert(decreases_to!(*node => node->Element_0.children@[q as int]));
                }
                collect_prefixes(&e.children[q], used);
                proof {
                    assert(strs_view(used@) + nodes_prefixes(ev.children, q + 1) =~= strs_view(u2)
                        + nodes_prefixes(ev.children, 0));
                }
                q = q + 1;
            }
            proof {
                assert(strs_view(used@) =~= strs_view(old(used)@) + node_prefixes(node.view()));
            }
        },
        _ => {
            proof {
                assert(strs_view(used@) =~= strs_view(old(used)@) + node_prefixes(node.view()));
            }
        },
    }
}

/// Is this key an `xmlns:` declaration, executable; hands the suffix
/// back when it is.
pub fn xmlns_suffix(k: &String) -> (r: Option<String>)
    ensures
        match r {
            Some(p) => is_xmlns_decl(k@) && p@ == k@.subrange(6, k@.len() as int),
            None => !is_xmlns_decl(k@),
        },
{
    let v = str_to_chars(k.as_str());
    if v.len() > 6 {
        let c0 = v[0];
        let c1 = v[1];
        let c2 = v[2];
        let c3 = v[3];
        let c4 = v[4];
        let c5 = v[5];
        if c0 == 'x' && c1 == 'm' && c2 == 'l' && c3 == 'n' && c4 == 's' && c5 == ':' {
            proof {
                assert(k@.subrange(0, 6) =~= "xmlns:"@) by {
                    reveal_strlit("xmlns:");
                };
            }
            let p = chars_sub(&v, 6, v.len());
            return Some(chars_to_string(&p));
        }
        proof {
            if is_xmlns_decl(k@) {
                reveal_strlit("xmlns:");
                assert(k@.subrange(0, 6)[0] == k@[0]);
                assert(k@.subrange(0, 6)[1] == k@[1]);
                assert(k@.subrange(0, 6)[2] == k@[2]);
                assert(k@.subrange(0, 6)[3] == k@[3]);
                assert(k@.subrange(0, 6)[4] == k@[4]);
                assert(k@.subrange(0, 6)[5] == k@[5]);
                assert(false);
            }
        }
        None
    } else {
        None
    }
}

/// Rebuilds a node list without unused namespace declarations: exactly
/// `rm_ns_spec`.
fn rm_ns_nodes(ns: &Vec<Node>, used: &Vec<String>) -> (r: Vec<Node>)
    ensures
        nodes_view(r@) == rm_ns_spec(nodes_view(ns@), 0, strs_view(used@)),
    decreases ns@,
{
    let ghost vs = nodes_view(ns@);
    let ghost uv = strs_view(used@);
    let mut out: Vec<Node> = Vec::new();
    let mut i: usize = 0;
    while i < ns.len()
        invariant
            i <= ns@.len(),
            vs == nodes_view(ns@),
            uv == strs_view(used@),
            vs.len() == ns@.len(),
            nodes_view(out@) + rm_ns_spec(vs, i as int, uv) == rm_ns_spec(vs, 0, uv),
        decreases ns@.len() - i,
    {
        let ghost out0 = out@;
        proof {
            assert(vs[i as int] == ns@[i as int].view());
        }
        match &ns[i] {
            Node::Element(e) => {
                proof {
                    lemma_node_element_view(*e);
                    assert(decreases_to!(ns@ => ns@[i as int]->Element_0.children@));
                }
                let ch = rm_ns_nodes(&e.children, used);
                let entries = attrs_entries_vec(&e.attributes);
                let mut am = attrs_new();
                let ghost src = attr_entries(e.attributes);
                let mut j: usize = 0;
                while j < entries.len()
                    invariant
                        j <= entries@.len(),
                        uv == strs_view(used@),
                        src == attr_entries(e.attributes),
                        entries@.len() == src.len(),
                        forall|q: int|
                            0 <= q < entries@.len() ==> (#[trigger] entries@[q].0@,
                            entries@[q].1@) == src[q],
                        drop_unused_ns(src, uv, j as int, attr_entries(am)) == drop_unused_ns(
                            src,
                            uv,
                            0,
                            Seq::empty(),
                        ),
                    decreases entries@.len() - j,
                {
                    proof {
                        assert((entries@[j as int].0@, entries@[j as int].1@) == src[j as int]);
                    }
                    let mut keep = true;
                    match xmlns_suffix(&entries[j].0) {
                        Some(sfx) => {
                            if !crate::tree::strs_contain(used, sfx.as_str()) {
                                keep = false;
                            }
                        },
                        None => {},
                    }
                    if keep {
                        attrs_insert(&mut am, entries[j].0.clone(), entries[j].1.clone());
                    }
                    j = j + 1;
                }
                let e2 = Element { name: e.name.clone(), attributes: am, children: ch };
                proof {
                    lemma_node_element_view(e2);
                }
                out.push(Node::Element(e2));
                proof {
                    lemma_nodes_view_snoc(out@);
                    assert(out@.drop_last() =~= out0);
                    assert(nodes_view(out@) + rm_ns_spec(vs, i + 1, uv) =~~= rm_ns_spec(
                        vs,
                        0,
                        uv,
                    ));
                }
            },
            _ => {
                let c = clone_node(&ns[i]);
                let ghost cv = c.view();
                out.push(c);
                proof {
                    lemma_nodes_view_snoc(out@);
                    assert(out@.drop_last() =~= out0);
                    assert(nodes_view(out@) + rm_ns_spec(vs, i + 1, uv) =~~= rm_ns_spec(
                        vs,
                        0,
                        uv,
                    ));
                }
            },
        }
        i = i + 1;
    }
    proof {
        assert(nodes_view(out@) =~= rm_ns_spec(vs, 0, uv));
    }
    out
}

/// The unused-namespace-removal pass.
pub struct RemoveUnusedNS;

impl RemoveUnusedNS {
    /// Removes declarations of prefixes nothing uses.
    pub fn run(doc: &mut Document)
        ensures
            ({
                let used = crate::plugins::remove_unused_ns::doc_prefixes(old(doc).view());
                final(doc).view() == rm_ns_spec(old(doc).view(), 0, used)
            }),
    {
        let mut used: Vec<String> = Vec::new();
        let ghost vs = doc.view();
        let mut i: usize = 0;
        while i < doc.root.len()
            invariant
                i <= doc.root@.len(),
                vs == doc.view(),
                vs.len() == doc.root@.len(),
                strs_view(used@) + nodes_prefixes(vs, i as int) == nodes_prefixes(vs, 0),
            decreases doc.root@.len() - i,
        {
            proof {
                assert(vs[i as int] == doc.root@[i as int].view());
            }
            collect_prefixes(&doc.root[i], &mut used);
            proof {
                assert(strs_view(used@) + nodes_prefixes(vs, i + 1) =~= nodes_prefixes(vs, 0));
            }
            i = i + 1;
        }
        proof {
            assert(strs_view(used@) =~= doc_prefixes(vs));
        }
        let out = rm_ns_nodes(&doc.root, &used);
        doc.root = out;
    }
}

/// The prefixes used anywhere in the document.
pub open spec fn doc_prefixes(ns: Seq<VNode>) -> Seq<Seq<char>> {
    nodes_prefixes(ns, 0)
}

impl Plugin for RemoveUnusedNS {
    fn apply(&self, doc: &mut Document) {
        RemoveUnusedNS::run(doc);
    }
}

} // verus!
