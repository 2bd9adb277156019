//! Removes editor metadata bound to known editor namespaces: the
//! `xmlns:` declarations for those namespaces, and every element and
//! attribute under the prefixes they declare.

use vstd::prelude::*;
use crate::plugins::remove_unused_ns::{
    attr_prefixes, is_xmlns_decl, name_prefix, name_prefix_x, prefix_seq, xmlns_suffix,
};
use crate::plugins::Plugin;
use crate::strutil::string_eq_str;
use crate::tree::{
    attr_entries, attrs_entries_vec, attrs_insert, attrs_new, clone_node, entries_insert,
    lemma_node_element_view, lemma_nodes_view_snoc, nodes_view, strs_view, Document, Element,
    Node, VElement, VNode,
};

verus! {

/// Is this value one of the known editor namespace URIs?
pub open spec fn editor_ns(v: Seq<char>) -> bool {
    v == "http://www.inkscape.org/namespaces/inkscape"@ || v
        == "http://sodipodi.sourceforge.net/DTD/sodipodi-0.dtd"@ || v
        == "http://ns.adobe.com/AdobeIllustrator/10.0/"@ || v
        == "http://ns.adobe.com/SaveForWeb/1.0/"@
}

/// Is this value an editor namespace URI, executable.
fn editor_ns_x(v: &String) -> (r: bool)
    ensures
        r == editor_ns(v@),
{
    string_eq_str(v, "http://www.inkscape.org/namespaces/inkscape") || string_eq_str(
        v,
        "http://sodipodi.sourceforge.net/DTD/sodipodi-0.dtd",
    ) || string_eq_str(v, "http://ns.adobe.com/AdobeIllustrator/10.0/") || string_eq_str(
        v,
        "http://ns.adobe.com/SaveForWeb/1.0/",
    )
}

/// Editor prefixes declared by an attribute list from position `j` on.
pub open spec fn attr_editor_prefixes(attrs: Seq<(Seq<char>, Seq<char>)>, j: int) -> Seq<Seq<char>>
    decreases attrs.len() - j,
{
    if j < 0 || j >= attrs.len() {
        Seq::empty()
    } else {
        (if is_xmlns_decl(attrs[j].0) && editor_ns(attrs[j].1) {
            seq![attrs[j].0.subrange(6, attrs[j].0.len() as int)]
        } else {
            Seq::empty()
        }) + attr_editor_prefixes(attrs, j + 1)
    }
}

/// Editor prefixes declared anywhere in one node's subtree.
pub open spec fn node_editor_prefixes(n: VNode) -> Seq<Seq<char>>
    decreases n, 0int,
{
    match n {
        VNode::Element(e) => attr_editor_prefixes(e.attrs, 0) + nodes_editor_prefixes(
            e.children,
            0,
        ),
        _ => Seq::empty(),
    }
}

/// Editor prefixes declared in a node list from position `j` on.
pub open spec fn nodes_editor_prefixes(ns: Seq<VNode>, j: int) -> Seq<Seq<char>>
    decreases ns, ns.len() - j,
{
    if j < 0 || j >= ns.len() {
        Seq::empty()
    } else {
        node_editor_prefixes(ns[j]) + nodes_editor_prefixes(ns, j + 1)
    }
}

/// Should this attribute go: an editor declaration, or any attribute
/// under an editor prefix.
pub open spec fn attr_is_editor(k: Seq<char>, v: Seq<char>, pfx: Seq<Seq<char>>) -> bool {
    (is_xmlns_decl(k) && pfx.contains(k.subrange(6, k.len() as int)) && editor_ns(v)) || (
    match name_prefix(k) {
        Some(p) => pfx.contains(p),
        None => false,
    })
}

/// The attribute list without editor data.
pub open spec fn drop_editor_attrs(
    attrs: Seq<(Seq<char>, Seq<char>)>,
    pfx: Seq<Seq<char>>,
    j: int,
    acc: Seq<(Seq<char>, Seq<char>)>,
) -> Seq<(Seq<char>, Seq<char>)>
    decreases attrs.len() - j,
{
    if j < 0 || j >= attrs.len() {
        acc
    } else if attr_is_editor(attrs[j].0, attrs[j].1, pfx) {
        drop_editor_attrs(attrs, pfx, j + 1, acc)
    } else {
        drop_editor_attrs(attrs, pfx, j + 1, entries_insert(acc, attrs[j].0, attrs[j].1))
    }
}

/// The tree after editor-data removal, from position `k` on: elements
/// under an editor prefix vanish with their subtrees; the rest lose
/// their editor attributes.
pub open spec fn rm_editor_spec(ns: Seq<VNode>, k: int, pfx: Seq<Seq<char>>) -> Seq<VNode>
    decreases ns, ns.len() - k,
{
    if k < 0 || k >= ns.len() {
        Seq::empty()
    } else {
        let rest = rm_editor_spec(ns, k + 1, pfx);
        match ns[k] {
            VNode::Element(e) => if match name_prefix(e.name) {
                Some(p) => pfx.contains(p),
                None => false,
            } {
                rest
            } else {
                seq![
                    VNode::Element(
                        VElement {
                            name: e.name,
                            attrs: drop_editor_attrs(e.attrs, pfx, 0, Seq::empty()),
                            children: rm_editor_spec(e.children, 0, pfx),
                        },
                    ),
                ] + rest
            },
            _ => seq![ns[k]] + rest,
        }
    }
}

/// Collects editor prefixes from one subtree, executable.
fn scan_editor_prefixes(node: &Node, pfx: &mut Vec<String>)
    ensures
        strs_view(final(pfx)@) == strs_view(old(pfx)@) + node_editor_prefixes(node.view()),
    decreases node,
{
    match node {
        Node::Element(e) => {
            proof {
                lemma_node_element_view(*e);
            }
            let ghost ev = node.view()->Element_0;
            let attrs = attrs_entries_vec(&e.attributes);
            let mut j: usize = 0;
            while j < attrs.len()
                invariant
                    *node == Node::Element(*e),
                    ev == node.view()->Element_0,
                    j <= attrs@.len(),
                    attrs@.len() == ev.attrs.len(),
                    forall|q: int|
                        0 <= q < attrs@.len() ==> (#[trigger] attrs@[q].0@, attrs@[q].1@)
                            == ev.attrs[q],
                    strs_view(pfx@) + attr_editor_prefixes(ev.attrs, j as int) == strs_view(
                        old(pfx)@,
                    ) + attr_editor_prefixes(ev.attrs, 0),
                decreases attrs@.len() - j,
            {
                proof {
                    assert((attrs@[j as int].0@, attrs@[j as int].1@) == ev.attrs[j as int]);
                }
                let ghost p0 = pfx@;
                match xmlns_suffix(&attrs[j].0) {
                    Some(sfx) => {
                        if editor_ns_x(&attrs[j].1) {
                            pfx.push(sfx);
                            proof {
                                assert(strs_view(pfx@) =~= strs_view(p0).push(
                                    ev.attrs[j as int].0.subrange(
                                        6,
                                        ev.attrs[j as int].0.len() as int,
                                    ),
                                ));
                            }
                        }
                    },
                    None => {},
                }
                proof {
                    assert(strs_view(pfx@) + attr_editor_prefixes(ev.attrs, j + 1) =~= strs_view(
                        old(pfx)@,
                    ) + attr_editor_prefixes(ev.attrs, 0));
                }
                j = j + 1;
            }
            let ghost mid = pfx@;
            let mut q: usize = 0;
            while q < e.children.len()
                invariant
                    *node == Node::Element(*e),
                    ev == node.view()->Element_0,
                    q <= e.children@.len(),
                    ev.children.len() == e.children@.len(),
                    forall|r: int|
                        0 <= r < e.children@.len() ==> ev.children[r] == (
                        #[trigger] e.children@[r]).view(),
                    strs_view(pfx@) + nodes_editor_prefixes(ev.children, q as int) == strs_view(
                        mid,
                    ) + nodes_editor_prefixes(ev.children, 0),
                    strs_view(mid) == strs_view(old(pfx)@) + attr_editor_prefixes(ev.attrs, 0),
                decreases e.children@.len() - q,
            {
                proof {
                    assert(decreases_to!(*node => node->Element_0.children@[q as int]));
                }
                scan_editor_prefixes(&e.children[q], pfx);
                proof {
                    assert(strs_view(pfx@) + nodes_editor_prefixes(ev.children, q + 1)
                        =~= strs_view(mid) + nodes_editor_prefixes(ev.children, 0));
                }
                q = q + 1;
            }
            proof {
                assert(strs_view(pfx@) =~= strs_view(old(pfx)@) + node_editor_prefixes(
                    node.view(),
                ));
            }
        },
        _ => {
            proof {
                assert(strs_view(pfx@) =~= strs_view(old(pfx)@) + node_editor_prefixes(
                    node.view(),
                ));
            }
        },
    }
}

/// Rebuilds a node list without editor data: exactly `rm_editor_spec`.
fn rm_editor_nodes(ns: &Vec<Node>, pfx: &Vec<String>) -> (r: Vec<Node>)
    ensures
        nodes_view(r@) == rm_editor_spec(nodes_view(ns@), 0, strs_view(pfx@)),
    decreases ns@,
{
    let ghost vs = nodes_view(ns@);
    let ghost pv = strs_view(pfx@);
    let mut out: Vec<Node> = Vec::new();
    let mut i: usize = 0;
    while i < ns.len()
        invariant
            i <= ns@.len(),
            vs == nodes_view(ns@),
            pv == strs_view(pfx@),
            vs.len() == ns@.len(),
            nodes_view(out@) + rm_editor_spec(vs, i as int, pv) == rm_editor_spec(vs, 0, pv),
        decreases ns@.len() - i,
    {
        let ghost out0 = out@;
        proof {
            assert(vs[i as int] == ns@[i as int].view());
        }
        match &ns[i] {
            Node::Element(e) => {
                proof {
                    lemma_node_element_view(*e);
                }
                let editor_elem = match name_prefix_x(&e.name) {
                    Some(p) => crate::tree::strs_contain(pfx, p.as_str()),
                    None => false,
                };
                if editor_elem {
                } else {
                    proof {
                        assert(decreases_to!(ns@ => ns@[i as int]->Element_0.children@));
                    }
                    let ch = rm_editor_nodes(&e.children, pfx);
                    let entries = attrs_entries_vec(&e.attributes);
                    let mut am = attrs_new();
                    let ghost src = attr_entries(e.attributes);
                    let mut j: usize = 0;
                    while j < entries.len()
                        invariant
                            j <= entries@.len(),
                            pv == strs_view(pfx@),
                            src == attr_entries(e.attributes),
                            entries@.len() == src.len(),
                            forall|q: int|
                                0 <= q < entries@.len() ==> (#[trigger] entries@[q].0@,
                                entries@[q].1@) == src[q],
                            drop_editor_attrs(src, pv, j as int, attr_entries(am))
                                == drop_editor_attrs(src, pv, 0, Seq::empty()),
                        decreases entries@.len() - j,
                    {
                        proof {
                            assert((entries@[j as int].0@, entries@[j as int].1@)
                                == src[j as int]);
                        }
                        let mut is_editor = false;
                        match xmlns_suffix(&entries[j].0) {
                            Some(sfx) => {
                                if crate::tree::strs_contain(pfx, sfx.as_str()) && editor_ns_x(
                                    &entries[j].1,
                                ) {
                                    is_editor = true;
                                }
                            },
                            None => {},
                        }
                        if !is_editor {
                            match name_prefix_x(&entries[j].0) {
                                Some(p) => {
                                    if crate::tree::strs_contain(pfx, p.as_str()) {
                                        is_editor = true;
                                    }
                                },
                                None => {},
                            }
                        }
                        if !is_editor {
                            attrs_insert(&mut am, entries[j].0.clone(), entries[j].1.clone());
                        }
                        j = j + 1;
                    }
                    let e2 = Element { name: e.name.clone(), attributes: am, children: ch };
                    proof {
                        lemma_node_element_view(e2);
                    }
                    out.push(Node::Element(e2));
                    proof {
                        lemma_nodes_view_snoc(out@);
                        assert(out@.drop_last() =~= out0);
                        assert(nodes_view(out@) + rm_editor_spec(vs, i + 1, pv)
                            =~~= rm_editor_spec(vs, 0, pv));
                    }
                }
            },
            _ => {
                let c = clone_node(&ns[i]);
                let ghost cv = c.view();
                out.push(c);
                proof {
                    lemma_nodes_view_snoc(out@);
                    assert(out@.drop_last() =~= out0);
                    assert(nodes_view(out@) + rm_editor_spec(vs, i + 1, pv) =~~= rm_editor_spec(
                        vs,
                        0,
                        pv,
                    ));
                }
            },
        }
        i = i + 1;
    }
    proof {
        assert(nodes_view(out@) =~= rm_editor_spec(vs, 0, pv));
    }
    out
}

/// The editor-data-removal pass.
pub struct RemoveEditorsNSData;

impl RemoveEditorsNSData {
    /// Removes everything bound to the known editor namespaces.
    pub fn run(doc: &mut Document)
        ensures
            final(doc).view() == rm_editor_spec(
                old(doc).view(),
                0,
                nodes_editor_prefixes(old(doc).view(), 0),
            ),
    {
        let mut pfx: Vec<String> = Vec::new();
        let ghost vs = doc.view();
        let mut i: usize = 0;
        while i < doc.root.len()
            invariant
                i <= doc.root@.len(),
                vs == doc.view(),
                vs.len() == doc.root@.len(),
                strs_view(pfx@) + nodes_editor_prefixes(vs, i as int) == nodes_editor_prefixes(
                    vs,
                    0,
                ),
            decreases doc.root@.len() - i,
        {
            proof {
                assert(vs[i as int] == doc.root@[i as int].view());
            }
            scan_editor_prefixes(&doc.root[i], &mut pfx);
            proof {
                assert(strs_view(pfx@) + nodes_editor_prefixes(vs, i + 1)
                    =~= nodes_editor_prefixes(vs, 0));
            }
            i = i + 1;
        }
        proof {
            assert(strs_view(pfx@) =~= nodes_editor_prefixes(vs, 0));
        }
        let out = rm_editor_nodes(&doc.root, &pfx);
        doc.root = out;
    }
}

impl Plugin for RemoveEditorsNSData {
    fn apply(&self, doc: &mut Document) {
        RemoveEditorsNSData::run(doc);
    }
}

} // verus!
