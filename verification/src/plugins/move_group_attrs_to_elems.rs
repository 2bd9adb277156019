//! Moves a group's `transform` down onto its element children: each
//! child's transform becomes the group's followed by its own, and the
//! group keeps none. Nested groups compose as the traversal descends.

use vstd::prelude::*;
use crate::plugins::Plugin;
use crate::strutil::string_eq_str;
use crate::tree::{
    attr_entries, attrs_clone, attrs_get, attrs_insert, attrs_shift_remove, clone_node,
    entries_have_key, entries_insert, entries_remove_key, entries_value_of,
    lemma_node_element_view, lemma_nodes_view_snoc, nodes_view, Document, Element, Node, VElement,
    VNode,
};

verus! {

/// An element's attributes with a group transform prepended: the
/// child's transform becomes `t` + space + its own, or just `t`.
pub open spec fn prepend_tr(attrs: Seq<(Seq<char>, Seq<char>)>, t: Seq<char>) -> Seq<
    (Seq<char>, Seq<char>),
> {
    if entries_have_key(attrs, "transform"@) {
        entries_insert(
            attrs,
            "transform"@,
            t + seq![' '] + entries_value_of(attrs, "transform"@),
        )
    } else {
        entries_insert(attrs, "transform"@, t)
    }
}

/// One node under a pending group transform.
pub open spec fn mg_node(n: VNode, pending: Option<Seq<char>>) -> VNode
    decreases n, 0int,
{
    match n {
        VNode::Element(e) => {
            let a1 = match pending {
                Some(t) => prepend_tr(e.attrs, t),
                None => e.attrs,
            };
            if e.name == "g"@ && e.children.len() > 0 && entries_have_key(a1, "transform"@) {
                let t = entries_value_of(a1, "transform"@);
                VNode::Element(
                    VElement {
                        name: e.name,
                        attrs: entries_remove_key(a1, "transform"@),
                        children: mg_children(e.children, 0, Some(t)),
                    },
                )
            } else {
                VNode::Element(
                    VElement { name: e.name, attrs: a1, children: mg_children(e.children, 0, None) },
                )
            }
        },
        _ => n,
    }
}

/// A node list under a pending group transform.
pub open spec fn mg_children(ns: Seq<VNode>, k: int, pending: Option<Seq<char>>) -> Seq<VNode>
    decreases ns, ns.len() - k,
{
    if k < 0 || k >= ns.len() {
        Seq::empty()
    } else {
        seq![mg_node(ns[k], pending)] + mg_children(ns, k + 1, pending)
    }
}

/// One node, executable: exactly `mg_node`.
fn mg_node_x(n: &Node, pending: Option<&String>) -> (r: Node)
    ensures
        r.view() == mg_node(
            n.view(),
            match pending {
                Some(t) => Some(t@),
                None => None,
            },
        ),
    decreases n, 1int,
{
    match n {
        Node::Element(e) => {
            proof {
                lemma_node_element_view(*e);
            }
            let mut am = attrs_clone(&e.attributes);
            match pending {
                Some(t) => {
                    match attrs_get(&am, "transform") {
                        Some(ct) => {
                            let mut nt = t.clone();
                            nt.append(" ");
                            nt.append(ct.as_str());
                            proof {
                                assert(" "@ =~= seq![' ']) by {
                                    reveal_strlit(" ");
                                };
                            }
                            attrs_insert(&mut am, "transform".to_owned(), nt);
                        },
                        None => {
                            attrs_insert(&mut am, "transform".to_owned(), t.clone());
                        },
                    }
                },
                None => {},
            }
            let is_group = string_eq_str(&e.name, "g") && e.children.len() > 0;
            let tval: Option<String> = if is_group {
                attrs_get(&am, "transform")
            } else {
                None
            };
            match tval {
                Some(t) => {
                    attrs_shift_remove(&mut am, "transform");
                    let ch = mg_children_x(&e.children, Some(&t), n);
                    let e2 = Element { name: e.name.clone(), attributes: am, children: ch };
                    proof {
                        lemma_node_element_view(e2);
                        assert(e2.view() =~~= mg_node(
                            n.view(),
                            match pending {
                                Some(tt) => Some(tt@),
                                None => None,
                            },
                        )->Element_0);
                    }
                    Node::Element(e2)
                },
                None => {
                    let ch = mg_children_x(&e.children, None, n);
                    let e2 = Element { name: e.name.clone(), attributes: am, children: ch };
                    proof {
                        lemma_node_element_view(e2);
                        assert(e2.view() =~~= mg_node(
                            n.view(),
                            match pending {
                                Some(tt) => Some(tt@),
                                None => None,
                            },
                        )->Element_0);
                    }
                    Node::Element(e2)
                },
            }
        },
        _ => clone_node(n),
    }
}

/// A child list, executable: exactly `mg_children`. The extra `parent`
/// argument carries the termination measure.
fn mg_children_x(ns: &Vec<Node>, pending: Option<&String>, parent: &Node) -> (r: Vec<Node>)
    requires
        decreases_to!(*parent => ns@),
    ensures
        nodes_view(r@) == mg_children(
            nodes_view(ns@),
            0,
            match pending {
                Some(t) => Some(t@),
                None => None,
            },
        ),
    decreases parent, 0int,
{
    let ghost vs = nodes_view(ns@);
    let ghost pd: Option<Seq<char>> = match pending {
        Some(t) => Some(t@),
        None => None,
    };
    let mut out: Vec<Node> = Vec::new();
    let mut i: usize = 0;
    while i < ns.len()
        invariant
            i <= ns@.len(),
            vs == nodes_view(ns@),
            vs.len() == ns@.len(),
            pd == (match pending {
                Some(t) => Some(t@),
                None => None,
            }),
            decreases_to!(*parent => ns@),
            nodes_view(out@) + mg_children(vs, i as int, pd) == mg_children(vs, 0, pd),
        decreases ns@.len() - i,
    {
        let ghost out0 = out@;
        proof {
            assert(vs[i as int] == ns@[i as int].view());
            assert(decreases_to!(ns@ => ns@[i as int]));
        }
        let c = mg_node_x(&ns[i], pending);
        let ghost cv = c.view();
        out.push(c);
        proof {
            lemma_nodes_view_snoc(out@);
            assert(out@.drop_last() =~= out0);
            assert(nodes_view(out@) + mg_children(vs, i + 1, pd) =~~= mg_children(vs, 0, pd));
        }
        i = i + 1;
    }
    proof {
        assert(nodes_view(out@) =~= mg_children(vs, 0, pd));
    }
    out
}

/// The group-attribute push-down pass.
pub struct MoveGroupAttrsToElems;

impl MoveGroupAttrsToElems {
    /// Pushes group transforms down onto children.
    pub fn run(doc: &mut Document)
        ensures
            final(doc).view() == mg_children(old(doc).view(), 0, None),
    {
        let ghost vs = doc.view();
        let mut out: Vec<Node> = Vec::new();
        let mut i: usize = 0;
        while i < doc.root.len()
            invariant
                i <= doc.root@.len(),
                vs == doc.view(),
                vs.len() == doc.root@.len(),
                nodes_view(out@) + mg_children(vs, i as int, None) == mg_children(vs, 0, None),
            decreases doc.root@.len() - i,
        {
            let ghost out0 = out@;
            proof {
                assert(vs[i as int] == doc.root@[i as int].view());
            }
            let c = mg_node_x(&doc.root[i], None);
            let ghost cv = c.view();
            out.push(c);
            proof {
                lemma_nodes_view_snoc(out@);
                assert(out@.drop_last() =~= out0);
                assert(nodes_view(out@) + mg_children(vs, i + 1, None) =~~= mg_children(
                    vs,
                    0,
                    None,
                ));
            }
            i = i + 1;
        }
        proof {
            assert(nodes_view(out@) =~= mg_children(vs, 0, None));
        }
        doc.root = out;
    }
}

impl Plugin for MoveGroupAttrsToElems {
    fn apply(&self, doc: &mut Document) {
        MoveGroupAttrsToElems::run(doc);
    }
}

} // verus!
