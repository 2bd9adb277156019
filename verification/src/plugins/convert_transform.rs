//! Collapses each `transform` attribute to its canonical shortest form;
//! an identity transform drops the attribute altogether.

use vstd::prelude::*;
use crate::plugins::Plugin;
use crate::strutil::{chars_to_string, str_to_chars};
use crate::transform::transforms_out;
use crate::tree::{
    attrs_clone, attrs_get, attrs_insert, attrs_shift_remove, clone_node, entries_have_key,
    entries_insert, entries_remove_key, entries_value_of, lemma_node_element_view,
    lemma_nodes_view_snoc, nodes_view, Document, Element, Node, VElement, VNode,
};

verus! {

/// The attribute list after transform canonicalization: the attribute is
/// rewritten, or removed when the canonical text is empty.
pub open spec fn conv_tr_attrs(attrs: Seq<(Seq<char>, Seq<char>)>, fp: nat) -> Seq<
    (Seq<char>, Seq<char>),
> {
    if entries_have_key(attrs, "transform"@) {
        let newt = transforms_out(entries_value_of(attrs, "transform"@), fp);
        if newt.len() == 0 {
            entries_remove_key(attrs, "transform"@)
        } else {
            entries_insert(attrs, "transform"@, newt)
        }
    } else {
        attrs
    }
}

/// The tree after transform canonicalization, from position `k` on.
pub open spec fn conv_tr_spec(ns: Seq<VNode>, k: int, fp: nat) -> Seq<VNode>
    decreases ns, ns.len() - k,
{
    if k < 0 || k >= ns.len() {
        Seq::empty()
    } else {
        let rest = conv_tr_spec(ns, k + 1, fp);
        match ns[k] {
            VNode::Element(e) => seq![
                VNode::Element(
                    VElement {
                        name: e.name,
                        attrs: conv_tr_attrs(e.attrs, fp),
                        children: conv_tr_spec(e.children, 0, fp),
                    },
                ),
            ] + rest,
            _ => seq![ns[k]] + rest,
        }
    }
}

/// The transform-canonicalization pass, with its numeric precision
/// options.
pub struct ConvertTransform {
    pub float_precision: usize,
    pub deg_precision: usize,
}

impl Default for ConvertTransform {
    /// Three fractional digits for matrix entries and angles.
    fn default() -> (r: Self)
        ensures
            r.float_precision == 3 && r.deg_precision == 3,
    {
        ConvertTransform { float_precision: 3, deg_precision: 3 }
    }
}

/// Canonicalizes one `transform` attribute value: exactly
/// `transforms_out`, at the option's precision (capped at the matrix
/// scale's six digits).
pub fn optimize_transform(transform_str: &str, opts: &ConvertTransform) -> (r: String)
    ensures
        r@ == transforms_out(
            transform_str@,
            (if opts.float_precision > 6 {
                6nat
            } else {
                opts.float_precision as nat
            }),
        ),
{
    let fp: u32 = if opts.float_precision > 6 {
        6
    } else {
        opts.float_precision as u32
    };
    let v = str_to_chars(transform_str);
    let out = crate::transform::optimize_transform_chars(&v, fp);
    chars_to_string(&out)
}

/// Rebuilds a node list with every transform canonicalized: exactly
/// `conv_tr_spec`.
fn conv_tr_nodes(ns: &Vec<Node>, opts: &ConvertTransform, fp: u32) -> (r: Vec<Node>)
    requires
        fp <= 6,
        fp as nat == (if opts.float_precision > 6 {
            6nat
        } else {
            opts.float_precision as nat
        }),
    ensures
        nodes_view(r@) == conv_tr_spec(nodes_view(ns@), 0, fp as nat),
    decreases ns@,
{
    let ghost vs = nodes_view(ns@);
    let mut out: Vec<Node> = Vec::new();
    let mut i: usize = 0;
    while i < ns.len()
        invariant
            i <= ns@.len(),
            vs == nodes_view(ns@),
            vs.len() == ns@.len(),
            fp <= 6,
            fp as nat == (if opts.float_precision > 6 {
                6nat
            } else {
                opts.float_precision as nat
            }),
            nodes_view(out@) + conv_tr_spec(vs, i as int, fp as nat) == conv_tr_spec(
                vs,
                0,
                fp as nat,
            ),
        decreases ns@.len() - i,
    {
        let ghost out0 = out@;
        proof {
            assert(vs[i as int] == ns@[i as int].view());
        }
        match &ns[i] {
            Node::Element(e) => {
                proof {
                    lemma_node_element_view(*e);
                    assert(decreases_to!(ns@ => ns@[i as int]->Element_0.children@));
                }
                let ch = conv_tr_nodes(&e.children, opts, fp);
                let mut am = attrs_clone(&e.attributes);
                match attrs_get(&am, "transform") {
                    Some(t) => {
                        let newt = optimize_transform(t.as_str(), opts);
                        if newt.as_str().unicode_len() == 0 {
                            proof {
                                assert(newt@.len() == 0);
                            }
                            attrs_shift_remove(&mut am, "transform");
                        } else {
                            attrs_insert(&mut am, "transform".to_owned(), newt);
                        }
                    },
                    None => {},
                }
                let e2 = Element { name: e.name.clone(), attributes: am, children: ch };
                proof {
                    lemma_node_element_view(e2);
                }
                out.push(Node::Element(e2));
                proof {
                    lemma_nodes_view_snoc(out@);
                    assert(out@.drop_last() =~= out0);
                    assert(nodes_view(out@) + conv_tr_spec(vs, i + 1, fp as nat) =~~= conv_tr_spec(
                        vs,
                        0,
                        fp as nat,
                    ));
                }
            },
            _ => {
                let c = clone_node(&ns[i]);
                let ghost cv = c.view();
                out.push(c);
                proof {
                    lemma_nodes_view_snoc(out@);
                    assert(out@.drop_last() =~= out0);
                    assert(nodes_view(out@) + conv_tr_spec(vs, i + 1, fp as nat) =~~= conv_tr_spec(
                        vs,
                        0,
                        fp as nat,
                    ));
                }
            },
        }
        i = i + 1;
    }
    proof {
        assert(nodes_view(out@) =~= conv_tr_spec(vs, 0, fp as nat));
    }
    out
}

impl ConvertTransform {
    /// Canonicalizes every transform attribute in the document.
    pub fn run(&self, doc: &mut Document)
        ensures
            final(doc).view() == conv_tr_spec(
                old(doc).view(),
                0,
                (if self.float_precision > 6 {
                    6nat
                } else {
                    self.float_precision as nat
                }),
            ),
    {
        let fp: u32 = if self.float_precision > 6 {
            6
        } else {
            self.float_precision as u32
        };
        let out = conv_tr_nodes(&doc.root, self, fp);
        doc.root = out;
    }
}

impl Plugin for ConvertTransform {
    fn apply(&self, doc: &mut Document) {
        self.run(doc);
    }
}

} // verus!
