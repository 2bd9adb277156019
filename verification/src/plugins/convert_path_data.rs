//! Re-encodes each `path` element's `d` attribute: parse to the
//! normalized command list, then emit the shortest valid form of every
//! command.

use vstd::prelude::*;
use crate::path_data::{encode_path, encode_path_data, parse_path_data, run_path};
use crate::plugins::Plugin;
use crate::strutil::{chars_to_string, str_to_chars, string_eq_str};
use crate::tree::{
    attrs_clone, attrs_get, attrs_insert, clone_node, entries_have_key, entries_insert,
    entries_value_of, lemma_node_element_view, lemma_nodes_view_snoc, nodes_view, Document,
    Element, Node, VElement, VNode,
};

verus! {

/// The canonical re-encoding of one `d` attribute's text at precision
/// `p`: the shortest-form text of its normalized command list.
pub open spec fn path_out(s: Seq<char>, p: nat) -> Seq<char> {
    encode_path(run_path(s, 0, None, (0, 0), (0, 0), p), 0, (0, 0), (0, 0), p)
}

/// The attribute list after path re-encoding: `d` is rewritten when
/// present.
pub open spec fn conv_pd_attrs(attrs: Seq<(Seq<char>, Seq<char>)>, p: nat) -> Seq<
    (Seq<char>, Seq<char>),
> {
    if entries_have_key(attrs, "d"@) {
        entries_insert(attrs, "d"@, path_out(entries_value_of(attrs, "d"@), p))
    } else {
        attrs
    }
}

/// The tree after path re-encoding, from position `k` on: only `path`
/// elements change.
pub open spec fn conv_pd_spec(ns: Seq<VNode>, k: int, p: nat) -> Seq<VNode>
    decreases ns, ns.len() - k,
{
    if k < 0 || k >= ns.len() {
        Seq::empty()
    } else {
        let rest = conv_pd_spec(ns, k + 1, p);
        match ns[k] {
            VNode::Element(e) => seq![
                VNode::Element(
                    VElement {
                        name: e.name,
                        attrs: if e.name == "path"@ {
                            conv_pd_attrs(e.attrs, p)
                        } else {
                            e.attrs
                        },
                        children: conv_pd_spec(e.children, 0, p),
                    },
                ),
            ] + rest,
            _ => seq![ns[k]] + rest,
        }
    }
}

/// The path-data re-encoding pass, with its numeric precision options.
pub struct ConvertPathData {
    pub float_precision: usize,
    pub transform_precision: usize,
}

impl Default for ConvertPathData {
    /// Three fractional digits for coordinates, five for transforms.
    fn default() -> (r: Self)
        ensures
            r.float_precision == 3 && r.transform_precision == 5,
    {
        ConvertPathData { float_precision: 3, transform_precision: 5 }
    }
}

/// Re-encodes one `d` attribute's text: exactly `path_out`, at the
/// option's precision (capped at nine digits).
pub fn optimize_path_data(d: &str, opts: &ConvertPathData) -> (r: String)
    ensures
        r@ == path_out(
            d@,
            (if opts.float_precision > 9 {
                9nat
            } else {
                opts.float_precision as nat
            }),
        ),
{
    let p: u32 = if opts.float_precision > 9 {
        9
    } else {
        opts.float_precision as u32
    };
    let v = str_to_chars(d);
    let cmds = parse_path_data(&v, p);
    let out = encode_path_data(&cmds, p);
    chars_to_string(&out)
}

/// Rebuilds a node list with every path re-encoded: exactly
/// `conv_pd_spec`.
fn conv_pd_nodes(ns: &Vec<Node>, opts: &ConvertPathData, p: u32) -> (r: Vec<Node>)
    requires
        p <= 9,
        p as nat == (if opts.float_precision > 9 {
            9nat
        } else {
            opts.float_precision as nat
        }),
    ensures
        nodes_view(r@) == conv_pd_spec(nodes_view(ns@), 0, p as nat),
    decreases ns@,
{
    let ghost vs = nodes_view(ns@);
    let mut out: Vec<Node> = Vec::new();
    let mut i: usize = 0;
    while i < ns.len()
        invariant
            i <= ns@.len(),
            vs == nodes_view(ns@),
            vs.len() == ns@.len(),
            p <= 9,
            p as nat == (if opts.float_precision > 9 {
                9nat
            } else {
                opts.float_precision as nat
            }),
            nodes_view(out@) + conv_pd_spec(vs, i as int, p as nat) == conv_pd_spec(
                vs,
                0,
                p as nat,
            ),
        decreases ns@.len() - i,
    {
        let ghost out0 = out@;
        proof {
            assert(vs[i as int] == ns@[i as int].view());
        }
        match &ns[i] {
            Node::Element(e) => {
                proof {
                    lemma_node_element_view(*e);
                    assert(decreases_to!(ns@ => ns@[i as int]->Element_0.children@));
                }
                let ch = conv_pd_nodes(&e.children, opts, p);
                let mut am = attrs_clone(&e.attributes);
                if string_eq_str(&e.name, "path") {
                    match attrs_get(&am, "d") {
                        Some(d) => {
                            let newd = optimize_path_data(d.as_str(), opts);
                            attrs_insert(&mut am, "d".to_owned(), newd);
                        },
                        None => {},
                    }
                }
                let e2 = Element { name: e.name.clone(), attributes: am, children: ch };
                proof {
                    lemma_node_element_view(e2);
                }
                out.push(Node::Element(e2));
                proof {
                    lemma_nodes_view_snoc(out@);
                    assert(out@.drop_last() =~= out0);
                    assert(nodes_view(out@) + conv_pd_spec(vs, i + 1, p as nat) =~~= conv_pd_spec(
                        vs,
                        0,
                        p as nat,
                    ));
                }
            },
            _ => {
                let c = clone_node(&ns[i]);
                let ghost cv = c.view();
                out.push(c);
                proof {
                    lemma_nodes_view_snoc(out@);
                    assert(out@.drop_last() =~= out0);
                    assert(nodes_view(out@) + conv_pd_spec(vs, i + 1, p as nat) =~~= conv_pd_spec(
                        vs,
                        0,
                        p as nat,
                    ));
                }
            },
        }
        i = i + 1;
    }
    proof {
        assert(nodes_view(out@) =~= conv_pd_spec(vs, 0, p as nat));
    }
    out
}

impl ConvertPathData {
    /// Re-encodes every path's data in the document.
    pub fn run(&self, doc: &mut Document)
        ensures
            final(doc).view() == conv_pd_spec(
                old(doc).view(),
                0,
                (if self.float_precision > 9 {
                    9nat
                } else {
                    self.float_precision as nat
                }),
            ),
    {
        let p: u32 = if self.float_precision > 9 {
            9
        } else {
            self.float_precision as u32
        };
        let out = conv_pd_nodes(&doc.root, self, p);
        doc.root = out;
    }
}

impl Plugin for ConvertPathData {
    fn apply(&self, doc: &mut Document) {
        self.run(doc);
    }
}

} // verus!
