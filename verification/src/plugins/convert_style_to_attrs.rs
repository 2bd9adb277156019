//! Moves inline `style` declarations into presentation attributes: the
//! `style` attribute is removed and each `key: value` pair is inserted
//! as an attribute (overwriting, since style takes precedence).

use vstd::prelude::*;
use crate::plugins::collections::{is_ws, is_ws_c, skip_ws};
use crate::plugins::Plugin;
use crate::strutil::{chars_sub, chars_to_string, str_to_chars};
use crate::tree::{
    attrs_clone, attrs_insert, attrs_shift_remove, clone_node, entries_have_key, entries_insert,
    entries_remove_key, entries_value_of, lemma_node_element_view, lemma_nodes_view_snoc,
    nodes_view, Document, Element, Node, VElement, VNode,
};

verus! {

/// The first `;` at or after `i` (or the text's end).
pub open spec fn next_semi(s: Seq<char>, i: int) -> int
    decreases s.len() - i,
{
    if 0 <= i < s.len() && s[i] != ';' {
        next_semi(s, i + 1)
    } else {
        i
    }
}

/// The first `:` at or after `i` (or the text's end).
pub open spec fn next_colon(s: Seq<char>, i: int) -> int
    decreases s.len() - i,
{
    if 0 <= i < s.len() && s[i] != ':' {
        next_colon(s, i + 1)
    } else {
        i
    }
}

/// Bounds for the two scanners.
pub proof fn lemma_style_scans(s: Seq<char>, i: int)
    requires
        0 <= i <= s.len(),
    ensures
        i <= next_semi(s, i) <= s.len(),
        i <= next_colon(s, i) <= s.len(),
    decreases s.len() - i,
{
    if i < s.len() {
        lemma_style_scans(s, i + 1);
    }
}

/// `s` without trailing whitespace.
pub open spec fn trim_end(s: Seq<char>) -> Seq<char>
    decreases s.len(),
{
    if s.len() > 0 && is_ws(s.last()) {
        trim_end(s.drop_last())
    } else {
        s
    }
}

/// `s` without leading or trailing whitespace.
pub open spec fn trim(s: Seq<char>) -> Seq<char> {
    trim_end(s.subrange(skip_ws(s, 0), s.len() as int))
}

/// One `key: value` declaration, trimmed; nothing when the segment has
/// no colon or an empty key or value.
pub open spec fn seg_prop(seg: Seq<char>) -> Option<(Seq<char>, Seq<char>)> {
    let c = next_colon(seg, 0);
    if c >= seg.len() {
        None
    } else {
        let k = trim(seg.subrange(0, c));
        let v = trim(seg.subrange(c + 1, seg.len() as int));
        if k.len() > 0 && v.len() > 0 {
            Some((k, v))
        } else {
            None
        }
    }
}

/// The declarations of a style text from position `i` on, split at `;`.
pub open spec fn style_props(s: Seq<char>, i: int) -> Seq<(Seq<char>, Seq<char>)>
    decreases s.len() - i,
        when 0 <= i <= s.len()
        via style_props_dec
{
    let j = next_semi(s, i);
    let head = match seg_prop(s.subrange(i, j)) {
        Some(p) => seq![p],
        None => Seq::empty(),
    };
    if j >= s.len() {
        head
    } else {
        head + style_props(s, j + 1)
    }
}

#[via_fn]
proof fn style_props_dec(s: Seq<char>, i: int) {
    lemma_style_scans(s, i);
}

/// Skips whitespace, executable (on a plain character vector).
fn skip_ws_v(v: &Vec<char>, i: usize) -> (r: usize)
    requires
        i <= v@.len(),
    ensures
        r == skip_ws(v@, i as int),
        i <= r <= v@.len(),
    decreases v@.len() - i,
{
    if i < v.len() && is_ws_c(v[i]) {
        return skip_ws_v(v, i + 1);
    }
    i
}

/// Trims a character vector on both sides, executable.
pub fn trim_x(v: Vec<char>) -> (r: Vec<char>)
    ensures
        r@ == trim(v@),
{
    let a = skip_ws_v(&v, 0);
    let mut t = chars_sub(&v, a, v.len());
    let mut more = true;
    while more
        invariant
            trim_end(t@) == trim_end(v@.subrange(skip_ws(v@, 0), v@.len() as int)),
            !more ==> !(t@.len() > 0 && is_ws(t@.last())),
        decreases t@.len() + (if more {
            1int
        } else {
            0int
        }),
    {
        if t.len() > 0 {
            let c = t[t.len() - 1];
            if is_ws_c(c) {
                t.pop();
            } else {
                more = false;
            }
        } else {
            more = false;
        }
    }
    proof {
        assert(trim_end(t@) == t@);
    }
    t
}

/// Splits a style text into its declarations: exactly `style_props`.
pub fn parse_style(s: &str) -> (r: Vec<(String, String)>)
    ensures
        r@.len() == style_props(s@, 0).len(),
        forall|q: int|
            0 <= q < r@.len() ==> ((#[trigger] r@[q]).0@, r@[q].1@) == style_props(s@, 0)[q],
{
    let v = str_to_chars(s);
    let ghost sv = v@;
    let mut out: Vec<(String, String)> = Vec::new();
    let mut i: usize = 0;
    let mut done = false;
    while !done
        invariant
            i <= v@.len(),
            sv == v@,
            !done ==> Seq::new(out@.len(), |q: int| (out@[q].0@, out@[q].1@)) + style_props(
                sv,
                i as int,
            ) == style_props(sv, 0),
            done ==> Seq::new(out@.len(), |q: int| (out@[q].0@, out@[q].1@)) == style_props(sv, 0),
        decreases v@.len() - i + (if done {
            0int
        } else {
            1int
        }),
    {
        proof {
            lemma_style_scans(sv, i as int);
        }
        let ghost out0 = out@;
        let mut j: usize = i;
        while j < v.len() && v[j] != ';'
            invariant
                i <= j <= v@.len(),
                sv == v@,
                next_semi(sv, i as int) == next_semi(sv, j as int),
            decreases v@.len() - j,
        {
            j = j + 1;
        }
        proof {
            assert(j == next_semi(sv, i as int));
        }
        let seg = chars_sub(&v, i, j);
        let mut k: usize = 0;
        while k < seg.len() && seg[k] != ':'
            invariant
                k <= seg@.len(),
                next_colon(seg@, 0) == next_colon(seg@, k as int),
            decreases seg@.len() - k,
        {
            k = k + 1;
        }
        proof {
            assert(k == next_colon(seg@, 0));
        }
        if k < seg.len() {
            let kk = trim_x(chars_sub(&seg, 0, k));
            let vvv = trim_x(chars_sub(&seg, k + 1, seg.len()));
            if kk.len() > 0 && vvv.len() > 0 {
                let ks = chars_to_string(&kk);
                let vs2 = chars_to_string(&vvv);
                out.push((ks, vs2));
                proof {
                    assert(seg@ == sv.subrange(i as int, j as int));
                    assert(seg_prop(sv.subrange(i as int, j as int)) == Some((kk@, vvv@)));
                    assert(Seq::new(out@.len(), |q: int| (out@[q].0@, out@[q].1@)) =~= Seq::new(
                        out0.len(),
                        |q: int| (out0[q].0@, out0[q].1@),
                    ).push((kk@, vvv@)));
                }
            } else {
                proof {
                    assert(seg_prop(sv.subrange(i as int, j as int)) is None);
                }
            }
        } else {
            proof {
                assert(seg_prop(sv.subrange(i as int, j as int)) is None);
            }
        }
        if j >= v.len() {
            done = true;
            proof {
                assert(Seq::new(out@.len(), |q: int| (out@[q].0@, out@[q].1@)) + Seq::<
                    (Seq<char>, Seq<char>),
                >::empty() =~= Seq::new(out@.len(), |q: int| (out@[q].0@, out@[q].1@)));
                assert(Seq::new(out@.len(), |q: int| (out@[q].0@, out@[q].1@)) =~= style_props(
                    sv,
                    0,
                ));
            }
        } else {
            i = j + 1;
            proof {
                assert(Seq::new(out@.len(), |q: int| (out@[q].0@, out@[q].1@)) + style_props(
                    sv,
                    i as int,
                ) =~= style_props(sv, 0));
            }
        }
    }
    out
}

/// The attribute list after style conversion: `style` removed, each
/// declaration inserted in order.
pub open spec fn style_attrs(attrs: Seq<(Seq<char>, Seq<char>)>, props: Seq<(Seq<char>, Seq<char>)>, j: int) -> Seq<(Seq<char>, Seq<char>)>
    decreases props.len() - j,
{
    if j < 0 || j >= props.len() {
        attrs
    } else {
        style_attrs(entries_insert(attrs, props[j].0, props[j].1), props, j + 1)
    }
}

/// The tree after style conversion, from position `k` on.
pub open spec fn conv_style_spec(ns: Seq<VNode>, k: int) -> Seq<VNode>
    decreases ns, ns.len() - k,
{
    if k < 0 || k >= ns.len() {
        Seq::empty()
    } else {
        let rest = conv_style_spec(ns, k + 1);
        match ns[k] {
            VNode::Element(e) => {
                let a2 = if entries_have_key(e.attrs, "style"@) {
                    style_attrs(
                        entries_remove_key(e.attrs, "style"@),
                        style_props(entries_value_of(e.attrs, "style"@), 0),
                        0,
                    )
                } else {
                    e.attrs
                };
                seq![
                    VNode::Element(
                        VElement { name: e.name, attrs: a2, children: conv_style_spec(e.children, 0) },
                    ),
                ] + rest
            },
            _ => seq![ns[k]] + rest,
        }
    }
}

/// Rebuilds a node list with styles converted: exactly
/// `conv_style_spec`.
fn conv_style_nodes(ns: &Vec<Node>) -> (r: Vec<Node>)
    ensures
        nodes_view(r@) == conv_style_spec(nodes_view(ns@), 0),
    decreases ns@,
{
    let ghost vs = nodes_view(ns@);
    let mut out: Vec<Node> = Vec::new();
    let mut i: usize = 0;
    while i < ns.len()
        invariant
            i <= ns@.len(),
            vs == nodes_view(ns@),
            vs.len() == ns@.len(),
            nodes_view(out@) + conv_style_spec(vs, i as int) == conv_style_spec(vs, 0),
        decreases ns@.len() - i,
    {
        let ghost out0 = out@;
        proof {
            assert(vs[i as int] == ns@[i as int].view());
        }
        match &ns[i] {
            Node::Element(e) => {
                proof {
                    lemma_node_element_view(*e);
                    assert(decreases_to!(ns@ => ns@[i as int]->Element_0.children@));
                }
                let ch = conv_style_nodes(&e.children);
                let mut am = attrs_clone(&e.attributes);
                match attrs_shift_remove(&mut am, "style") {
                    Some(styleval) => {
                        let props = parse_style(styleval.as_str());
                        let ghost pv = style_props(styleval@, 0);
                        let mut j: usize = 0;
                        while j < props.len()
                            invariant
                                j <= props@.len(),
                                pv.len() == props@.len(),
                                forall|q: int|
                                    0 <= q < props@.len() ==> ((#[trigger] props@[q]).0@,
                                    props@[q].1@) == pv[q],
                                style_attrs(crate::tree::attr_entries(am), pv, j as int)
                                    == style_attrs(
                                    entries_remove_key(
                                        crate::tree::attr_entries(e.attributes),
                                        "style"@,
                                    ),
                                    pv,
                                    0,
                                ),
                            decreases props@.len() - j,
                        {
                            let (pk, pvv) = (props[j].0.clone(), props[j].1.clone());
                            attrs_insert(&mut am, pk, pvv);
                            j = j + 1;
                        }
                    },
                    None => {},
                }
                let e2 = Element { name: e.name.clone(), attributes: am, children: ch };
                proof {
                    lemma_node_element_view(e2);
                }
                out.push(Node::Element(e2));
                proof {
                    lemma_nodes_view_snoc(out@);
                    assert(out@.drop_last() =~= out0);
                    assert(nodes_view(out@) + conv_style_spec(vs, i + 1) =~~= conv_style_spec(
                        vs,
                        0,
                    ));
                }
            },
            _ => {
                let c = clone_node(&ns[i]);
                let ghost cv = c.view();
                out.push(c);
                proof {
                    lemma_nodes_view_snoc(out@);
                    assert(out@.drop_last() =~= out0);
                    assert(nodes_view(out@) + conv_style_spec(vs, i + 1) =~~= conv_style_spec(
                        vs,
                        0,
                    ));
                }
            },
        }
        i = i + 1;
    }
    proof {
        assert(nodes_view(out@) =~= conv_style_spec(vs, 0));
    }
    out
}

/// The style-to-attributes pass.
pub struct ConvertStyleToAttrs;

impl ConvertStyleToAttrs {
    /// Converts every inline style into attributes.
    pub fn run(doc: &mut Document)
        ensures
            final(doc).view() == conv_style_spec(old(doc).view(), 0),
    {
        let out = conv_style_nodes(&doc.root);
        doc.root = out;
    }
}

impl Plugin for ConvertStyleToAttrs {
    fn apply(&self, doc: &mut Document) {
        ConvertStyleToAttrs::run(doc);
    }
}

} // verus!
