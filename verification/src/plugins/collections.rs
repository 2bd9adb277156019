//! The reference liveness analysis: a pure traversal that collects every
//! identifier referenced anywhere in the tree, through `url(#ident)`
//! occurrences inside attribute values and through attribute values that
//! are one whole `#ident` fragment reference.

use vstd::prelude::*;
use crate::strutil::{chars_sub, chars_to_string, str_to_chars};
use crate::tree::{attrs_entries_vec, nodes_view, Node, VNode};

verus! {

/// Is `c` whitespace (as the reference pattern reads it)? The class is
/// the ascii one: space, tab, line feed, carriage return, vertical tab
/// and form feed; whitespace beyond ascii does not count.
pub open spec fn is_ws(c: char) -> bool {
    c == ' ' || c == '\t' || c == '\n' || c == '\r' || c == '\u{b}' || c == '\u{c}'
}

/// Is `c` whitespace, executable.
pub fn is_ws_c(c: char) -> (r: bool)
    ensures
        r == is_ws(c),
{
    c == ' ' || c == '\t' || c == '\n' || c == '\r' || c == '\u{b}' || c == '\u{c}'
}

/// The first non-whitespace position at or after `i`.
pub open spec fn skip_ws(s: Seq<char>, i: int) -> int
    decreases s.len() - i,
{
    if 0 <= i < s.len() && is_ws(s[i]) {
        skip_ws(s, i + 1)
    } else {
        i
    }
}

/// The end of an identifier run: characters that are neither whitespace
/// nor `)`.
pub open spec fn scan_id(s: Seq<char>, i: int) -> int
    decreases s.len() - i,
{
    if 0 <= i < s.len() && !is_ws(s[i]) && s[i] != ')' {
        scan_id(s, i + 1)
    } else {
        i
    }
}

/// Bounds for the two scanners.
pub proof fn lemma_ref_scans(s: Seq<char>, i: int)
    requires
        0 <= i <= s.len(),
    ensures
        i <= skip_ws(s, i) <= s.len(),
        i <= scan_id(s, i) <= s.len(),
    decreases s.len() - i,
{
    if i < s.len() {
        lemma_ref_scans(s, i + 1);
    }
}

/// One `url( # ident )` occurrence starting at `i`: literal `url`,
/// optional whitespace, `(`, optional whitespace, `#`, one or more
/// non-whitespace-non-`)` characters, optional whitespace, `)`. Yields
/// the identifier and the position after the `)`.
pub open spec fn try_url(s: Seq<char>, i: int) -> Option<(Seq<char>, int)> {
    if 0 <= i && i + 3 <= s.len() && s.subrange(i, i + 3) == "url"@ {
        let a = skip_ws(s, i + 3);
        if a < s.len() && s[a] == '(' {
            let b = skip_ws(s, a + 1);
            if b < s.len() && s[b] == '#' {
                let c = scan_id(s, b + 1);
                if c > b + 1 {
                    let d = skip_ws(s, c);
                    if d < s.len() && s[d] == ')' {
                        Some((s.subrange(b + 1, c), d + 1))
                    } else {
                        None
                    }
                } else {
                    None
                }
            } else {
                None
            }
        } else {
            None
        }
    } else {
        None
    }
}

/// `try_url` only moves forward.
pub proof fn lemma_try_url(s: Seq<char>, i: int)
    requires
        0 <= i <= s.len(),
    ensures
        match try_url(s, i) {
            Some(r) => i < r.1 <= s.len(),
            None => true,
        },
{
    if 0 <= i && i + 3 <= s.len() && s.subrange(i, i + 3) == "url"@ {
        lemma_ref_scans(s, i + 3);
        let a = skip_ws(s, i + 3);
        if a < s.len() && s[a] == '(' {
            lemma_ref_scans(s, a + 1);
            let b = skip_ws(s, a + 1);
            if b < s.len() && s[b] == '#' {
                lemma_ref_scans(s, b + 1);
                let c = scan_id(s, b + 1);
                if c > b + 1 {
                    lemma_ref_scans(s, c);
                }
            }
        }
    }
}

/// All identifiers referenced through `url(#...)` from position `i` on,
/// leftmost first, non-overlapping.
pub open spec fn url_refs(s: Seq<char>, i: int) -> Seq<Seq<char>>
    decreases s.len() - i,
        when 0 <= i <= s.len()
        via url_refs_dec
{
    if i >= s.len() {
        Seq::empty()
    } else {
        match try_url(s, i) {
            Some(r) => seq![r.0] + url_refs(s, r.1),
            None => url_refs(s, i + 1),
        }
    }
}

#[via_fn]
proof fn url_refs_dec(s: Seq<char>, i: int) {
    lemma_try_url(s, i);
}

/// Every identifier referenced by one attribute value: its `url(#...)`
/// occurrences, and the whole value when it is a bare `#ident`.
pub open spec fn value_refs(s: Seq<char>) -> Seq<Seq<char>> {
    url_refs(s, 0) + (if s.len() > 1 && s[0] == '#' {
        seq![s.subrange(1, s.len() as int)]
    } else {
        Seq::empty()
    })
}

/// The references of an attribute list from position `j` on.
pub open spec fn attrs_refs(attrs: Seq<(Seq<char>, Seq<char>)>, j: int) -> Seq<Seq<char>>
    decreases attrs.len() - j,
{
    if j < 0 || j >= attrs.len() {
        Seq::empty()
    } else {
        value_refs(attrs[j].1) + attrs_refs(attrs, j + 1)
    }
}

/// The references of one node: its attribute values' references, then
/// its children's.
pub open spec fn node_refs(n: VNode) -> Seq<Seq<char>>
    decreases n, 0int,
{
    match n {
        VNode::Element(e) => attrs_refs(e.attrs, 0) + children_refs(e.children, 0),
        _ => Seq::empty(),
    }
}

/// The references of a node list from position `j` on.
pub open spec fn children_refs(ns: Seq<VNode>, j: int) -> Seq<Seq<char>>
    decreases ns, ns.len() - j,
{
    if j < 0 || j >= ns.len() {
        Seq::empty()
    } else {
        node_refs(ns[j]) + children_refs(ns, j + 1)
    }
}

/// The live-id set of a whole top-level node list.
pub open spec fn live_ids(ns: Seq<VNode>) -> Seq<Seq<char>> {
    children_refs(ns, 0)
}

/// Non-whitespace scan, executable.
fn skip_ws_x(v: &Vec<char>, i: usize) -> (r: usize)
    requires
        i <= v@.len(),
    ensures
        r == skip_ws(v@, i as int),
        i <= r <= v@.len(),
    decreases v@.len() - i,
{
    if i < v.len() && is_ws_c(v[i]) {
        return skip_ws_x(v, i + 1);
    }
    i
}

/// Identifier scan, executable.
fn scan_id_x(v: &Vec<char>, i: usize) -> (r: usize)
    requires
        i <= v@.len(),
    ensures
        r == scan_id(v@, i as int),
        i <= r <= v@.len(),
    decreases v@.len() - i,
{
    if i < v.len() {
        let c = v[i];
        if !is_ws_c(c) && c != ')' {
            return scan_id_x(v, i + 1);
        }
    }
    i
}

/// One `url(#...)` occurrence, executable: exactly `try_url`.
fn try_url_x(v: &Vec<char>, i: usize) -> (r: Option<(Vec<char>, usize)>)
    requires
        i <= v@.len(),
    ensures
        match r {
            Some(p) => try_url(v@, i as int) == Some((p.0@, p.1 as int)) && i < p.1 <= v@.len(),
            None => try_url(v@, i as int) is None,
        },
{
    proof {
        lemma_try_url(v@, i as int);
    }
    if v.len() >= 3 && i <= v.len() - 3 && v[i] == 'u' && v[i + 1] == 'r' && v[i + 2] == 'l' {
        proof {
            assert(v@.subrange(i as int, i + 3) =~= "url"@) by {
                reveal_strlit("url");
            };
        }
        let a = skip_ws_x(v, i + 3);
        if a < v.len() && v[a] == '(' {
            let b = skip_ws_x(v, a + 1);
            if b < v.len() && v[b] == '#' {
                let c = scan_id_x(v, b + 1);
                if c > b + 1 {
                    let d = skip_ws_x(v, c);
                    if d < v.len() && v[d] == ')' {
                        let id = chars_sub(v, b + 1, c);
                        return Some((id, d + 1));
                    }
                }
            }
        }
        None
    } else {
        proof {
            if 0 <= i as int && i + 3 <= v@.len() && v@.subrange(i as int, i + 3) == "url"@ {
                reveal_strlit("url");
                assert(v@.subrange(i as int, i + 3)[0] == v@[i as int]);
                assert(v@.subrange(i as int, i + 3)[1] == v@[i + 1]);
                assert(v@.subrange(i as int, i + 3)[2] == v@[i + 2]);
                assert(false);
            }
        }
        None
    }
}

/// Collects one attribute value's references, executable.
fn collect_value_refs(s: &String, used_ids: &mut Vec<String>)
    ensures
        crate::tree::strs_view(final(used_ids)@) == crate::tree::strs_view(old(used_ids)@)
            + value_refs(s@),
{
    let v = str_to_chars(s.as_str());
    let mut i: usize = 0;
    while i < v.len()
        invariant
            i <= v@.len(),
            v@ == s@,
            crate::tree::strs_view(used_ids@) + url_refs(v@, i as int) == crate::tree::strs_view(
                old(used_ids)@,
            ) + url_refs(v@, 0),
        decreases v@.len() - i,
    {
        let ghost u0 = used_ids@;
        match try_url_x(&v, i) {
            Some((id, e)) => {
                let ids = chars_to_string(&id);
                used_ids.push(ids);
                proof {
                    assert(crate::tree::strs_view(used_ids@) =~= crate::tree::strs_view(u0).push(
                        id@,
                    ));
                    assert(crate::tree::strs_view(used_ids@) + url_refs(v@, e as int)
                        =~= crate::tree::strs_view(old(used_ids)@) + url_refs(v@, 0));
                }
                i = e;
            },
            None => {
                i = i + 1;
            },
        }
    }
    let ghost u1 = used_ids@;
    if v.len() > 1 {
        let c0 = v[0];
        if c0 == '#' {
            let frag = chars_sub(&v, 1, v.len());
            let fs = chars_to_string(&frag);
            used_ids.push(fs);
            proof {
                assert(crate::tree::strs_view(used_ids@) =~= crate::tree::strs_view(u1).push(
                    v@.subrange(1, v@.len() as int),
                ));
            }
        }
    }
    proof {
        assert(url_refs(v@, v@.len() as int) =~= Seq::<Seq<char>>::empty());
        assert(crate::tree::strs_view(used_ids@) =~= crate::tree::strs_view(old(used_ids)@)
            + value_refs(s@));
    }
}

/// Collects every identifier referenced in the subtree of `node` into
/// `used_ids` (appending, in traversal order): exactly `node_refs`.
pub fn find_used_ids(node: &Node, used_ids: &mut Vec<String>)
    ensures
        crate::tree::strs_view(final(used_ids)@) == crate::tree::strs_view(old(used_ids)@)
            + node_refs(node.view()),
    decreases node,
{
    match node {
        Node::Element(e) => {
            proof {
                crate::tree::lemma_node_element_view(*e);
            }
            let ghost ev = node.view()->Element_0;
            let attrs = attrs_entries_vec(&e.attributes);
            let mut j: usize = 0;
            while j < attrs.len()
                invariant
                    *node == Node::Element(*e),
                    ev == node.view()->Element_0,
                    j <= attrs@.len(),
                    attrs@.len() == ev.attrs.len(),
                    forall|q: int|
                        0 <= q < attrs@.len() ==> (#[trigger] attrs@[q].0@, attrs@[q].1@)
                            == ev.attrs[q],
                    crate::tree::strs_view(used_ids@) + attrs_refs(ev.attrs, j as int)
                        == crate::tree::strs_view(old(used_ids)@) + attrs_refs(ev.attrs, 0),
                decreases attrs@.len() - j,
            {
                proof {
                    assert((attrs@[j as int].0@, attrs@[j as int].1@) == ev.attrs[j as int]);
                    assert(attrs@[j as int].1@ == ev.attrs[j as int].1);
                }
                collect_value_refs(&attrs[j].1, used_ids);
                proof {
                    assert(crate::tree::strs_view(used_ids@) + attrs_refs(ev.attrs, j + 1)
                        =~= crate::tree::strs_view(old(used_ids)@) + attrs_refs(ev.attrs, 0));
                }
                j = j + 1;
            }
            let ghost mid = used_ids@;
            let mut q: usize = 0;
            while q < e.children.len()
                invariant
                    *node == Node::Element(*e),
                    ev == node.view()->Element_0,
                    q <= e.children@.len(),
                    ev.children.len() == e.children@.len(),
                    forall|r: int|
                        0 <= r < e.children@.len() ==> ev.children[r] == (
                        #[trigger] e.children@[r]).view(),
                    crate::tree::strs_view(used_ids@) + children_refs(ev.children, q as int)
                        == crate::tree::strs_view(mid) + children_refs(ev.children, 0),
                    crate::tree::strs_view(mid) == crate::tree::strs_view(old(used_ids)@)
                        + attrs_refs(ev.attrs, 0),
                decreases e.children@.len() - q,
            {
                proof {
                    assert(decreases_to!(*node => node->Element_0.children@[q as int]));
                }
                find_used_ids(&e.children[q], used_ids);
                proof {
                    assert(crate::tree::strs_view(used_ids@) + children_refs(ev.children, q + 1)
                        =~= crate::tree::strs_view(mid) + children_refs(ev.children, 0));
                }
                q = q + 1;
            }
            proof {
                assert(crate::tree::strs_view(used_ids@) =~= crate::tree::strs_view(old(used_ids)@)
                    + node_refs(node.view()));
            }
        },
        _ => {
            proof {
                assert(crate::tree::strs_view(used_ids@) =~= crate::tree::strs_view(old(used_ids)@)
                    + node_refs(node.view()));
            }
        },
    }
}

/// Collects the live-id set of a whole document root.
pub fn collect_live_ids(root: &Vec<Node>) -> (r: Vec<String>)
    ensures
        crate::tree::strs_view(r@) == live_ids(nodes_view(root@)),
{
    let ghost vs = nodes_view(root@);
    let mut used: Vec<String> = Vec::new();
    let mut i: usize = 0;
    while i < root.len()
        invariant
            i <= root@.len(),
            vs == nodes_view(root@),
            vs.len() == root@.len(),
            crate::tree::strs_view(used@) + children_refs(vs, i as int) == children_refs(vs, 0),
        decreases root@.len() - i,
    {
        proof {
            assert(vs[i as int] == root@[i as int].view());
        }
        find_used_ids(&root[i], &mut used);
        proof {
            assert(crate::tree::strs_view(used@) + children_refs(vs, i + 1) =~= children_refs(
                vs,
                0,
            ));
        }
        i = i + 1;
    }
    proof {
        assert(crate::tree::strs_view(used@) =~= live_ids(vs));
    }
    used
}

} // verus!
