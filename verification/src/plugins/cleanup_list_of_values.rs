//! Cleans numeric list attributes (`viewBox`, `points`, `dx`, `dy`, `x`,
//! `y`, `rotate`): tokens are normalized to space separation, and every
//! numeric token (an optional `px` suffix dropped) is rounded to the
//! configured precision and re-rendered; anything else passes through.

use vstd::prelude::*;
use crate::numfmt::{fmt_scaled, fmt_scaled_full, format_scaled, format_scaled_full, scan_number};
use crate::path_data::{is_sep, skip_seps, skip_seps_x};
use crate::plugins::Plugin;
use crate::strutil::{chars_sub, chars_to_string, str_to_chars, string_eq_str};
use crate::tree::{
    attrs_clone, attrs_get, attrs_insert, clone_node, entries_have_key, entries_insert,
    entries_value_of, lemma_node_element_view, lemma_nodes_view_snoc, nodes_view, Document,
    Element, Node, VElement, VNode,
};

verus! {

/// The end of the token starting at `i`: the next separator.
pub open spec fn scan_token(s: Seq<char>, i: int) -> int
    decreases s.len() - i,
{
    if 0 <= i < s.len() && !is_sep(s[i]) {
        scan_token(s, i + 1)
    } else {
        i
    }
}

/// Token scanning moves forward and stays in bounds.
pub proof fn lemma_scan_token(s: Seq<char>, i: int)
    requires
        0 <= i <= s.len(),
    ensures
        i <= scan_token(s, i) <= s.len(),
    decreases s.len() - i,
{
    if 0 <= i < s.len() && !is_sep(s[i]) {
        lemma_scan_token(s, i + 1);
    }
}

/// Token scanning, executable.
fn scan_token_x(v: &Vec<char>, i: usize) -> (r: usize)
    requires
        i <= v@.len(),
    ensures
        r == scan_token(v@, i as int),
        i <= r <= v@.len(),
    decreases v@.len() - i,
{
    if i < v.len() {
        let c = v[i];
        if !(c == ' ' || c == ',' || c == '\t' || c == '\n' || c == '\r') {
            return scan_token_x(v, i + 1);
        }
    }
    i
}

/// The token with every trailing `px` removed.
pub open spec fn strip_px(t: Seq<char>) -> Seq<char>
    decreases t.len(),
{
    if t.len() >= 2 && t[t.len() - 2] == 'p' && t[t.len() - 1] == 'x' {
        strip_px(t.subrange(0, t.len() - 2))
    } else {
        t
    }
}

/// One cleaned token: a numeral (after `px` stripping) is re-rendered at
/// precision `p`; anything else stays as written.
pub open spec fn clean_token(t: Seq<char>, p: nat, lz: bool) -> Seq<char> {
    let u = strip_px(t);
    let sc = scan_number(u, 0, p);
    if sc.ok && sc.end == u.len() && u.len() > 0 {
        if lz {
            fmt_scaled(sc.val, p)
        } else {
            fmt_scaled_full(sc.val, p)
        }
    } else {
        t
    }
}

/// The cleaned list text from position `i` on; `first` says whether a
/// separating space is owed before the next token.
pub open spec fn clean_list_spec(s: Seq<char>, i: int, p: nat, lz: bool, first: bool) -> Seq<char>
    decreases s.len() - i,
        when 0 <= i <= s.len()
        via clean_list_dec
{
    let j = skip_seps(s, i);
    if j >= s.len() {
        Seq::empty()
    } else {
        let k = scan_token(s, j);
        let t = clean_token(s.subrange(j, k), p, lz);
        (if first {
            t
        } else {
            seq![' '] + t
        }) + clean_list_spec(s, k, p, lz, false)
    }
}

#[via_fn]
proof fn clean_list_dec(s: Seq<char>, i: int, p: nat, lz: bool, first: bool) {
    crate::path_data::lemma_skip_seps(s, i);
    let j = skip_seps(s, i);
    if j < s.len() {
        lemma_scan_token(s, j + 1);
        assert(!is_sep(s[j]));
        assert(scan_token(s, j) == scan_token(s, j + 1));
        assert(scan_token(s, j) > j);
    }
}

/// Strips trailing `px`, executable.
fn strip_px_x(t: Vec<char>) -> (r: Vec<char>)
    ensures
        r@ == strip_px(t@),
    decreases t@.len(),
{
    if t.len() >= 2 && t[t.len() - 2] == 'p' && t[t.len() - 1] == 'x' {
        let u = chars_sub(&t, 0, t.len() - 2);
        proof {
            assert(u@ =~= t@.subrange(0, t@.len() - 2));
        }
        strip_px_x(u)
    } else {
        t
    }
}

/// Cleans one list value's text: exactly `clean_list_spec`.
pub fn cleanup_list(val: &str, opts: &CleanupListOfValues) -> (r: String)
    ensures
        r@ == clean_list_spec(
            val@,
            0,
            (if opts.float_precision > 9 {
                9nat
            } else {
                opts.float_precision as nat
            }),
            opts.leading_zero,
            true,
        ),
{
    let p: u32 = if opts.float_precision > 9 {
        9
    } else {
        opts.float_precision as u32
    };
    let v = str_to_chars(val);
    let ghost sv = v@;
    let mut out: Vec<char> = Vec::new();
    let mut i: usize = 0;
    let mut first: bool = true;
    while skip_seps_x(&v, i) < v.len()
        invariant
            i <= v@.len(),
            sv == v@,
            p <= 9,
            p as nat == (if opts.float_precision > 9 {
                9nat
            } else {
                opts.float_precision as nat
            }),
            out@ + clean_list_spec(sv, i as int, p as nat, opts.leading_zero, first)
                == clean_list_spec(sv, 0, p as nat, opts.leading_zero, true),
        decreases v@.len() - i,
    {
        let j = skip_seps_x(&v, i);
        proof {
            crate::path_data::lemma_skip_seps(v@, i as int);
            lemma_scan_token(v@, j + 1);
            assert(scan_token(v@, j as int) == scan_token(v@, j + 1));
        }
        let k = scan_token_x(&v, j);
        proof {
            assert(k > j);
        }
        let tok = chars_sub(&v, j, k);
        let stripped = strip_px_x(tok);
        let (ok, num, end) = crate::numfmt::parse_scaled(&stripped, 0, p);
        let cleaned: Vec<char> = if ok && end == stripped.len() && stripped.len() > 0 {
            if opts.leading_zero {
                format_scaled(num, p)
            } else {
                format_scaled_full(num, p)
            }
        } else {
            chars_sub(&v, j, k)
        };
        if !first {
            out.push(' ');
        }
        let ghost cl = cleaned@;
        let mut cmut = cleaned;
        out.append(&mut cmut);
        proof {
            assert(out@ + clean_list_spec(sv, k as int, p as nat, opts.leading_zero, false)
                =~= clean_list_spec(sv, 0, p as nat, opts.leading_zero, true));
        }
        i = k;
        first = false;
    }
    proof {
        assert(clean_list_spec(sv, i as int, p as nat, opts.leading_zero, first) =~= Seq::<
            char,
        >::empty());
        assert(out@ =~= clean_list_spec(sv, 0, p as nat, opts.leading_zero, true));
    }
    chars_to_string(&out)
}

/// Is this attribute one of the numeric list attributes?
pub open spec fn is_list_attr(k: Seq<char>) -> bool {
    k == "viewBox"@ || k == "points"@ || k == "dx"@ || k == "dy"@ || k == "x"@ || k == "y"@ || k
        == "rotate"@
}

/// The attribute list with every numeric list attribute cleaned, walking
/// the element's entries from position `j` on (each cleaned entry keeps
/// its place, since rewriting an existing key preserves order).
pub open spec fn clean_attrs_spec(
    attrs: Seq<(Seq<char>, Seq<char>)>,
    names: Seq<Seq<char>>,
    j: int,
    p: nat,
    lz: bool,
) -> Seq<(Seq<char>, Seq<char>)>
    decreases names.len() - j,
{
    if j < 0 || j >= names.len() {
        attrs
    } else {
        let a2 = if entries_have_key(attrs, names[j]) {
            entries_insert(
                attrs,
                names[j],
                clean_list_spec(entries_value_of(attrs, names[j]), 0, p, lz, true),
            )
        } else {
            attrs
        };
        clean_attrs_spec(a2, names, j + 1, p, lz)
    }
}

/// The fixed list of attributes this pass cleans.
pub open spec fn list_attr_names() -> Seq<Seq<char>> {
    seq!["viewBox"@, "points"@, "dx"@, "dy"@, "x"@, "y"@, "rotate"@]
}

/// The tree after list cleaning, from position `k` on.
pub open spec fn clean_lists_spec(ns: Seq<VNode>, k: int, p: nat, lz: bool) -> Seq<VNode>
    decreases ns, ns.len() - k,
{
    if k < 0 || k >= ns.len() {
        Seq::empty()
    } else {
        let rest = clean_lists_spec(ns, k + 1, p, lz);
        match ns[k] {
            VNode::Element(e) => seq![
                VNode::Element(
                    VElement {
                        name: e.name,
                        attrs: clean_attrs_spec(e.attrs, list_attr_names(), 0, p, lz),
                        children: clean_lists_spec(e.children, 0, p, lz),
                    },
                ),
            ] + rest,
            _ => seq![ns[k]] + rest,
        }
    }
}

/// The numeric-list-cleanup pass, with its options.
pub struct CleanupListOfValues {
    pub float_precision: usize,
    pub leading_zero: bool,
    pub default_px: bool,
    pub convert_to_px: bool,
}

impl Default for CleanupListOfValues {
    /// Three fractional digits; leading zeros stripped; px handling on.
    fn default() -> (r: Self)
        ensures
            r.float_precision == 3 && r.leading_zero && r.default_px && r.convert_to_px,
    {
        CleanupListOfValues {
            float_precision: 3,
            leading_zero: true,
            default_px: true,
            convert_to_px: true,
        }
    }
}

/// Rebuilds a node list with list attributes cleaned: exactly
/// `clean_lists_spec`.
fn clean_lists_nodes(ns: &Vec<Node>, opts: &CleanupListOfValues, p: u32) -> (r: Vec<Node>)
    requires
        p <= 9,
        p as nat == (if opts.float_precision > 9 {
            9nat
        } else {
            opts.float_precision as nat
        }),
    ensures
        nodes_view(r@) == clean_lists_spec(nodes_view(ns@), 0, p as nat, opts.leading_zero),
    decreases ns@,
{
    let ghost vs = nodes_view(ns@);
    let ghost lz = opts.leading_zero;
    let mut out: Vec<Node> = Vec::new();
    let mut i: usize = 0;
    while i < ns.len()
        invariant
            i <= ns@.len(),
            vs == nodes_view(ns@),
            vs.len() == ns@.len(),
            p <= 9,
            lz == opts.leading_zero,
            p as nat == (if opts.float_precision > 9 {
                9nat
            } else {
                opts.float_precision as nat
            }),
            nodes_view(out@) + clean_lists_spec(vs, i as int, p as nat, lz) == clean_lists_spec(
                vs,
                0,
                p as nat,
                lz,
            ),
        decreases ns@.len() - i,
    {
        let ghost out0 = out@;
        proof {
            assert(vs[i as int] == ns@[i as int].view());
        }
        match &ns[i] {
            Node::Element(e) => {
                proof {
                    lemma_node_element_view(*e);
                    assert(decreases_to!(ns@ => ns@[i as int]->Element_0.children@));
                }
                let ch = clean_lists_nodes(&e.children, opts, p);
                let mut am = attrs_clone(&e.attributes);
                let names: [&str; 7] = ["viewBox", "points", "dx", "dy", "x", "y", "rotate"];
                let mut j: usize = 0;
                proof {
                    assert(crate::tree::strs_view(Seq::<String>::empty()) =~= Seq::<
                        Seq<char>,
                    >::empty());
                }
                while j < 7
                    invariant
                        j <= 7,
                        p <= 9,
                        lz == opts.leading_zero,
                        p as nat == (if opts.float_precision > 9 {
                            9nat
                        } else {
                            opts.float_precision as nat
                        }),
                        names@.len() == 7,
                        names@[0]@ == "viewBox"@ && names@[1]@ == "points"@ && names@[2]@ == "dx"@
                            && names@[3]@ == "dy"@ && names@[4]@ == "x"@ && names@[5]@ == "y"@
                            && names@[6]@ == "rotate"@,
                        forall|q: int|
                            0 <= q < 7 ==> #[trigger] list_attr_names()[q] == names@[q]@,
                        clean_attrs_spec(
                            crate::tree::attr_entries(am),
                            list_attr_names(),
                            j as int,
                            p as nat,
                            lz,
                        ) == clean_attrs_spec(
                            crate::tree::attr_entries(e.attributes),
                            list_attr_names(),
                            0,
                            p as nat,
                            lz,
                        ),
                    decreases 7 - j,
                {
                    let nm: &str = names[j];
                    match attrs_get(&am, nm) {
                        Some(val) => {
                            let cleaned = cleanup_list(val.as_str(), opts);
                            attrs_insert(&mut am, nm.to_owned(), cleaned);
                        },
                        None => {},
                    }
                    j = j + 1;
                }
                let e2 = Element { name: e.name.clone(), attributes: am, children: ch };
                proof {
                    lemma_node_element_view(e2);
                }
                out.push(Node::Element(e2));
                proof {
                    lemma_nodes_view_snoc(out@);
                    assert(out@.drop_last() =~= out0);
                    assert(nodes_view(out@) + clean_lists_spec(vs, i + 1, p as nat, lz)
                        =~~= clean_lists_spec(vs, 0, p as nat, lz));
                }
            },
            _ => {
                let c = clone_node(&ns[i]);
                let ghost cv = c.view();
                out.push(c);
                proof {
                    lemma_nodes_view_snoc(out@);
                    assert(out@.drop_last() =~= out0);
                    assert(nodes_view(out@) + clean_lists_spec(vs, i + 1, p as nat, lz)
                        =~~= clean_lists_spec(vs, 0, p as nat, lz));
                }
            },
        }
        i = i + 1;
    }
    proof {
        assert(nodes_view(out@) =~= clean_lists_spec(vs, 0, p as nat, lz));
    }
    out
}

impl CleanupListOfValues {
    /// Cleans every numeric list attribute in the document.
    pub fn run(&self, doc: &mut Document)
        ensures
            final(doc).view() == clean_lists_spec(
                old(doc).view(),
                0,
                (if self.float_precision > 9 {
                    9nat
                } else {
                    self.float_precision as nat
                }),
                self.leading_zero,
            ),
    {
        let p: u32 = if self.float_precision > 9 {
            9
        } else {
            self.float_precision as u32
        };
        let out = clean_lists_nodes(&doc.root, self, p);
        doc.root = out;
    }
}

impl Plugin for CleanupListOfValues {
    fn apply(&self, doc: &mut Document) {
        self.run(doc);
    }
}

} // verus!
