//! Laws of the liveness-driven pruning passes: what unused-id stripping
//! and unreferenced-definition removal leave behind, and when running
//! the pair twice equals running it once.

use vstd::prelude::*;
use crate::plugins::cleanup_ids::{strip_id_attrs, strip_ids_spec};
use crate::plugins::collections::{
    attrs_refs, children_refs, live_ids, node_refs, try_url, url_refs, value_refs,
};
use crate::plugins::remove_useless_defs::{keep_live, rm_defs_spec};
use crate::tree::{
    entries_have_key, entries_key_pos, entries_remove_key, entries_unique, entries_value_of,
    nodes_wf, VElement, VNode,
};

verus! {

/// Every id in the subtree is live: the invariant unused-id stripping
/// establishes.
pub open spec fn node_ids_live(n: VNode, live: Seq<Seq<char>>) -> bool
    decreases n,
{
    match n {
        VNode::Element(e) => (entries_have_key(e.attrs, "id"@) ==> live.contains(
            entries_value_of(e.attrs, "id"@),
        )) && (forall|i: int|
            0 <= i < e.children.len() ==> node_ids_live(#[trigger] e.children[i], live)),
        _ => true,
    }
}

/// Every definition container in the subtree is non-empty and holds only
/// element children with live ids: the invariant unreferenced-definition
/// removal establishes.
pub open spec fn node_defs_clean(n: VNode, live: Seq<Seq<char>>) -> bool
    decreases n,
{
    match n {
        VNode::Element(e) => (e.name == "defs"@ ==> e.children.len() > 0 && (forall|i: int|
            0 <= i < e.children.len() ==> (#[trigger] e.children[i]) is Element
                && entries_have_key(e.children[i]->Element_0.attrs, "id"@) && live.contains(
                entries_value_of(e.children[i]->Element_0.attrs, "id"@),
            ))) && (forall|i: int|
            0 <= i < e.children.len() ==> node_defs_clean(#[trigger] e.children[i], live)),
        _ => true,
    }
}

/// Removing a key from a unique-keyed entry list removes it for good.
pub proof fn lemma_remove_key_gone(s: Seq<(Seq<char>, Seq<char>)>, k: Seq<char>)
    requires
        entries_unique(s),
    ensures
        !entries_have_key(entries_remove_key(s, k), k),
        entries_unique(entries_remove_key(s, k)),
{
    if entries_have_key(s, k) {
        let p = entries_key_pos(s, k);
        let t = s.remove(p);
        assert forall|i: int| 0 <= i < t.len() implies t[i].0 != k by {
            if i < p {
                assert(s[i] == t[i]);
            } else {
                assert(s[i + 1] == t[i]);
            }
        }
        assert forall|i: int, j: int| 0 <= i < j < t.len() implies t[i].0 != t[j].0 by {
            let si = if i < p {
                i
            } else {
                i + 1
            };
            let sj = if j < p {
                j
            } else {
                j + 1
            };
            assert(s[si] == t[i] && s[sj] == t[j]);
        }
        if entries_have_key(t, k) {
            let w = choose|i: int| 0 <= i < t.len() && t[i].0 == k;
            assert(false);
        }
    }
}

/// Unused-id stripping leaves only live ids behind.
pub proof fn lemma_strip_gives_live(ns: Seq<VNode>, k: int, live: Seq<Seq<char>>)
    requires
        nodes_wf(ns),
        0 <= k <= ns.len(),
    ensures
        forall|i: int|
            0 <= i < strip_ids_spec(ns, k, live).len() ==> node_ids_live(
                #[trigger] strip_ids_spec(ns, k, live)[i],
                live,
            ),
        nodes_wf(strip_ids_spec(ns, k, live)),
    decreases ns, ns.len() - k,
{
    if k < ns.len() {
        lemma_strip_gives_live(ns, k + 1, live);
        let rest = strip_ids_spec(ns, k + 1, live);
        match ns[k] {
            VNode::Element(e) => {
                assert(ns[k].wf());
                assert(nodes_wf(e.children)) by {
                    assert(forall|i: int|
                        0 <= i < e.children.len() ==> (#[trigger] e.children[i]).wf());
                }
                lemma_strip_gives_live(e.children, 0, live);
                let a2 = strip_id_attrs(e.attrs, live);
                lemma_remove_key_gone(e.attrs, "id"@);
                let e2 = VElement {
                    name: e.name,
                    attrs: a2,
                    children: strip_ids_spec(e.children, 0, live),
                };
                assert(node_ids_live(VNode::Element(e2), live));
                assert(VNode::Element(e2).wf());
                assert forall|i: int|
                    0 <= i < strip_ids_spec(ns, k, live).len() implies node_ids_live(
                    #[trigger] strip_ids_spec(ns, k, live)[i],
                    live,
                ) by {
                    if i > 0 {
                        assert(strip_ids_spec(ns, k, live)[i] == rest[i - 1]);
                    }
                }
                assert forall|i: int|
                    0 <= i < strip_ids_spec(ns, k, live).len() implies (
                #[trigger] strip_ids_spec(ns, k, live)[i]).wf() by {
                    if i > 0 {
                        assert(strip_ids_spec(ns, k, live)[i] == rest[i - 1]);
                    }
                }
            },
            _ => {
                assert forall|i: int|
                    0 <= i < strip_ids_spec(ns, k, live).len() implies node_ids_live(
                    #[trigger] strip_ids_spec(ns, k, live)[i],
                    live,
                ) && strip_ids_spec(ns, k, live)[i].wf() by {
                    if i > 0 {
                        assert(strip_ids_spec(ns, k, live)[i] == rest[i - 1]);
                    }
                }
            },
        }
    }
}

/// On a subtree whose ids are all live, stripping changes nothing.
pub proof fn lemma_strip_identity(ns: Seq<VNode>, k: int, live: Seq<Seq<char>>)
    requires
        0 <= k <= ns.len(),
        forall|i: int| k <= i < ns.len() ==> node_ids_live(#[trigger] ns[i], live),
    ensures
        strip_ids_spec(ns, k, live) == ns.skip(k),
    decreases ns, ns.len() - k,
{
    if k >= ns.len() {
        assert(strip_ids_spec(ns, k, live) =~= ns.skip(k));
    } else {
        lemma_strip_identity(ns, k + 1, live);
        match ns[k] {
            VNode::Element(e) => {
                assert(node_ids_live(ns[k], live));
                assert(forall|i: int|
                    0 <= i < e.children.len() ==> node_ids_live(#[trigger] e.children[i], live));
                lemma_strip_identity(e.children, 0, live);
                assert(e.children.skip(0) =~= e.children);
                assert(strip_id_attrs(e.attrs, live) == e.attrs);
                assert(VNode::Element(
                    VElement { name: e.name, attrs: e.attrs, children: e.children },
                ) =~~= ns[k]);
                assert(strip_ids_spec(ns, k, live) =~= ns.skip(k));
            },
            _ => {
                assert(strip_ids_spec(ns, k, live) =~= ns.skip(k));
            },
        }
    }
}

/// On a child list of live-id elements, the definition filter keeps
/// everything.
pub proof fn lemma_keep_live_identity(ns: Seq<VNode>, j: int, live: Seq<Seq<char>>)
    requires
        0 <= j <= ns.len(),
        forall|i: int|
            j <= i < ns.len() ==> (#[trigger] ns[i]) is Element && entries_have_key(
                ns[i]->Element_0.attrs,
                "id"@,
            ) && live.contains(entries_value_of(ns[i]->Element_0.attrs, "id"@)),
    ensures
        keep_live(ns, j, live) == ns.skip(j),
    decreases ns.len() - j,
{
    if j >= ns.len() {
        assert(keep_live(ns, j, live) =~= ns.skip(j));
    } else {
        lemma_keep_live_identity(ns, j + 1, live);
        assert(keep_live(ns, j, live) =~= ns.skip(j));
    }
}

/// Unreferenced-definition removal leaves every definition container
/// non-empty, holding only element children with live ids. This is the
/// cascade guarantee: a `defs` emptied by pruning is itself gone.
pub proof fn lemma_defs_removal_prunes(ns: Seq<VNode>, k: int, live: Seq<Seq<char>>)
    requires
        0 <= k <= ns.len(),
    ensures
        forall|i: int|
            0 <= i < rm_defs_spec(ns, k, live).len() ==> node_defs_clean(
                #[trigger] rm_defs_spec(ns, k, live)[i],
                live,
            ),
    decreases ns, ns.len() - k,
{
    if k < ns.len() {
        lemma_defs_removal_prunes(ns, k + 1, live);
        let rest = rm_defs_spec(ns, k + 1, live);
        match ns[k] {
            VNode::Element(e) => {
                lemma_defs_removal_prunes(e.children, 0, live);
                let ch = rm_defs_spec(e.children, 0, live);
                if e.name == "defs"@ {
                    lemma_keep_live_props(ch, 0, live);
                }
                let ch2 = if e.name == "defs"@ {
                    keep_live(ch, 0, live)
                } else {
                    ch
                };
                if !(e.name == "defs"@ && ch2.len() == 0) {
                    let e2 = VElement { name: e.name, attrs: e.attrs, children: ch2 };
                    assert(node_defs_clean(VNode::Element(e2), live));
                }
                assert forall|i: int|
                    0 <= i < rm_defs_spec(ns, k, live).len() implies node_defs_clean(
                    #[trigger] rm_defs_spec(ns, k, live)[i],
                    live,
                ) by {
                    let whole = rm_defs_spec(ns, k, live);
                    if whole.len() > rest.len() && i > 0 {
                        assert(whole[i] == rest[i - 1]);
                    }
                }
            },
            _ => {
                assert forall|i: int|
                    0 <= i < rm_defs_spec(ns, k, live).len() implies node_defs_clean(
                    #[trigger] rm_defs_spec(ns, k, live)[i],
                    live,
                ) by {
                    if i > 0 {
                        assert(rm_defs_spec(ns, k, live)[i] == rest[i - 1]);
                    }
                }
            },
        }
    }
}

/// What survives the definition filter: element children with live ids,
/// still clean below.
pub proof fn lemma_keep_live_props(ns: Seq<VNode>, j: int, live: Seq<Seq<char>>)
    requires
        0 <= j <= ns.len(),
        forall|i: int| 0 <= i < ns.len() ==> node_defs_clean(#[trigger] ns[i], live),
    ensures
        forall|i: int|
            0 <= i < keep_live(ns, j, live).len() ==> (#[trigger] keep_live(ns, j, live)[i])
                is Element && entries_have_key(
                keep_live(ns, j, live)[i]->Element_0.attrs,
                "id"@,
            ) && live.contains(
                entries_value_of(keep_live(ns, j, live)[i]->Element_0.attrs, "id"@),
            ) && node_defs_clean(keep_live(ns, j, live)[i], live),
    decreases ns.len() - j,
{
    if j < ns.len() {
        lemma_keep_live_props(ns, j + 1, live);
        let rest = keep_live(ns, j + 1, live);
        assert forall|i: int|
            0 <= i < keep_live(ns, j, live).len() implies (#[trigger] keep_live(ns, j, live)[i])
            is Element && entries_have_key(keep_live(ns, j, live)[i]->Element_0.attrs, "id"@)
            && live.contains(
            entries_value_of(keep_live(ns, j, live)[i]->Element_0.attrs, "id"@),
        ) && node_defs_clean(keep_live(ns, j, live)[i], live) by {
            if keep_live(ns, j, live).len() > rest.len() {
                if i > 0 {
                    assert(keep_live(ns, j, live)[i] == rest[i - 1]);
                }
            } else {
                assert(keep_live(ns, j, live)[i] == rest[i]);
            }
        }
    }
}

/// On a subtree whose definitions are already clean, definition removal
/// changes nothing.
pub proof fn lemma_defs_identity(ns: Seq<VNode>, k: int, live: Seq<Seq<char>>)
    requires
        0 <= k <= ns.len(),
        forall|i: int| k <= i < ns.len() ==> node_defs_clean(#[trigger] ns[i], live),
    ensures
        rm_defs_spec(ns, k, live) == ns.skip(k),
    decreases ns, ns.len() - k,
{
    if k >= ns.len() {
        assert(rm_defs_spec(ns, k, live) =~= ns.skip(k));
    } else {
        lemma_defs_identity(ns, k + 1, live);
        match ns[k] {
            VNode::Element(e) => {
                assert(node_defs_clean(ns[k], live));
                assert(forall|i: int|
                    0 <= i < e.children.len() ==> node_defs_clean(#[trigger] e.children[i], live));
                lemma_defs_identity(e.children, 0, live);
                assert(e.children.skip(0) =~= e.children);
                let ch = rm_defs_spec(e.children, 0, live);
                assert(ch == e.children);
                if e.name == "defs"@ {
                    lemma_keep_live_identity(e.children, 0, live);
                    assert(keep_live(ch, 0, live) == e.children);
                }
                assert(VNode::Element(
                    VElement { name: e.name, attrs: e.attrs, children: e.children },
                ) =~~= ns[k]);
                assert(rm_defs_spec(ns, k, live) =~= ns.skip(k));
            },
            _ => {
                assert(rm_defs_spec(ns, k, live) =~= ns.skip(k));
            },
        }
    }
}

/// Definition removal keeps the all-ids-live invariant (it only deletes
/// nodes and never touches a surviving element's attributes).
pub proof fn lemma_defs_preserves_ids_live(ns: Seq<VNode>, k: int, live: Seq<Seq<char>>)
    requires
        0 <= k <= ns.len(),
        forall|i: int| 0 <= i < ns.len() ==> node_ids_live(#[trigger] ns[i], live),
    ensures
        forall|i: int|
            0 <= i < rm_defs_spec(ns, k, live).len() ==> node_ids_live(
                #[trigger] rm_defs_spec(ns, k, live)[i],
                live,
            ),
    decreases ns, ns.len() - k,
{
    if k < ns.len() {
        lemma_defs_preserves_ids_live(ns, k + 1, live);
        let rest = rm_defs_spec(ns, k + 1, live);
        match ns[k] {
            VNode::Element(e) => {
                assert(node_ids_live(ns[k], live));
                assert(forall|i: int|
                    0 <= i < e.children.len() ==> node_ids_live(#[trigger] e.children[i], live));
                lemma_defs_preserves_ids_live(e.children, 0, live);
                let ch = rm_defs_spec(e.children, 0, live);
                let ch2 = if e.name == "defs"@ {
                    keep_live(ch, 0, live)
                } else {
                    ch
                };
                assert(forall|i: int|
                    0 <= i < ch2.len() ==> node_ids_live(#[trigger] ch2[i], live)) by {
                    if e.name == "defs"@ {
                        lemma_keep_live_subset(ch, 0, live);
                    }
                }
                if !(e.name == "defs"@ && ch2.len() == 0) {
                    let e2 = VElement { name: e.name, attrs: e.attrs, children: ch2 };
                    assert(node_ids_live(VNode::Element(e2), live));
                }
                assert forall|i: int|
                    0 <= i < rm_defs_spec(ns, k, live).len() implies node_ids_live(
                    #[trigger] rm_defs_spec(ns, k, live)[i],
                    live,
                ) by {
                    let whole = rm_defs_spec(ns, k, live);
                    if whole.len() > rest.len() && i > 0 {
                        assert(whole[i] == rest[i - 1]);
                    }
                }
            },
            _ => {
                assert forall|i: int|
                    0 <= i < rm_defs_spec(ns, k, live).len() implies node_ids_live(
                    #[trigger] rm_defs_spec(ns, k, live)[i],
                    live,
                ) by {
                    if i > 0 {
                        assert(rm_defs_spec(ns, k, live)[i] == rest[i - 1]);
                    }
                }
            },
        }
    }
}

/// The definition filter keeps only nodes of the list, so any pointwise
/// property carries over.
pub proof fn lemma_keep_live_subset(ns: Seq<VNode>, j: int, live: Seq<Seq<char>>)
    requires
        0 <= j <= ns.len(),
        forall|i: int| 0 <= i < ns.len() ==> node_ids_live(#[trigger] ns[i], live),
    ensures
        forall|i: int|
            0 <= i < keep_live(ns, j, live).len() ==> node_ids_live(
                #[trigger] keep_live(ns, j, live)[i],
                live,
            ),
    decreases ns.len() - j,
{
    if j < ns.len() {
        lemma_keep_live_subset(ns, j + 1, live);
        let rest = keep_live(ns, j + 1, live);
        assert forall|i: int|
            0 <= i < keep_live(ns, j, live).len() implies node_ids_live(
            #[trigger] keep_live(ns, j, live)[i],
            live,
        ) by {
            if keep_live(ns, j, live).len() > rest.len() {
                if i > 0 {
                    assert(keep_live(ns, j, live)[i] == rest[i - 1]);
                }
            } else {
                assert(keep_live(ns, j, live)[i] == rest[i]);
            }
        }
    }
}

/// Liveness-driven pruning is idempotent: when one round of unused-id
/// stripping followed by unreferenced-definition removal does not change
/// the live-id set (no removed node carried a reference), a second
/// round changes nothing.
pub proof fn lemma_prune_idempotent(ns: Seq<VNode>)
    requires
        nodes_wf(ns),
        live_ids(strip_ids_spec(ns, 0, live_ids(ns))) == live_ids(ns),
        live_ids(
            rm_defs_spec(strip_ids_spec(ns, 0, live_ids(ns)), 0, live_ids(ns)),
        ) == live_ids(ns),
    ensures
        ({
            let live = live_ids(ns);
            let once = rm_defs_spec(strip_ids_spec(ns, 0, live), 0, live);
            let stripped2 = strip_ids_spec(once, 0, live_ids(once));
            rm_defs_spec(stripped2, 0, live_ids(stripped2)) == once
        }),
{
    let live = live_ids(ns);
    let after1 = strip_ids_spec(ns, 0, live);
    let once = rm_defs_spec(after1, 0, live);
    lemma_strip_gives_live(ns, 0, live);
    lemma_defs_preserves_ids_live(after1, 0, live);
    assert(live_ids(once) == live);
    lemma_strip_identity(once, 0, live);
    assert(once.skip(0) =~= once);
    let stripped2 = strip_ids_spec(once, 0, live_ids(once));
    assert(stripped2 == once);
    lemma_defs_removal_prunes(after1, 0, live);
    lemma_defs_identity(once, 0, live);
    assert(rm_defs_spec(stripped2, 0, live_ids(stripped2)) == once);
}

// ---------------------------------------------------------------------
// Order sensitivity of the pruning pair
// ---------------------------------------------------------------------
/// A definition with a live id.
pub open spec fn w_rect() -> VNode {
    VNode::Element(VElement { name: "rect"@, attrs: seq![("id"@, "a"@)], children: Seq::empty() })
}

/// The referencing element: its own id is dead, and it alone keeps the
/// definition's id alive.
pub open spec fn w_use() -> VNode {
    VNode::Element(
        VElement {
            name: "use"@,
            attrs: seq![("id"@, "b"@), ("href"@, "#a"@)],
            children: Seq::empty(),
        },
    )
}

/// The witness document: both elements inside one definition container.
pub open spec fn w_doc() -> Seq<VNode> {
    seq![
        VNode::Element(
            VElement {
                name: "svg"@,
                attrs: Seq::empty(),
                children: seq![
                    VNode::Element(
                        VElement {
                            name: "defs"@,
                            attrs: Seq::empty(),
                            children: seq![w_rect(), w_use()],
                        },
                    ),
                ],
            },
        ),
    ]
}

/// The witness's literals, and the references its attribute values hold:
/// only the whole-value fragment `#a` references anything.
proof fn lemma_w_refs()
    ensures
        value_refs("a"@) =~= Seq::<Seq<char>>::empty(),
        value_refs("b"@) =~= Seq::<Seq<char>>::empty(),
        value_refs("#a"@) =~= seq!["a"@],
        "a"@ != "b"@,
        "id"@ != "href"@,
        "svg"@ != "defs"@,
        "rect"@ != "defs"@,
        "use"@ != "defs"@,
{
    reveal_strlit("a");
    reveal_strlit("b");
    reveal_strlit("#a");
    reveal_strlit("id");
    reveal_strlit("href");
    reveal_strlit("svg");
    reveal_strlit("rect");
    reveal_strlit("use");
    reveal_strlit("defs");
    assert("a"@.len() == 1 && "b"@.len() == 1 && "#a"@.len() == 2);
    assert("a"@[0] == 'a' && "b"@[0] == 'b');
    assert("id"@.len() == 2 && "href"@.len() == 4);
    assert("svg"@.len() == 3 && "defs"@.len() == 4 && "rect"@.len() == 4 && "use"@.len() == 3);
    assert("rect"@[0] == 'r' && "defs"@[0] == 'd');
    assert(try_url("a"@, 0) is None);
    assert(url_refs("a"@, 1) =~= Seq::<Seq<char>>::empty());
    assert(url_refs("a"@, 0) =~= Seq::<Seq<char>>::empty());
    assert(value_refs("a"@) =~= Seq::<Seq<char>>::empty());
    assert(try_url("b"@, 0) is None);
    assert(url_refs("b"@, 1) =~= Seq::<Seq<char>>::empty());
    assert(url_refs("b"@, 0) =~= Seq::<Seq<char>>::empty());
    assert(value_refs("b"@) =~= Seq::<Seq<char>>::empty());
    assert(try_url("#a"@, 0) is None);
    assert(try_url("#a"@, 1) is None);
    assert(url_refs("#a"@, 2) =~= Seq::<Seq<char>>::empty());
    assert(url_refs("#a"@, 1) =~= Seq::<Seq<char>>::empty());
    assert(url_refs("#a"@, 0) =~= Seq::<Seq<char>>::empty());
    assert("#a"@[0] == '#');
    assert("#a"@.subrange(1, 2) =~= "a"@);
    assert(value_refs("#a"@) =~= seq!["a"@]);
}

/// The live-id set of the witness (and of its id-stripped form): just
/// the definition's id.
proof fn lemma_w_live()
    ensures
        live_ids(w_doc()) =~= seq!["a"@],
{
    lemma_w_refs();
    let rect = w_rect();
    let use_e = w_use();
    assert(attrs_refs(rect->Element_0.attrs, 1) =~= Seq::<Seq<char>>::empty());
    assert(attrs_refs(rect->Element_0.attrs, 0) =~= Seq::<Seq<char>>::empty());
    assert(children_refs(rect->Element_0.children, 0) =~= Seq::<Seq<char>>::empty());
    assert(node_refs(rect) =~= Seq::<Seq<char>>::empty());
    assert(attrs_refs(use_e->Element_0.attrs, 2) =~= Seq::<Seq<char>>::empty());
    assert(attrs_refs(use_e->Element_0.attrs, 1) =~= seq!["a"@]);
    assert(attrs_refs(use_e->Element_0.attrs, 0) =~= seq!["a"@]);
    assert(children_refs(use_e->Element_0.children, 0) =~= Seq::<Seq<char>>::empty());
    assert(node_refs(use_e) =~= seq!["a"@]);
    let defs = w_doc()[0]->Element_0.children[0];
    assert(children_refs(defs->Element_0.children, 2) =~= Seq::<Seq<char>>::empty());
    assert(children_refs(defs->Element_0.children, 1) =~= seq!["a"@]);
    assert(children_refs(defs->Element_0.children, 0) =~= seq!["a"@]);
    assert(attrs_refs(defs->Element_0.attrs, 0) =~= Seq::<Seq<char>>::empty());
    assert(node_refs(defs) =~= seq!["a"@]);
    let svg = w_doc()[0];
    assert(attrs_refs(svg->Element_0.attrs, 0) =~= Seq::<Seq<char>>::empty());
    assert(children_refs(svg->Element_0.children, 1) =~= Seq::<Seq<char>>::empty());
    assert(children_refs(svg->Element_0.children, 0) =~= seq!["a"@]);
    assert(node_refs(svg) =~= seq!["a"@]);
    assert(children_refs(w_doc(), 1) =~= Seq::<Seq<char>>::empty());
    assert(children_refs(w_doc(), 0) =~= seq!["a"@]);
}

/// The witness after unused-id stripping: only the referencing
/// element's dead id is gone.
pub open spec fn w_use_stripped() -> VNode {
    VNode::Element(
        VElement { name: "use"@, attrs: seq![("href"@, "#a"@)], children: Seq::empty() },
    )
}

/// The stripped witness document.
pub open spec fn w_doc_stripped() -> Seq<VNode> {
    seq![
        VNode::Element(
            VElement {
                name: "svg"@,
                attrs: Seq::empty(),
                children: seq![
                    VNode::Element(
                        VElement {
                            name: "defs"@,
                            attrs: Seq::empty(),
                            children: seq![w_rect(), w_use_stripped()],
                        },
                    ),
                ],
            },
        ),
    ]
}

/// The witness after definition pruning: only the definition remains.
pub open spec fn w_doc_pruned(r: VNode) -> Seq<VNode> {
    seq![
        VNode::Element(
            VElement {
                name: "svg"@,
                attrs: Seq::empty(),
                children: seq![
                    VNode::Element(
                        VElement { name: "defs"@, attrs: Seq::empty(), children: seq![r] },
                    ),
                ],
            },
        ),
    ]
}

/// The definition with its id stripped away.
pub open spec fn w_rect_bare() -> VNode {
    VNode::Element(VElement { name: "rect"@, attrs: Seq::empty(), children: Seq::empty() })
}

/// Key lookups on the definition's attribute list.
proof fn lemma_w_keys_rect()
    ensures
        entries_have_key(w_rect()->Element_0.attrs, "id"@),
        entries_key_pos(w_rect()->Element_0.attrs, "id"@) == 0,
        entries_value_of(w_rect()->Element_0.attrs, "id"@) == "a"@,
{
    let ra = w_rect()->Element_0.attrs;
    assert(ra[0].0 == "id"@);
    assert(entries_key_pos(ra, "id"@) == 0) by {
        let i = entries_key_pos(ra, "id"@);
        assert(0 <= i < 1 && ra[i].0 == "id"@);
    };
}

/// The two attribute keys of the witness differ.
proof fn lemma_w_key_names()
    ensures
        "id"@ != "href"@,
        "a"@ != "b"@,
{
    reveal_strlit("id");
    reveal_strlit("href");
    reveal_strlit("a");
    reveal_strlit("b");
    assert("id"@.len() == 2 && "href"@.len() == 4);
    assert("a"@[0] == 'a' && "b"@[0] == 'b');
}

/// Key lookups on the referencing element's attribute lists.
proof fn lemma_w_keys_use()
    ensures
        entries_have_key(w_use()->Element_0.attrs, "id"@),
        entries_key_pos(w_use()->Element_0.attrs, "id"@) == 0,
        entries_value_of(w_use()->Element_0.attrs, "id"@) == "b"@,
        !entries_have_key(w_use_stripped()->Element_0.attrs, "id"@),
{
    lemma_w_key_names();
    let ua = w_use()->Element_0.attrs;
    assert(ua[0].0 == "id"@);
    assert(entries_key_pos(ua, "id"@) == 0) by {
        let i = entries_key_pos(ua, "id"@);
        assert(0 <= i < 2 && ua[i].0 == "id"@);
        if i == 1 {
            assert(ua[1].0 == "href"@);
        }
    };
    let sa = w_use_stripped()->Element_0.attrs;
    assert(!entries_have_key(sa, "id"@)) by {
        if entries_have_key(sa, "id"@) {
            let i = choose|i: int| 0 <= i < sa.len() && sa[i].0 == "id"@;
            assert(sa[0].0 == "href"@);
        }
    };
}

/// Membership in the witness's live-id set.
proof fn lemma_w_keys_live()
    ensures
        seq!["a"@].contains("a"@),
        !seq!["a"@].contains("b"@),
        !Seq::<Seq<char>>::empty().contains("a"@),
{
    lemma_w_key_names();
    assert(seq!["a"@][0] == "a"@);
    assert(!seq!["a"@].contains("b"@)) by {
        if seq!["a"@].contains("b"@) {
            let i = choose|i: int| 0 <= i < seq!["a"@].len() && seq!["a"@][i] == "b"@;
            assert(seq!["a"@][i] == "a"@);
        }
    };
}

/// Key lookups on the witness's attribute lists.
proof fn lemma_w_keys()
    ensures
        entries_have_key(w_rect()->Element_0.attrs, "id"@),
        entries_key_pos(w_rect()->Element_0.attrs, "id"@) == 0,
        entries_value_of(w_rect()->Element_0.attrs, "id"@) == "a"@,
        entries_have_key(w_use()->Element_0.attrs, "id"@),
        entries_key_pos(w_use()->Element_0.attrs, "id"@) == 0,
        entries_value_of(w_use()->Element_0.attrs, "id"@) == "b"@,
        !entries_have_key(w_use_stripped()->Element_0.attrs, "id"@),
        seq!["a"@].contains("a"@),
        !seq!["a"@].contains("b"@),
        !Seq::<Seq<char>>::empty().contains("a"@),
{
    lemma_w_keys_rect();
    lemma_w_keys_use();
    lemma_w_keys_live();
}

/// Stripping the witness against its live-id set removes exactly the
/// referencing element's id.
proof fn lemma_w_strip()
    ensures
        strip_ids_spec(w_doc(), 0, seq!["a"@]) == w_doc_stripped(),
{
    lemma_w_refs();
    lemma_w_keys();
    let live = seq!["a"@];
    let kids = seq![w_rect(), w_use()];
    assert(strip_ids_spec(Seq::<VNode>::empty(), 0, live) =~= Seq::<VNode>::empty());
    assert(strip_id_attrs(w_rect()->Element_0.attrs, live) == w_rect()->Element_0.attrs);
    assert(strip_id_attrs(w_use()->Element_0.attrs, live) =~= w_use_stripped()->Element_0.attrs) by {
        assert(entries_remove_key(w_use()->Element_0.attrs, "id"@) =~= w_use_stripped()->Element_0.attrs);
    };
    assert(strip_ids_spec(kids, 2, live) =~= Seq::<VNode>::empty());
    assert(strip_ids_spec(kids, 1, live) =~~= seq![w_use_stripped()]);
    assert(strip_ids_spec(kids, 0, live) =~~= seq![w_rect(), w_use_stripped()]);
    let defs = w_doc()[0]->Element_0.children[0];
    assert(strip_id_attrs(defs->Element_0.attrs, live) == defs->Element_0.attrs) by {
        assert(!entries_have_key(defs->Element_0.attrs, "id"@));
    };
    let dkids = w_doc()[0]->Element_0.children;
    assert(strip_ids_spec(dkids, 1, live) =~= Seq::<VNode>::empty());
    assert(strip_ids_spec(dkids, 0, live) =~~= w_doc_stripped()[0]->Element_0.children);
    assert(strip_id_attrs(w_doc()[0]->Element_0.attrs, live) == w_doc()[0]->Element_0.attrs) by {
        assert(!entries_have_key(w_doc()[0]->Element_0.attrs, "id"@));
    };
    assert(strip_ids_spec(w_doc(), 1, live) =~= Seq::<VNode>::empty());
    assert(strip_ids_spec(w_doc(), 0, live) =~~= w_doc_stripped());
}

/// The stripped witness still references the definition's id.
proof fn lemma_w_live_stripped()
    ensures
        live_ids(w_doc_stripped()) =~= seq!["a"@],
{
    lemma_w_refs();
    let rect = w_rect();
    let use_s = w_use_stripped();
    assert(attrs_refs(rect->Element_0.attrs, 1) =~= Seq::<Seq<char>>::empty());
    assert(attrs_refs(rect->Element_0.attrs, 0) =~= Seq::<Seq<char>>::empty());
    assert(children_refs(rect->Element_0.children, 0) =~= Seq::<Seq<char>>::empty());
    assert(node_refs(rect) =~= Seq::<Seq<char>>::empty());
    assert(attrs_refs(use_s->Element_0.attrs, 1) =~= Seq::<Seq<char>>::empty());
    assert(attrs_refs(use_s->Element_0.attrs, 0) =~= seq!["a"@]);
    assert(children_refs(use_s->Element_0.children, 0) =~= Seq::<Seq<char>>::empty());
    assert(node_refs(use_s) =~= seq!["a"@]);
    let defs = w_doc_stripped()[0]->Element_0.children[0];
    assert(children_refs(defs->Element_0.children, 2) =~= Seq::<Seq<char>>::empty());
    assert(children_refs(defs->Element_0.children, 1) =~= seq!["a"@]);
    assert(children_refs(defs->Element_0.children, 0) =~= seq!["a"@]);
    assert(attrs_refs(defs->Element_0.attrs, 0) =~= Seq::<Seq<char>>::empty());
    assert(node_refs(defs) =~= seq!["a"@]);
    let svg = w_doc_stripped()[0];
    assert(attrs_refs(svg->Element_0.attrs, 0) =~= Seq::<Seq<char>>::empty());
    assert(children_refs(svg->Element_0.children, 1) =~= Seq::<Seq<char>>::empty());
    assert(children_refs(svg->Element_0.children, 0) =~= seq!["a"@]);
    assert(node_refs(svg) =~= seq!["a"@]);
    assert(children_refs(w_doc_stripped(), 1) =~= Seq::<Seq<char>>::empty());
    assert(children_refs(w_doc_stripped(), 0) =~= seq!["a"@]);
}

/// Pruning either form of the witness against the live set keeps only
/// the definition (with whatever attributes `r` carries there).
proof fn lemma_w_prune(u: VNode)
    requires
        u == w_use() || u == w_use_stripped(),
    ensures
        rm_defs_spec(w_doc_pruned_input(u), 0, seq!["a"@]) == w_doc_pruned(w_rect()),
{
    lemma_w_refs();
    lemma_w_keys();
    let live = seq!["a"@];
    let kids = seq![w_rect(), u];
    assert(rm_defs_spec(Seq::<VNode>::empty(), 0, live) =~= Seq::<VNode>::empty());
    assert(rm_defs_spec(kids, 2, live) =~= Seq::<VNode>::empty());
    assert(rm_defs_spec(kids, 1, live) =~~= seq![u]) by {
        assert(u->Element_0.name != "defs"@);
        assert(rm_defs_spec(u->Element_0.children, 0, live) =~= Seq::<VNode>::empty());
    };
    assert(rm_defs_spec(kids, 0, live) =~~= seq![w_rect(), u]) by {
        assert(rm_defs_spec(w_rect()->Element_0.children, 0, live) =~= Seq::<VNode>::empty());
    };
    assert(keep_live(seq![w_rect(), u], 2, live) =~= Seq::<VNode>::empty());
    assert(keep_live(seq![w_rect(), u], 1, live) =~= Seq::<VNode>::empty()) by {
        if u == w_use() {
            assert(!live.contains(entries_value_of(u->Element_0.attrs, "id"@)));
        } else {
            assert(!entries_have_key(u->Element_0.attrs, "id"@));
        }
    };
    assert(keep_live(seq![w_rect(), u], 0, live) =~= seq![w_rect()]);
    let doc = w_doc_pruned_input(u);
    let dkids = doc[0]->Element_0.children;
    assert(rm_defs_spec(dkids, 1, live) =~= Seq::<VNode>::empty());
    assert(rm_defs_spec(dkids, 0, live) =~~= w_doc_pruned(w_rect())[0]->Element_0.children);
    assert(rm_defs_spec(doc, 1, live) =~= Seq::<VNode>::empty());
    assert(rm_defs_spec(doc, 0, live) =~~= w_doc_pruned(w_rect()));
}

/// The witness document holding `u` as the second definition child.
pub open spec fn w_doc_pruned_input(u: VNode) -> Seq<VNode> {
    seq![
        VNode::Element(
            VElement {
                name: "svg"@,
                attrs: Seq::empty(),
                children: seq![
                    VNode::Element(
                        VElement {
                            name: "defs"@,
                            attrs: Seq::empty(),
                            children: seq![w_rect(), u],
                        },
                    ),
                ],
            },
        ),
    ]
}

/// Nothing references anything in the pruned witness.
proof fn lemma_w_live_pruned()
    ensures
        live_ids(w_doc_pruned(w_rect())) =~= Seq::<Seq<char>>::empty(),
{
    lemma_w_refs();
    let rect = w_rect();
    assert(attrs_refs(rect->Element_0.attrs, 1) =~= Seq::<Seq<char>>::empty());
    assert(attrs_refs(rect->Element_0.attrs, 0) =~= Seq::<Seq<char>>::empty());
    assert(children_refs(rect->Element_0.children, 0) =~= Seq::<Seq<char>>::empty());
    assert(node_refs(rect) =~= Seq::<Seq<char>>::empty());
    let defs = w_doc_pruned(rect)[0]->Element_0.children[0];
    assert(children_refs(defs->Element_0.children, 1) =~= Seq::<Seq<char>>::empty());
    assert(children_refs(defs->Element_0.children, 0) =~= Seq::<Seq<char>>::empty());
    assert(attrs_refs(defs->Element_0.attrs, 0) =~= Seq::<Seq<char>>::empty());
    assert(node_refs(defs) =~= Seq::<Seq<char>>::empty());
    let svg = w_doc_pruned(rect)[0];
    assert(attrs_refs(svg->Element_0.attrs, 0) =~= Seq::<Seq<char>>::empty());
    assert(children_refs(svg->Element_0.children, 1) =~= Seq::<Seq<char>>::empty());
    assert(children_refs(svg->Element_0.children, 0) =~= Seq::<Seq<char>>::empty());
    assert(node_refs(svg) =~= Seq::<Seq<char>>::empty());
    assert(children_refs(w_doc_pruned(rect), 1) =~= Seq::<Seq<char>>::empty());
    assert(children_refs(w_doc_pruned(rect), 0) =~= Seq::<Seq<char>>::empty());
}

/// Stripping the pruned witness against the empty live set takes the
/// definition's id away.
proof fn lemma_w_strip_pruned()
    ensures
        strip_ids_spec(w_doc_pruned(w_rect()), 0, Seq::<Seq<char>>::empty()) == w_doc_pruned(
            w_rect_bare(),
        ),
{
    lemma_w_refs();
    lemma_w_keys();
    let live = Seq::<Seq<char>>::empty();
    assert(strip_ids_spec(Seq::<VNode>::empty(), 0, live) =~= Seq::<VNode>::empty());
    assert(strip_id_attrs(w_rect()->Element_0.attrs, live) =~= w_rect_bare()->Element_0.attrs) by {
        assert(entries_key_pos(w_rect()->Element_0.attrs, "id"@) == 0);
        assert(entries_remove_key(w_rect()->Element_0.attrs, "id"@)
            =~= w_rect_bare()->Element_0.attrs);
    };
    let kids = seq![w_rect()];
    assert(strip_ids_spec(kids, 1, live) =~= Seq::<VNode>::empty());
    assert(strip_ids_spec(kids, 0, live) =~~= seq![w_rect_bare()]);
    let doc = w_doc_pruned(w_rect());
    let defs = doc[0]->Element_0.children[0];
    assert(strip_id_attrs(defs->Element_0.attrs, live) == defs->Element_0.attrs) by {
        assert(!entries_have_key(defs->Element_0.attrs, "id"@));
    };
    let dkids = doc[0]->Element_0.children;
    assert(strip_ids_spec(dkids, 1, live) =~= Seq::<VNode>::empty());
    assert(strip_ids_spec(dkids, 0, live) =~~= w_doc_pruned(w_rect_bare())[0]->Element_0.children);
    assert(strip_id_attrs(doc[0]->Element_0.attrs, live) == doc[0]->Element_0.attrs) by {
        assert(!entries_have_key(doc[0]->Element_0.attrs, "id"@));
    };
    assert(strip_ids_spec(doc, 1, live) =~= Seq::<VNode>::empty());
    assert(strip_ids_spec(doc, 0, live) =~~= w_doc_pruned(w_rect_bare()));
}

/// The mandated pass order matters: on the witness document, running
/// unused-id stripping before unreferenced-definition removal keeps the
/// definition with its id, while the opposite order first deletes the
/// only referencing element and then strips the definition's id — the
/// two orders yield different trees. This is the pipeline's ordering
/// obligation, shown of the passes' specifications.
pub proof fn lemma_prune_order_sensitive()
    ensures
        ({
            let ns = w_doc();
            let a1 = strip_ids_spec(ns, 0, live_ids(ns));
            let strip_first = rm_defs_spec(a1, 0, live_ids(a1));
            let d1 = rm_defs_spec(ns, 0, live_ids(ns));
            let defs_first = strip_ids_spec(d1, 0, live_ids(d1));
            strip_first != defs_first
        }),
{
    lemma_w_refs();
    lemma_w_live();
    lemma_w_keys();
    let ns = w_doc();
    assert(live_ids(ns) == seq!["a"@]);
    lemma_w_strip();
    let a1 = strip_ids_spec(ns, 0, live_ids(ns));
    assert(a1 == w_doc_stripped());
    lemma_w_live_stripped();
    assert(live_ids(a1) == seq!["a"@]);
    assert(w_doc_stripped() == w_doc_pruned_input(w_use_stripped())) by {
        assert(w_doc_stripped() =~~= w_doc_pruned_input(w_use_stripped()));
    };
    lemma_w_prune(w_use_stripped());
    let strip_first = rm_defs_spec(a1, 0, live_ids(a1));
    assert(strip_first == w_doc_pruned(w_rect()));
    assert(w_doc() == w_doc_pruned_input(w_use())) by {
        assert(w_doc() =~~= w_doc_pruned_input(w_use()));
    };
    lemma_w_prune(w_use());
    let d1 = rm_defs_spec(ns, 0, live_ids(ns));
    assert(d1 == w_doc_pruned(w_rect()));
    lemma_w_live_pruned();
    assert(live_ids(d1) == Seq::<Seq<char>>::empty());
    lemma_w_strip_pruned();
    let defs_first = strip_ids_spec(d1, 0, live_ids(d1));
    assert(defs_first == w_doc_pruned(w_rect_bare()));
    assert(strip_first != defs_first) by {
        if strip_first == defs_first {
            let pa = w_doc_pruned(w_rect())[0]->Element_0.children[0]->Element_0.children[0];
            let pb = w_doc_pruned(w_rect_bare())[0]->Element_0.children[0]->Element_0.children[0];
            assert(pa == pb);
            assert(pa->Element_0.attrs.len() == 1);
            assert(pb->Element_0.attrs.len() == 0);
        }
    };
}


} // verus!
