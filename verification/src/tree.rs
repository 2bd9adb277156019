//! The document tree model: nodes, elements and documents, together with
//! their mathematical views and the well-formedness invariant (attribute
//! keys unique per element).
//!
//! Attributes live in indexmap's insertion-ordered map, reached through a
//! small trusted layer whose contracts speak of `attr_entries`, the
//! sequence of key/value pairs in insertion order.

use vstd::prelude::*;
use indexmap::IndexMap;

verus! {

#[verifier::external_type_specification]
#[verifier::external_body]
#[verifier::reject_recursive_types(K)]
#[verifier::reject_recursive_types(V)]
#[verifier::reject_recursive_types(S)]
pub struct ExIndexMap<K, V, S>(IndexMap<K, V, S>);

/// The key/value pairs held by an attribute map, in iteration
/// (= insertion) order.
pub uninterp spec fn attr_entries(m: IndexMap<String, String>) -> Seq<(Seq<char>, Seq<char>)>;

/// Is `k` among the keys of the entry sequence `s`?
pub open spec fn entries_have_key(s: Seq<(Seq<char>, Seq<char>)>, k: Seq<char>) -> bool {
    exists|i: int| 0 <= i < s.len() && s[i].0 == k
}

/// The position of key `k` in `s` (meaningful when `entries_have_key` and
/// keys are unique).
pub open spec fn entries_key_pos(s: Seq<(Seq<char>, Seq<char>)>, k: Seq<char>) -> int {
    choose|i: int| 0 <= i < s.len() && s[i].0 == k
}

/// The value bound to key `k` in `s`.
pub open spec fn entries_value_of(s: Seq<(Seq<char>, Seq<char>)>, k: Seq<char>) -> Seq<char> {
    s[entries_key_pos(s, k)].1
}

/// No key occurs twice.
pub open spec fn entries_unique(s: Seq<(Seq<char>, Seq<char>)>) -> bool {
    forall|i: int, j: int| 0 <= i < j < s.len() ==> s[i].0 != s[j].0
}

/// Insertion with last-write-wins semantics: an existing key keeps its
/// position and gets the new value, a new key is appended at the end.
pub open spec fn entries_insert(
    s: Seq<(Seq<char>, Seq<char>)>,
    k: Seq<char>,
    v: Seq<char>,
) -> Seq<(Seq<char>, Seq<char>)> {
    if entries_have_key(s, k) {
        s.update(entries_key_pos(s, k), (k, v))
    } else {
        s.push((k, v))
    }
}

/// Insertion preserves key uniqueness.
pub proof fn lemma_entries_insert_unique(s: Seq<(Seq<char>, Seq<char>)>, k: Seq<char>, v: Seq<char>)
    requires
        entries_unique(s),
    ensures
        entries_unique(entries_insert(s, k, v)),
        forall|k2: Seq<char>|
            entries_have_key(entries_insert(s, k, v), k2) <==> (entries_have_key(s, k2) || k2
                == k),
{
    let t = entries_insert(s, k, v);
    if entries_have_key(s, k) {
        let p = entries_key_pos(s, k);
        assert(0 <= p < s.len() && s[p].0 == k);
        assert forall|i: int, j: int| 0 <= i < j < t.len() implies t[i].0 != t[j].0 by {
            assert(s[i].0 != s[j].0);
        }
        assert forall|k2: Seq<char>|
            entries_have_key(t, k2) <==> (entries_have_key(s, k2) || k2 == k) by {
            if entries_have_key(t, k2) {
                let i = choose|i: int| 0 <= i < t.len() && t[i].0 == k2;
                assert(s[i].0 == t[i].0);
            }
            if entries_have_key(s, k2) {
                let i = choose|i: int| 0 <= i < s.len() && s[i].0 == k2;
                assert(t[i].0 == s[i].0);
            }
            if k2 == k {
                assert(t[p].0 == k2);
            }
        }
    } else {
        assert forall|i: int, j: int| 0 <= i < j < t.len() implies t[i].0 != t[j].0 by {
            if j < s.len() {
                assert(s[i].0 != s[j].0);
            } else {
                assert(t[j].0 == k);
                assert(s[i].0 != k) by {
                    if s[i].0 == k {
                        assert(entries_have_key(s, k));
                    }
                };
            }
        }
        assert forall|k2: Seq<char>|
            entries_have_key(t, k2) <==> (entries_have_key(s, k2) || k2 == k) by {
            if entries_have_key(t, k2) {
                let i = choose|i: int| 0 <= i < t.len() && t[i].0 == k2;
                if i < s.len() {
                    assert(s[i].0 == k2);
                }
            }
            if entries_have_key(s, k2) {
                let i = choose|i: int| 0 <= i < s.len() && s[i].0 == k2;
                assert(t[i].0 == k2);
            }
            if k2 == k {
                assert(t[s.len() as int].0 == k2);
            }
        }
    }
}

/// Relies on indexmap's `IndexMap::new`: creates an empty map.
#[verifier::external_body]
pub(crate) fn attrs_new() -> (m: IndexMap<String, String>)
    ensures
        attr_entries(m) == Seq::<(Seq<char>, Seq<char>)>::empty(),
{
    IndexMap::new()
}

/// Relies on indexmap's `IndexMap::get`: looks a key up; the value comes
/// back cloned.
#[verifier::external_body]
pub(crate) fn attrs_get(m: &IndexMap<String, String>, k: &str) -> (r: Option<String>)
    ensures
        match r {
            Some(v) => entries_have_key(attr_entries(*m), k@) && v@ == entries_value_of(
                attr_entries(*m),
                k@,
            ),
            None => !entries_have_key(attr_entries(*m), k@),
        },
{
    m.get(k).cloned()
}

/// Relies on indexmap's `IndexMap::insert`: an existing key keeps its
/// place and only its value changes; a new key is appended at the end.
#[verifier::external_body]
pub(crate) fn attrs_insert(m: &mut IndexMap<String, String>, k: String, v: String)
    ensures
        attr_entries(*final(m)) == entries_insert(attr_entries(*old(m)), k@, v@),
{
    m.insert(k, v);
}

/// Relies on indexmap's `IndexMap::shift_remove`: removes the key's entry
/// and shifts the entries behind it down, keeping their order.
#[verifier::external_body]
pub(crate) fn attrs_shift_remove(m: &mut IndexMap<String, String>, k: &str) -> (r: Option<String>)
    ensures
        match r {
            Some(v) => {
                &&& entries_have_key(attr_entries(*old(m)), k@)
                &&& v@ == entries_value_of(attr_entries(*old(m)), k@)
                &&& attr_entries(*final(m)) == attr_entries(*old(m)).remove(
                    entries_key_pos(attr_entries(*old(m)), k@),
                )
            },
            None => {
                &&& !entries_have_key(attr_entries(*old(m)), k@)
                &&& attr_entries(*final(m)) == attr_entries(*old(m))
            },
        },
{
    m.shift_remove(k)
}

/// Relies on indexmap's iteration order (insertion order): hands the
/// entries out as cloned pairs.
#[verifier::external_body]
pub(crate) fn attrs_entries_vec(m: &IndexMap<String, String>) -> (r: Vec<(String, String)>)
    ensures
        r@.len() == attr_entries(*m).len(),
        forall|i: int|
            0 <= i < r@.len() ==> (#[trigger] r@[i].0@, r@[i].1@) == attr_entries(*m)[i],
{
    m.iter().map(|(k, v)| (k.clone(), v.clone())).collect()
}

// ---------------------------------------------------------------------
// The tree itself
// ---------------------------------------------------------------------
/// A node of the document tree: a closed variant, owned by its parent.
pub enum Node {
    Element(Element),
    Text(String),
    Comment(String),
    Cdata(String),
    Doctype(String),
    ProcessingInstruction(String, Option<String>),
}

/// An element: a name (possibly with a `prefix:` segment), an ordered
/// attribute map with unique keys, and an ordered child list.
pub struct Element {
    pub name: String,
    pub attributes: IndexMap<String, String>,
    pub children: Vec<Node>,
}

/// A whole document: the top-level nodes, normally one root element with
/// optional leading comments or processing instructions.
pub struct Document {
    pub root: Vec<Node>,
}

// ---------------------------------------------------------------------
// Mathematical views
// ---------------------------------------------------------------------
/// The view of a node: the same shape over `Seq` values.
#[verifier::ext_equal]
pub enum VNode {
    Element(VElement),
    Text(Seq<char>),
    Comment(Seq<char>),
    Cdata(Seq<char>),
    Doctype(Seq<char>),
    ProcessingInstruction(Seq<char>, Option<Seq<char>>),
}

/// The view of an element.
#[verifier::ext_equal]
pub struct VElement {
    pub name: Seq<char>,
    pub attrs: Seq<(Seq<char>, Seq<char>)>,
    pub children: Seq<VNode>,
}

impl Node {
    /// The mathematical value of this node.
    pub open spec fn view(self) -> VNode
        decreases self,
    {
        match self {
            Node::Element(e) => VNode::Element(
                VElement {
                    name: e.name@,
                    attrs: attr_entries(e.attributes),
                    children: Seq::new(
                        e.children@.len(),
                        |i: int|
                            if 0 <= i < e.children@.len() {
                                e.children@[i].view()
                            } else {
                                VNode::Text(Seq::empty())
                            },
                    ),
                },
            ),
            Node::Text(s) => VNode::Text(s@),
            Node::Comment(s) => VNode::Comment(s@),
            Node::Cdata(s) => VNode::Cdata(s@),
            Node::Doctype(s) => VNode::Doctype(s@),
            Node::ProcessingInstruction(t, c) => VNode::ProcessingInstruction(
                t@,
                match c {
                    Some(s) => Some(s@),
                    None => None,
                },
            ),
        }
    }
}

/// The views of a whole child list.
pub open spec fn nodes_view(nodes: Seq<Node>) -> Seq<VNode> {
    Seq::new(nodes.len(), |i: int| nodes[i].view())
}

impl Element {
    /// The mathematical value of this element.
    pub open spec fn view(self) -> VElement {
        VElement {
            name: self.name@,
            attrs: attr_entries(self.attributes),
            children: nodes_view(self.children@),
        }
    }
}

impl Document {
    /// The mathematical value of this document: its top-level nodes.
    pub open spec fn view(self) -> Seq<VNode> {
        nodes_view(self.root@)
    }
}

impl VNode {
    /// Well-formed: attribute keys unique, in every element of the tree.
    pub open spec fn wf(self) -> bool
        decreases self,
    {
        match self {
            VNode::Element(e) => entries_unique(e.attrs) && forall|i: int|
                0 <= i < e.children.len() ==> (#[trigger] e.children[i]).wf(),
            _ => true,
        }
    }
}

/// A node built from an element views as the element's view.
pub proof fn lemma_node_element_view(e: Element)
    ensures
        Node::Element(e).view() == VNode::Element(e.view()),
{
    let a = Node::Element(e).view();
    let b = VNode::Element(e.view());
    assert(a is Element && b is Element);
    assert(a->Element_0.children =~= b->Element_0.children);
    assert(a->Element_0 =~~= b->Element_0);
}

/// Well-formed child list.
pub open spec fn nodes_wf(nodes: Seq<VNode>) -> bool {
    forall|i: int| 0 <= i < nodes.len() ==> (#[trigger] nodes[i]).wf()
}

impl Element {
    /// Builds an element with the given name, no attributes and no
    /// children.
    pub fn new(name: &str) -> (e: Element)
        ensures
            e.view().name == name@,
            e.view().attrs == Seq::<(Seq<char>, Seq<char>)>::empty(),
            e.view().children == Seq::<VNode>::empty(),
    {
        Element { name: name.to_owned(), attributes: attrs_new(), children: Vec::new() }
    }
}

impl Document {
    /// Builds an empty document.
    pub fn new() -> (d: Document)
        ensures
            d.view() == Seq::<VNode>::empty(),
    {
        Document { root: Vec::new() }
    }
}

/// Removal of a key from an entry sequence: drops the first entry with
/// that key, if any.
pub open spec fn entries_remove_key(s: Seq<(Seq<char>, Seq<char>)>, k: Seq<char>) -> Seq<
    (Seq<char>, Seq<char>),
> {
    if entries_have_key(s, k) {
        s.remove(entries_key_pos(s, k))
    } else {
        s
    }
}

/// Relies on indexmap's `Clone`: the copy holds the same entries in the
/// same order.
#[verifier::external_body]
pub(crate) fn attrs_clone(m: &IndexMap<String, String>) -> (r: IndexMap<String, String>)
    ensures
        attr_entries(r) == attr_entries(*m),
{
    m.clone()
}

/// A deep copy of a node, equal in view.
pub fn clone_node(n: &Node) -> (r: Node)
    ensures
        r.view() == n.view(),
    decreases n,
{
    match n {
        Node::Element(e) => {
            let mut children: Vec<Node> = Vec::new();
            let mut i: usize = 0;
            while i < e.children.len()
                invariant
                    *n == Node::Element(*e),
                    i <= e.children@.len(),
                    nodes_view(children@) == nodes_view(e.children@).take(i as int),
                decreases e.children@.len() - i,
            {
                let ghost old_children = children@;
                proof {
                    assert(decreases_to!(*n => n->Element_0.children@[i as int]));
                }
                let c = clone_node(&e.children[i]);
                let ghost cv = c.view();
                children.push(c);
                proof {
                    assert(children@.last().view() == cv);
                    lemma_nodes_view_snoc(children@);
                    assert(children@.drop_last() =~= old_children);
                    assert(nodes_view(children@) =~= nodes_view(e.children@).take(i + 1));
                }
                i = i + 1;
            }
            let e2 = Element {
                name: e.name.clone(),
                attributes: attrs_clone(&e.attributes),
                children,
            };
            proof {
                assert(nodes_view(e2.children@) =~= nodes_view(e.children@));
                assert(e2.view() =~~= e.view());
                lemma_node_element_view(e2);
                lemma_node_element_view(*e);
            }
            Node::Element(e2)
        },
        Node::Text(s) => Node::Text(s.clone()),
        Node::Comment(s) => Node::Comment(s.clone()),
        Node::Cdata(s) => Node::Cdata(s.clone()),
        Node::Doctype(s) => Node::Doctype(s.clone()),
        Node::ProcessingInstruction(t, c) => Node::ProcessingInstruction(
            t.clone(),
            match c {
                Some(s) => Some(s.clone()),
                None => None,
            },
        ),
    }
}

/// The value of an attribute of an element, cloned.
pub fn get_attr(e: &Element, k: &str) -> (r: Option<String>)
    ensures
        match r {
            Some(v) => entries_have_key(e.view().attrs, k@) && v@ == entries_value_of(
                e.view().attrs,
                k@,
            ),
            None => !entries_have_key(e.view().attrs, k@),
        },
{
    attrs_get(&e.attributes, k)
}

/// A non-empty node list's views are the views of its front plus the
/// view of its last node.
pub proof fn lemma_nodes_view_snoc(s: Seq<Node>)
    requires
        s.len() > 0,
    ensures
        nodes_view(s) =~= nodes_view(s.drop_last()).push(s.last().view()),
{
}

/// The views of a vector of strings.
pub open spec fn strs_view(ss: Seq<String>) -> Seq<Seq<char>> {
    Seq::new(ss.len(), |k: int| ss[k]@)
}

/// Does the vector hold a string with this text?
pub fn strs_contain(v: &Vec<String>, s: &str) -> (r: bool)
    ensures
        r == strs_view(v@).contains(s@),
{
    let mut i: usize = 0;
    while i < v.len()
        invariant
            i <= v@.len(),
            forall|q: int| 0 <= q < i ==> strs_view(v@)[q] != s@,
        decreases v@.len() - i,
    {
        if crate::strutil::str_eq(v[i].as_str(), s) {
            proof {
                assert(strs_view(v@)[i as int] == s@);
            }
            return true;
        }
        i = i + 1;
    }
    proof {
        if strs_view(v@).contains(s@) {
            let q = choose|q: int| 0 <= q < strs_view(v@).len() && strs_view(v@)[q] == s@;
            assert(false);
        }
    }
    false
}

} // verus!
