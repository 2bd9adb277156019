//! The tree builder: consumes the tokenizer's event stream and assembles
//! the document tree with correct nesting, keeping an explicit stack of
//! in-progress elements. Tokenizing raw text is done by the outside
//! `xmlparser` crate behind a single trusted wrapper; everything that
//! happens after tokenization is verified against `build_run`, the
//! mathematical description of tree assembly.

use vstd::prelude::*;
use crate::tree::{
    attrs_insert, attrs_new, entries_insert, entries_unique, lemma_entries_insert_unique,
    lemma_node_element_view, lemma_nodes_view_snoc, nodes_view, nodes_wf, Document, Element, Node,
    VElement, VNode,
};
use xmlparser::ElementEnd as XmlEnd;
use xmlparser::StrSpan;
use xmlparser::Token;
use xmlparser::Tokenizer;

verus! {

/// One tokenizer event, reduced to plain values.
pub enum Event {
    ElementStart(String),
    Attribute(String, String),
    ElementEnd,
    Text(String),
    Comment(String),
    Cdata(String),
    ProcessingInstruction(String, Option<String>),
}

/// The view of an event.
pub enum VEvent {
    ElementStart(Seq<char>),
    Attribute(Seq<char>, Seq<char>),
    ElementEnd,
    Text(Seq<char>),
    Comment(Seq<char>),
    Cdata(Seq<char>),
    ProcessingInstruction(Seq<char>, Option<Seq<char>>),
}

impl Event {
    /// The mathematical value of this event.
    pub open spec fn view(self) -> VEvent {
        match self {
            Event::ElementStart(n) => VEvent::ElementStart(n@),
            Event::Attribute(k, v) => VEvent::Attribute(k@, v@),
            Event::ElementEnd => VEvent::ElementEnd,
            Event::Text(s) => VEvent::Text(s@),
            Event::Comment(s) => VEvent::Comment(s@),
            Event::Cdata(s) => VEvent::Cdata(s@),
            Event::ProcessingInstruction(t, c) => VEvent::ProcessingInstruction(
                t@,
                match c {
                    Some(s) => Some(s@),
                    None => None,
                },
            ),
        }
    }
}

/// The views of an event list.
pub open spec fn events_view(evs: Seq<Event>) -> Seq<VEvent> {
    Seq::new(evs.len(), |i: int| evs[i].view())
}

/// The views of a stack of in-progress elements.
pub open spec fn elems_view(s: Seq<Element>) -> Seq<VElement> {
    Seq::new(s.len(), |i: int| s[i].view())
}

/// The builder's state: finished top-level nodes, and the stack of
/// elements whose end tag has not been seen yet (innermost last).
#[verifier::ext_equal]
pub struct BuildState {
    pub root: Seq<VNode>,
    pub stack: Seq<VElement>,
}

/// The builder's starting state.
pub open spec fn build_init() -> BuildState {
    BuildState { root: Seq::empty(), stack: Seq::empty() }
}

/// One step of tree assembly.
///
/// Element starts push a fresh element; attributes go to the top of the
/// stack with last-write-wins semantics; an element end pops the top and
/// appends it to its parent (or to the root when the stack empties).
/// Text, comments, CDATA and processing instructions become children of
/// the innermost open element, or top-level nodes when no element is
/// open.
pub open spec fn build_step(st: BuildState, ev: VEvent) -> BuildState {
    match ev {
        VEvent::ElementStart(n) => BuildState {
            root: st.root,
            stack: st.stack.push(VElement { name: n, attrs: Seq::empty(), children: Seq::empty() }),
        },
        VEvent::Attribute(k, v) => {
            if st.stack.len() == 0 {
                st
            } else {
                let e = st.stack.last();
                let e2 = VElement {
                    name: e.name,
                    attrs: entries_insert(e.attrs, k, v),
                    children: e.children,
                };
                BuildState { root: st.root, stack: st.stack.drop_last().push(e2) }
            }
        },
        VEvent::ElementEnd => {
            if st.stack.len() == 0 {
                st
            } else {
                let e = st.stack.last();
                let rest = st.stack.drop_last();
                if rest.len() == 0 {
                    BuildState { root: st.root.push(VNode::Element(e)), stack: rest }
                } else {
                    BuildState { root: st.root, stack: stack_push_child(rest, VNode::Element(e)) }
                }
            }
        },
        VEvent::Text(s) => {
            if st.stack.len() == 0 {
                BuildState { root: st.root.push(VNode::Text(s)), stack: st.stack }
            } else {
                push_child(st, VNode::Text(s))
            }
        },
        VEvent::Comment(s) => {
            if st.stack.len() == 0 {
                BuildState { root: st.root.push(VNode::Comment(s)), stack: st.stack }
            } else {
                push_child(st, VNode::Comment(s))
            }
        },
        VEvent::Cdata(s) => {
            if st.stack.len() == 0 {
                BuildState { root: st.root.push(VNode::Cdata(s)), stack: st.stack }
            } else {
                push_child(st, VNode::Cdata(s))
            }
        },
        VEvent::ProcessingInstruction(t, c) => {
            if st.stack.len() == 0 {
                BuildState {
                    root: st.root.push(VNode::ProcessingInstruction(t, c)),
                    stack: st.stack,
                }
            } else {
                push_child(st, VNode::ProcessingInstruction(t, c))
            }
        },
    }
}

/// Appends a child node to the last element of a stack.
pub open spec fn stack_push_child(s: Seq<VElement>, n: VNode) -> Seq<VElement>
    recommends
        s.len() > 0,
{
    let e = s.last();
    s.drop_last().push(VElement { name: e.name, attrs: e.attrs, children: e.children.push(n) })
}

/// Appends a child node to the element on top of the stack.
pub open spec fn push_child(st: BuildState, n: VNode) -> BuildState
    recommends
        st.stack.len() > 0,
{
    BuildState { root: st.root, stack: stack_push_child(st.stack, n) }
}

/// The builder's state after consuming the whole event list.
pub open spec fn build_run(evs: Seq<VEvent>) -> BuildState
    decreases evs.len(),
{
    if evs.len() == 0 {
        build_init()
    } else {
        build_step(build_run(evs.drop_last()), evs.last())
    }
}

/// Unfolds one step of `build_run` on a prefix.
pub proof fn lemma_build_take_step(evs: Seq<VEvent>, i: int)
    requires
        0 <= i < evs.len(),
    ensures
        build_run(evs.take(i + 1)) == build_step(build_run(evs.take(i)), evs[i]),
{
    let t = evs.take(i + 1);
    assert(t.len() == i + 1);
    assert(t.drop_last() =~= evs.take(i));
    assert(t.last() == evs[i]);
}

/// A well-formed child list stays well-formed when a well-formed node is
/// appended.
pub proof fn lemma_nodes_wf_push(s: Seq<VNode>, n: VNode)
    requires
        nodes_wf(s),
        n.wf(),
    ensures
        nodes_wf(s.push(n)),
{
    assert forall|i: int| 0 <= i < s.push(n).len() implies (#[trigger] s.push(n)[i]).wf() by {
        if i < s.len() {
            assert(s[i].wf());
        } else {
            assert(s.push(n)[i] == n);
        }
    }
}

/// Every state the builder reaches is well-formed: finished nodes are
/// well-formed and every in-progress element has unique attribute keys
/// and well-formed children.
pub open spec fn state_wf(st: BuildState) -> bool {
    &&& nodes_wf(st.root)
    &&& forall|i: int|
        0 <= i < st.stack.len() ==> entries_unique(#[trigger] st.stack[i].attrs) && nodes_wf(
            st.stack[i].children,
        )
}

/// Tree assembly preserves well-formedness.
pub proof fn lemma_build_run_wf(evs: Seq<VEvent>)
    ensures
        state_wf(build_run(evs)),
    decreases evs.len(),
{
    if evs.len() == 0 {
    } else {
        let st = build_run(evs.drop_last());
        lemma_build_run_wf(evs.drop_last());
        let ev = evs.last();
        let st2 = build_step(st, ev);
        match ev {
            VEvent::ElementStart(n) => {},
            VEvent::Attribute(k, v) => {
                if st.stack.len() > 0 {
                    lemma_entries_insert_unique(st.stack.last().attrs, k, v);
                }
            },
            VEvent::ElementEnd => {
                if st.stack.len() > 0 {
                    let e = st.stack.last();
                    assert(VNode::Element(e).wf());
                    if st.stack.len() == 1 {
                        lemma_nodes_wf_push(st.root, VNode::Element(e));
                    } else {
                        lemma_nodes_wf_push(
                            st.stack[st.stack.len() - 2].children,
                            VNode::Element(e),
                        );
                    }
                }
            },
            VEvent::Text(s) => {
                if st.stack.len() == 0 {
                    lemma_nodes_wf_push(st.root, VNode::Text(s));
                } else {
                    lemma_nodes_wf_push(st.stack.last().children, VNode::Text(s));
                }
            },
            VEvent::Comment(s) => {
                if st.stack.len() == 0 {
                    lemma_nodes_wf_push(st.root, VNode::Comment(s));
                } else {
                    lemma_nodes_wf_push(st.stack.last().children, VNode::Comment(s));
                }
            },
            VEvent::Cdata(s) => {
                if st.stack.len() == 0 {
                    lemma_nodes_wf_push(st.root, VNode::Cdata(s));
                } else {
                    lemma_nodes_wf_push(st.stack.last().children, VNode::Cdata(s));
                }
            },
            VEvent::ProcessingInstruction(t, c) => {
                if st.stack.len() == 0 {
                    lemma_nodes_wf_push(st.root, VNode::ProcessingInstruction(t, c));
                } else {
                    lemma_nodes_wf_push(
                        st.stack.last().children,
                        VNode::ProcessingInstruction(t, c),
                    );
                }
            },
        }
    }
}

/// A non-empty element stack's views are the views of its front plus the
/// view of its last element.
pub proof fn lemma_elems_view_snoc(s: Seq<Element>)
    requires
        s.len() > 0,
    ensures
        elems_view(s) =~= elems_view(s.drop_last()).push(s.last().view()),
{
}

/// Appends `n` as the last child of the element on top of the stack.
fn append_child(stack: &mut Vec<Element>, n: Node)
    requires
        old(stack)@.len() > 0,
    ensures
        elems_view(final(stack)@) == stack_push_child(elems_view(old(stack)@), n.view()),
{
    let ghost nv = n.view();
    let ghost s0 = stack@;
    let mut p = stack.pop().unwrap();
    let ghost pv = p.view();
    proof {
        assert(pv == elems_view(s0).last());
    }
    p.children.push(n);
    proof {
        assert(p.view() =~~= (VElement { name: pv.name, attrs: pv.attrs, children: pv.children.push(nv) })) by {
            assert(p.children@.drop_last() =~= s0.last().children@);
            lemma_nodes_view_snoc(p.children@);
        };
    }
    let ghost pv2 = p.view();
    stack.push(p);
    proof {
        lemma_elems_view_snoc(stack@);
        assert(stack@.drop_last() =~= s0.drop_last());
        assert(elems_view(s0.drop_last()) =~= elems_view(s0).drop_last());
        assert(stack@.last().view() == pv2);
        assert(elems_view(stack@) =~~= stack_push_child(elems_view(s0), nv));
    }
}

/// Assembles the document tree from an event list, exactly as
/// `build_run` describes.
pub fn build_document(events: &Vec<Event>) -> (doc: Document)
    ensures
        doc.view() == build_run(events_view(events@)).root,
        build_run(events_view(events@)).stack.len() == 0 ==> nodes_wf(doc.view()),
        nodes_wf(doc.view()),
{
    let ghost vevs = events_view(events@);
    let mut root: Vec<Node> = Vec::new();
    let mut stack: Vec<Element> = Vec::new();
    let mut i: usize = 0;
    assert(vevs.take(0) =~= Seq::<VEvent>::empty());
    while i < events.len()
        invariant
            i <= events@.len(),
            vevs == events_view(events@),
            vevs.len() == events@.len(),
            nodes_view(root@) == build_run(vevs.take(i as int)).root,
            elems_view(stack@) == build_run(vevs.take(i as int)).stack,
        decreases events@.len() - i,
    {
        let ghost pre = build_run(vevs.take(i as int));
        let ghost stack0 = stack@;
        let ghost root0 = root@;
        proof {
            lemma_build_take_step(vevs, i as int);
            assert(vevs[i as int] == events@[i as int].view());
        }
        match &events[i] {
            Event::ElementStart(n) => {
                let e = Element { name: n.clone(), attributes: attrs_new(), children: Vec::new() };
                let ghost ev = e.view();
                proof {
                    assert(ev.name == n@);
                    assert(ev.attrs =~= Seq::<(Seq<char>, Seq<char>)>::empty());
                    assert(ev.children =~= Seq::<VNode>::empty());
                }
                stack.push(e);
                proof {
                    lemma_elems_view_snoc(stack@);
                    assert(stack@.drop_last() =~= stack0);
                    assert(stack@.last().view() == ev);
                    assert(stack@.last().view() =~~= (VElement {
                        name: n@,
                        attrs: Seq::<(Seq<char>, Seq<char>)>::empty(),
                        children: Seq::<VNode>::empty(),
                    }));
                    assert(elems_view(stack@) =~~= build_run(vevs.take(i + 1)).stack);
                }
            },
            Event::Attribute(k, v) => {
                if stack.len() > 0 {
                    let mut e = stack.pop().unwrap();
                    attrs_insert(&mut e.attributes, k.clone(), v.clone());
                    stack.push(e);
                    proof {
                        lemma_elems_view_snoc(stack@);
                        assert(stack@.drop_last() =~= stack0.drop_last());
                        assert(elems_view(stack0.drop_last()) =~= pre.stack.drop_last());
                        assert(stack@.last().view() =~~= (VElement {
                            name: pre.stack.last().name,
                            attrs: entries_insert(pre.stack.last().attrs, k@, v@),
                            children: pre.stack.last().children,
                        }));
                        assert(elems_view(stack@) =~~= build_run(vevs.take(i + 1)).stack);
                    }
                }
            },
            Event::ElementEnd => {
                if stack.len() > 0 {
                    let e = stack.pop().unwrap();
                    let ghost ev = e.view();
                    proof {
                        assert(ev == pre.stack.last());
                        lemma_node_element_view(e);
                    }
                    if stack.len() == 0 {
                        root.push(Node::Element(e));
                        proof {
                            lemma_nodes_view_snoc(root@);
                            assert(root@.drop_last() =~= root0);
                            assert(root@.last().view() == VNode::Element(ev));
                            assert(nodes_view(root@) =~~= build_run(vevs.take(i + 1)).root);
                            assert(elems_view(stack@) =~~= build_run(vevs.take(i + 1)).stack);
                        }
                    } else {
                        proof {
                            assert(elems_view(stack@) =~= pre.stack.drop_last());
                            assert(ev == pre.stack.last());
                        }
                        append_child(&mut stack, Node::Element(e));
                        proof {
                            assert(elems_view(stack@) =~~= build_run(vevs.take(i + 1)).stack);
                        }
                    }
                }
            },
            Event::Text(s) => {
                if stack.len() == 0 {
                    root.push(Node::Text(s.clone()));
                    proof {
                        lemma_nodes_view_snoc(root@);
                        assert(root@.drop_last() =~= root0);
                        assert(nodes_view(root@) =~~= build_run(vevs.take(i + 1)).root);
                    }
                } else {
                    append_child(&mut stack, Node::Text(s.clone()));
                    proof {
                        assert(elems_view(stack@) =~~= build_run(vevs.take(i + 1)).stack);
                    }
                }
            },
            Event::Comment(s) => {
                if stack.len() == 0 {
                    root.push(Node::Comment(s.clone()));
                    proof {
                        lemma_nodes_view_snoc(root@);
                        assert(root@.drop_last() =~= root0);
                        assert(nodes_view(root@) =~~= build_run(vevs.take(i + 1)).root);
                    }
                } else {
                    append_child(&mut stack, Node::Comment(s.clone()));
                    proof {
                        assert(elems_view(stack@) =~~= build_run(vevs.take(i + 1)).stack);
                    }
                }
            },
            Event::Cdata(s) => {
                if stack.len() == 0 {
                    root.push(Node::Cdata(s.clone()));
                    proof {
                        lemma_nodes_view_snoc(root@);
                        assert(root@.drop_last() =~= root0);
                        assert(nodes_view(root@) =~~= build_run(vevs.take(i + 1)).root);
                    }
                } else {
                    append_child(&mut stack, Node::Cdata(s.clone()));
                    proof {
                        assert(elems_view(stack@) =~~= build_run(vevs.take(i + 1)).stack);
                    }
                }
            },
            Event::ProcessingInstruction(t, c) => {
                let c2 = match c {
                    Some(s) => Some(s.clone()),
                    None => None,
                };
                if stack.len() == 0 {
                    root.push(Node::ProcessingInstruction(t.clone(), c2));
                    proof {
                        lemma_nodes_view_snoc(root@);
                        assert(root@.drop_last() =~= root0);
                        assert(nodes_view(root@) =~~= build_run(vevs.take(i + 1)).root);
                    }
                } else {
                    append_child(&mut stack, Node::ProcessingInstruction(t.clone(), c2));
                    proof {
                        assert(elems_view(stack@) =~~= build_run(vevs.take(i + 1)).stack);
                    }
                }
            },
        }
        i = i + 1;
    }
    proof {
        assert(vevs.take(i as int) =~= vevs);
        lemma_build_run_wf(vevs);
    }
    Document { root }
}

/// Does the tokenizer accept this text? The tokenizer's outcome is a
/// function of the text alone.
pub uninterp spec fn tok_ok(text: Seq<char>) -> bool;

/// The tokenizer's message on the text's first lexical error.
pub uninterp spec fn tok_err(text: Seq<char>) -> Seq<char>;

/// The kind of each token of the text, in stream order: 1 element
/// start, 2 attribute, 3 closing element end (self-closing or explicit),
/// 4 text, 5 comment, 6 CDATA, 7 processing instruction; 0 for tokens
/// that leave no event (the open kind of element end, declarations and
/// DTD matter).
pub uninterp spec fn tok_kinds(text: Seq<char>) -> Seq<u8>;

/// The namespace prefix of each token of the text (empty for tokens
/// without one).
pub uninterp spec fn tok_prefixes(text: Seq<char>) -> Seq<Seq<char>>;

/// The main text of each token of the text: the local name of an
/// element start or attribute, the content of a text, comment or CDATA
/// token, the target of a processing instruction; empty otherwise.
pub uninterp spec fn tok_mains(text: Seq<char>) -> Seq<Seq<char>>;

/// The second text of each token of the text: an attribute's value, or
/// a processing instruction's optional content; nothing otherwise.
pub uninterp spec fn tok_seconds(text: Seq<char>) -> Seq<Option<Seq<char>>>;

/// The views of a vector of optional strings.
pub open spec fn opt_strs_view(ss: Seq<Option<String>>) -> Seq<Option<Seq<char>>> {
    Seq::new(
        ss.len(),
        |i: int|
            match ss[i] {
                Some(s) => Some(s@),
                None => None,
            },
    )
}

/// Relies on xmlparser's `Tokenizer` being a function of its input text:
/// succeeds exactly when the text tokenizes, yielding one kind code per
/// token, or the first lexical error's message.
#[verifier::external_body]
fn tok_kinds_x(text: &str) -> (r: Result<Vec<u8>, String>)
    ensures
        r is Ok <==> tok_ok(text@),
        match r {
            Ok(ks) => ks@ == tok_kinds(text@),
            Err(e) => e@ == tok_err(text@),
        },
{
    let mut v = vec![];
    for t in Tokenizer::from(text) {
        match t.map_err(|e| e.to_string())? {
            Token::ElementStart { .. } => v.push(1),
            Token::Attribute { .. } => v.push(2),
            Token::ElementEnd { end: XmlEnd::Open, .. } => v.push(0),
            Token::ElementEnd { .. } => v.push(3),
            Token::Text { .. } => v.push(4),
            Token::Comment { .. } => v.push(5),
            Token::Cdata { .. } => v.push(6),
            Token::ProcessingInstruction { .. } => v.push(7),
            _ => v.push(0),
        }
    }
    Ok(v)
}

/// Relies on xmlparser's `Tokenizer` being a function of its input text:
/// each token's namespace prefix, aligned with the kind codes.
#[verifier::external_body]
fn tok_prefixes_x(text: &str) -> (r: Vec<String>)
    ensures
        tok_ok(text@) ==> crate::tree::strs_view(r@) == tok_prefixes(text@) && r@.len()
            == tok_kinds(text@).len(),
{
    let s = |x: StrSpan| x.as_str().to_string();
    let mut v = vec![];
    for t in Tokenizer::from(text).flatten() {
        match t {
            Token::ElementStart { prefix, .. } | Token::Attribute { prefix, .. } => v.push(s(prefix)),
            _ => v.push(String::new()),
        }
    }
    v
}

/// Relies on xmlparser's `Tokenizer` being a function of its input text:
/// each token's main text, aligned with the kind codes.
#[verifier::external_body]
fn tok_mains_x(text: &str) -> (r: Vec<String>)
    ensures
        tok_ok(text@) ==> crate::tree::strs_view(r@) == tok_mains(text@) && r@.len()
            == tok_kinds(text@).len(),
{
    let s = |x: StrSpan| x.as_str().to_string();
    let mut v = vec![];
    for t in Tokenizer::from(text).flatten() {
        match t {
            Token::ElementStart { local, .. } | Token::Attribute { local, .. } => v.push(s(local)),
            Token::Text { text } => v.push(s(text)),
            Token::Comment { text, .. } | Token::Cdata { text, .. } => v.push(s(text)),
            Token::ProcessingInstruction { target, .. } => v.push(s(target)),
            _ => v.push(String::new()),
        }
    }
    v
}

/// Relies on xmlparser's `Tokenizer` being a function of its input text:
/// each token's second text, aligned with the kind codes.
#[verifier::external_body]
fn tok_seconds_x(text: &str) -> (r: Vec<Option<String>>)
    ensures
        tok_ok(text@) ==> opt_strs_view(r@) == tok_seconds(text@) && r@.len() == tok_kinds(
            text@,
        ).len(),
{
    let s = |x: StrSpan| x.as_str().to_string();
    let mut v = vec![];
    for t in Tokenizer::from(text).flatten() {
        match t {
            Token::Attribute { value, .. } => v.push(Some(s(value))),
            Token::ProcessingInstruction { content, .. } => v.push(content.map(s)),
            _ => v.push(None),
        }
    }
    v
}

/// A name with its optional namespace prefix put back.
pub open spec fn qualified(pfx: Seq<char>, local: Seq<char>) -> Seq<char> {
    if pfx.len() == 0 {
        local
    } else {
        pfx + ":"@ + local
    }
}

/// A name with its optional namespace prefix put back, executable.
fn qualify(prefix: String, local: String) -> (r: String)
    ensures
        r@ == qualified(prefix@, local@),
{
    if prefix.as_str().unicode_len() == 0 {
        local
    } else {
        let mut n = prefix;
        n.append(":");
        n.append(local.as_str());
        n
    }
}

/// The event one token contributes: the kind code selects the variant,
/// names get their prefix back; kind 0 contributes none, and an
/// attribute token without a value carries the empty value.
pub open spec fn event_of(k: u8, pfx: Seq<char>, main: Seq<char>, snd: Option<Seq<char>>) -> Option<
    VEvent,
> {
    if k == 1 {
        Some(VEvent::ElementStart(qualified(pfx, main)))
    } else if k == 2 {
        Some(
            VEvent::Attribute(
                qualified(pfx, main),
                match snd {
                    Some(v) => v,
                    None => Seq::empty(),
                },
            ),
        )
    } else if k == 3 {
        Some(VEvent::ElementEnd)
    } else if k == 4 {
        Some(VEvent::Text(main))
    } else if k == 5 {
        Some(VEvent::Comment(main))
    } else if k == 6 {
        Some(VEvent::Cdata(main))
    } else if k == 7 {
        Some(VEvent::ProcessingInstruction(main, snd))
    } else {
        None
    }
}

/// The events of the token components from position `i` on (components
/// past a sequence's end read as empty).
pub open spec fn events_from(
    ks: Seq<u8>,
    ps: Seq<Seq<char>>,
    ms: Seq<Seq<char>>,
    ss: Seq<Option<Seq<char>>>,
    i: int,
) -> Seq<VEvent>
    decreases ks.len() - i,
{
    if i < 0 || i >= ks.len() {
        Seq::empty()
    } else {
        let pfx = if i < ps.len() {
            ps[i]
        } else {
            Seq::empty()
        };
        let main = if i < ms.len() {
            ms[i]
        } else {
            Seq::empty()
        };
        let snd = if i < ss.len() {
            ss[i]
        } else {
            None
        };
        (match event_of(ks[i], pfx, main, snd) {
            Some(ev) => seq![ev],
            None => Seq::empty(),
        }) + events_from(ks, ps, ms, ss, i + 1)
    }
}

/// The event stream of a text that tokenizes: derived from the named
/// token components.
pub open spec fn events_of(text: Seq<char>) -> Seq<VEvent> {
    events_from(tok_kinds(text), tok_prefixes(text), tok_mains(text), tok_seconds(text), 0)
}

/// Turns raw markup into the event stream: tokenizes through the
/// outside tokenizer, then assembles plain events. Succeeds exactly when
/// the text tokenizes, and then yields exactly the text's events.
fn tokenize(text: &str) -> (r: Result<Vec<Event>, String>)
    ensures
        r is Ok <==> tok_ok(text@),
        match r {
            Ok(evs) => events_view(evs@) == events_of(text@),
            Err(e) => e@ == tok_err(text@),
        },
{
    let kinds = match tok_kinds_x(text) {
        Ok(ks) => ks,
        Err(e) => {
            return Err(e);
        },
    };
    let prefixes = tok_prefixes_x(text);
    let mains = tok_mains_x(text);
    let seconds = tok_seconds_x(text);
    let ghost ks = tok_kinds(text@);
    let ghost ps = tok_prefixes(text@);
    let ghost ms = tok_mains(text@);
    let ghost ss = tok_seconds(text@);
    let mut evs: Vec<Event> = Vec::new();
    let mut i: usize = 0;
    while i < kinds.len()
        invariant
            tok_ok(text@),
            i <= kinds@.len(),
            kinds@ == ks,
            crate::tree::strs_view(prefixes@) == ps,
            crate::tree::strs_view(mains@) == ms,
            opt_strs_view(seconds@) == ss,
            prefixes@.len() == ks.len(),
            mains@.len() == ks.len(),
            seconds@.len() == ks.len(),
            events_view(evs@) + events_from(ks, ps, ms, ss, i as int) == events_from(
                ks,
                ps,
                ms,
                ss,
                0,
            ),
        decreases kinds@.len() - i,
    {
        let ghost evs0 = events_view(evs@);
        proof {
            assert(ps[i as int] == prefixes@[i as int]@);
            assert(ms[i as int] == mains@[i as int]@);
            assert(ss[i as int] == opt_strs_view(seconds@)[i as int]);
        }
        let k = kinds[i];
        if k == 1 {
            evs.push(Event::ElementStart(qualify(prefixes[i].clone(), mains[i].clone())));
        } else if k == 2 {
            let v = match &seconds[i] {
                Some(x) => x.clone(),
                None => String::new(),
            };
            evs.push(Event::Attribute(qualify(prefixes[i].clone(), mains[i].clone()), v));
        } else if k == 3 {
            evs.push(Event::ElementEnd);
        } else if k == 4 {
            evs.push(Event::Text(mains[i].clone()));
        } else if k == 5 {
            evs.push(Event::Comment(mains[i].clone()));
        } else if k == 6 {
            evs.push(Event::Cdata(mains[i].clone()));
        } else if k == 7 {
            let c = match &seconds[i] {
                Some(x) => Some(x.clone()),
                None => None,
            };
            evs.push(Event::ProcessingInstruction(mains[i].clone(), c));
        }
        proof {
            assert(events_view(evs@) + events_from(ks, ps, ms, ss, i + 1) =~= events_from(
                ks,
                ps,
                ms,
                ss,
                0,
            ));
        }
        i = i + 1;
    }
    proof {
        assert(events_view(evs@) =~= events_of(text@));
    }
    Ok(evs)
}

/// Parses markup text into a document: tokenizes with the outside
/// tokenizer, then assembles the tree with `build_document`. Parsing
/// succeeds exactly when the text tokenizes, and then returns the tree
/// assembled from the text's event stream; a lexical error aborts the
/// parse and surfaces the tokenizer's message, and no partial tree is
/// returned.
pub fn parse(text: &str) -> (r: Result<Document, String>)
    ensures
        r is Ok <==> tok_ok(text@),
        match r {
            Ok(doc) => doc.view() == build_run(events_of(text@)).root && nodes_wf(doc.view()),
            Err(e) => e@ == tok_err(text@),
        },
{
    match tokenize(text) {
        Ok(events) => {
            let doc = build_document(&events);
            proof {
                assert(events_view(events@) == events_of(text@));
                assert(doc.view() == build_run(events_of(text@)).root);
            }
            Ok(doc)
        },
        Err(e) => Err(e),
    }
}

} // verus!
