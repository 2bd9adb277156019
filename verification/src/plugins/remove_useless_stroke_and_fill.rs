//! Removes shapes that paint nothing (explicit `fill="none"` and no
//! visible stroke, unless an id might be referenced), and drops
//! `stroke="none"` and zero-width stroke attributes.

use vstd::prelude::*;
use crate::plugins::Plugin;
use crate::strutil::string_eq_str;
use crate::tree::{
    attr_entries, attrs_clone, attrs_get, attrs_shift_remove, clone_node, entries_have_key,
    entries_remove_key, entries_value_of, lemma_node_element_view, lemma_nodes_view_snoc,
    nodes_view, Document, Element, Node, VElement, VNode,
};

verus! {

/// Is this a shape element name?
pub open spec fn is_shape(name: Seq<char>) -> bool {
    name == "rect"@ || name == "circle"@ || name == "ellipse"@ || name == "line"@ || name
        == "polygon"@ || name == "polyline"@ || name == "path"@
}

/// Does the element paint a stroke?
pub open spec fn has_stroke(attrs: Seq<(Seq<char>, Seq<char>)>) -> bool {
    entries_have_key(attrs, "stroke"@) && entries_value_of(attrs, "stroke"@) != "none"@
}

/// Does the element paint a fill? (The default fill is black.)
pub open spec fn has_fill(attrs: Seq<(Seq<char>, Seq<char>)>) -> bool {
    !entries_have_key(attrs, "fill"@) || entries_value_of(attrs, "fill"@) != "none"@
}

/// Is the stroke visible (present, and not of zero width)?
pub open spec fn visible_stroke(attrs: Seq<(Seq<char>, Seq<char>)>) -> bool {
    has_stroke(attrs) && (if entries_have_key(attrs, "stroke-width"@) {
        entries_value_of(attrs, "stroke-width"@) != "0"@ && entries_value_of(
            attrs,
            "stroke-width"@,
        ) != "0px"@
    } else {
        true
    })
}

/// Should this element go: an invisible shape without an id.
pub open spec fn elem_invisible(e: VElement) -> bool {
    is_shape(e.name) && !visible_stroke(e.attrs) && !has_fill(e.attrs) && !entries_have_key(
        e.attrs,
        "id"@,
    )
}

/// An element's attributes after stroke cleanup: `stroke="none"` goes;
/// a zero `stroke-width` takes the stroke and itself away.
pub open spec fn cleanup_stroke(attrs: Seq<(Seq<char>, Seq<char>)>) -> Seq<(Seq<char>, Seq<char>)> {
    let a1 = if entries_have_key(attrs, "stroke"@) && entries_value_of(attrs, "stroke"@)
        == "none"@ {
        entries_remove_key(attrs, "stroke"@)
    } else {
        attrs
    };
    if entries_have_key(a1, "stroke-width"@) && (entries_value_of(a1, "stroke-width"@) == "0"@
        || entries_value_of(a1, "stroke-width"@) == "0px"@) {
        entries_remove_key(entries_remove_key(a1, "stroke"@), "stroke-width"@)
    } else {
        a1
    }
}

/// The tree after useless-paint removal, from position `k` on: the
/// removal test reads the attributes as written; kept elements get the
/// stroke cleanup and their children processed.
pub open spec fn rm_paint_spec(ns: Seq<VNode>, k: int) -> Seq<VNode>
    decreases ns, ns.len() - k,
{
    if k < 0 || k >= ns.len() {
        Seq::empty()
    } else {
        let rest = rm_paint_spec(ns, k + 1);
        match ns[k] {
            VNode::Element(e) => if elem_invisible(e) {
                rest
            } else {
                seq![
                    VNode::Element(
                        VElement {
                            name: e.name,
                            attrs: cleanup_stroke(e.attrs),
                            children: rm_paint_spec(e.children, 0),
                        },
                    ),
                ] + rest
            },
            _ => seq![ns[k]] + rest,
        }
    }
}

/// Is this a shape element name, executable.
fn is_shape_x(name: &String) -> (r: bool)
    ensures
        r == is_shape(name@),
{
    string_eq_str(name, "rect") || string_eq_str(name, "circle") || string_eq_str(name, "ellipse")
        || string_eq_str(name, "line") || string_eq_str(name, "polygon") || string_eq_str(
        name,
        "polyline",
    ) || string_eq_str(name, "path")
}

/// Rebuilds a node list without useless paint: exactly `rm_paint_spec`.
fn rm_paint_nodes(ns: &Vec<Node>) -> (r: Vec<Node>)
    ensures
        nodes_view(r@) == rm_paint_spec(nodes_view(ns@), 0),
    decreases ns@,
{
    let ghost vs = nodes_view(ns@);
    let mut out: Vec<Node> = Vec::new();
    let mut i: usize = 0;
    while i < ns.len()
        invariant
            i <= ns@.len(),
            vs == nodes_view(ns@),
            vs.len() == ns@.len(),
            nodes_view(out@) + rm_paint_spec(vs, i as int) == rm_paint_spec(vs, 0),
        decreases ns@.len() - i,
    {
        let ghost out0 = out@;
        proof {
            assert(vs[i as int] == ns@[i as int].view());
        }
        match &ns[i] {
            Node::Element(e) => {
                proof {
                    lemma_node_element_view(*e);
                }
                let stroke_painted = match attrs_get(&e.attributes, "stroke") {
                    Some(s) => !string_eq_str(&s, "none"),
                    None => false,
                };
                let fill_painted = match attrs_get(&e.attributes, "fill") {
                    Some(f) => !string_eq_str(&f, "none"),
                    None => true,
                };
                let stroke_visible = stroke_painted && (match attrs_get(
                    &e.attributes,
                    "stroke-width",
                ) {
                    Some(w) => !string_eq_str(&w, "0") && !string_eq_str(&w, "0px"),
                    None => true,
                });
                let has_id = match attrs_get(&e.attributes, "id") {
                    Some(_) => true,
                    None => false,
                };
                let invisible = is_shape_x(&e.name) && !stroke_visible && !fill_painted && !has_id;
                if invisible {
                } else {
                    proof {
                        assert(decreases_to!(ns@ => ns@[i as int]->Element_0.children@));
                    }
                    let ch = rm_paint_nodes(&e.children);
                    let mut am = attrs_clone(&e.attributes);
                    match attrs_get(&am, "stroke") {
                        Some(s) => {
                            if string_eq_str(&s, "none") {
                                attrs_shift_remove(&mut am, "stroke");
                            }
                        },
                        None => {},
                    }
                    match attrs_get(&am, "stroke-width") {
                        Some(w) => {
                            if string_eq_str(&w, "0") || string_eq_str(&w, "0px") {
                                attrs_shift_remove(&mut am, "stroke");
                                attrs_shift_remove(&mut am, "stroke-width");
                            }
                        },
                        None => {},
                    }
                    let e2 = Element { name: e.name.clone(), attributes: am, children: ch };
                    proof {
                        lemma_node_element_view(e2);
                    }
                    out.push(Node::Element(e2));
                    proof {
                        lemma_nodes_view_snoc(out@);
                        assert(out@.drop_last() =~= out0);
                        assert(nodes_view(out@) + rm_paint_spec(vs, i + 1) =~~= rm_paint_spec(
                            vs,
                            0,
                        ));
                    }
                }
            },
            _ => {
                let c = clone_node(&ns[i]);
                let ghost cv = c.view();
                out.push(c);
                proof {
                    lemma_nodes_view_snoc(out@);
                    assert(out@.drop_last() =~= out0);
                    assert(nodes_view(out@) + rm_paint_spec(vs, i + 1) =~~= rm_paint_spec(vs, 0));
                }
            },
        }
        i = i + 1;
    }
    proof {
        assert(nodes_view(out@) =~= rm_paint_spec(vs, 0));
    }
    out
}

/// The useless-stroke-and-fill pass.
pub struct RemoveUselessStrokeAndFill;

impl RemoveUselessStrokeAndFill {
    /// Removes invisible shapes and useless stroke attributes.
    pub fn run(doc: &mut Document)
        ensures
            final(doc).view() == rm_paint_spec(old(doc).view(), 0),
    {
        let out = rm_paint_nodes(&doc.root);
        doc.root = out;
    }
}

impl Plugin for RemoveUselessStrokeAndFill {
    fn apply(&self, doc: &mut Document) {
        RemoveUselessStrokeAndFill::run(doc);
    }
}

} // verus!
