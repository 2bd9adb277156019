//! A mutable tree-walking interface: an implementor visits the
//! document, its node lists, single nodes and elements, with mutable
//! access to each. The termination measures on the methods let an
//! implementation recurse top-down through the tree (a node list's
//! visitor may visit its nodes, a node's visitor its element, an
//! element's visitor its children).

use vstd::prelude::*;
use crate::tree::{Document, Element, Node};

verus! {

/// Walks the document tree with mutable access to each node.
pub trait Visitor: Sized {
    /// Visits a whole document.
    fn visit_document(&mut self, doc: &mut Document);

    /// Visits each node of a list.
    fn visit_nodes(&mut self, nodes: &mut Vec<Node>)
        decreases nodes,
    ;

    /// Visits one node.
    fn visit_node(&mut self, node: &mut Node)
        decreases node,
    ;

    /// Visits one element.
    fn visit_element(&mut self, element: &mut Element)
        decreases element,
    ;
}

} // verus!
