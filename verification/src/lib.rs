//! Structural optimizer for SVG documents: parses markup into a tree,
//! runs an ordered list of semantics-preserving rewrite passes, and
//! serializes the result back to compact text.

pub mod laws;
pub mod numfmt;
pub mod parser;
pub mod path_data;
pub mod plugins;
pub mod printer;
pub mod strutil;
pub mod transform;
pub mod tree;
pub mod visitor;

use vstd::prelude::*;

verus! {

} // verus!
