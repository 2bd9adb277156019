//! Removes every `style` element.

use vstd::prelude::*;
use crate::plugins::remove_desc::{remove_elems_by_name, rm_named_spec};
use crate::plugins::Plugin;
use crate::tree::Document;

verus! {

/// The style-element-removal pass.
pub struct RemoveStyleElement;

impl RemoveStyleElement {
    /// Removes every `style` element in the document.
    pub fn run(doc: &mut Document)
        ensures
            final(doc).view() == rm_named_spec(old(doc).view(), 0, "style"@),
    {
        let out = remove_elems_by_name(&doc.root, "style");
        doc.root = out;
    }
}

impl Plugin for RemoveStyleElement {
    fn apply(&self, doc: &mut Document) {
        RemoveStyleElement::run(doc);
    }
}

} // verus!
