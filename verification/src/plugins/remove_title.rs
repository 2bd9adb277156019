//! Removes every `title` element.

use vstd::prelude::*;
use crate::plugins::remove_desc::{remove_elems_by_name, rm_named_spec};
use crate::plugins::Plugin;
use crate::tree::Document;

verus! {

/// The title-removal pass.
pub struct RemoveTitle;

impl RemoveTitle {
    /// Removes every `title` element in the document.
    pub fn run(doc: &mut Document)
        ensures
            final(doc).view() == rm_named_spec(old(doc).view(), 0, "title"@),
    {
        let out = remove_elems_by_name(&doc.root, "title");
        doc.root = out;
    }
}

impl Plugin for RemoveTitle {
    fn apply(&self, doc: &mut Document) {
        RemoveTitle::run(doc);
    }
}

} // verus!
