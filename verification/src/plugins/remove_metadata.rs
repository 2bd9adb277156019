//! Removes every `metadata` element.

use vstd::prelude::*;
use crate::plugins::remove_desc::{remove_elems_by_name, rm_named_spec};
use crate::plugins::Plugin;
use crate::tree::Document;

verus! {

/// The metadata-removal pass.
pub struct RemoveMetadata;

impl RemoveMetadata {
    /// Removes every `metadata` element in the document.
    pub fn run(doc: &mut Document)
        ensures
            final(doc).view() == rm_named_spec(old(doc).view(), 0, "metadata"@),
    {
        let out = remove_elems_by_name(&doc.root, "metadata");
        doc.root = out;
    }
}

impl Plugin for RemoveMetadata {
    fn apply(&self, doc: &mut Document) {
        RemoveMetadata::run(doc);
    }
}

} // verus!
