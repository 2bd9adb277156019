//! The rewrite passes. Every pass exposes one operation, `apply`, which
//! mutates the document in place; the pipeline runs passes strictly in
//! order, and order is load-bearing (unused-id stripping must precede
//! unreferenced-definition removal).

use vstd::prelude::*;
use crate::tree::Document;

pub mod cleanup_attrs;
pub mod cleanup_ids;
pub mod cleanup_list_of_values;
pub mod collections;
pub mod convert_ellipse_to_circle;
pub mod convert_one_stop_gradients;
pub mod convert_path_data;
pub mod convert_style_to_attrs;
pub mod convert_transform;
pub mod merge_paths;
pub mod move_group_attrs_to_elems;
pub mod remove_comments;
pub mod remove_desc;
pub mod remove_doctype;
pub mod remove_editors_ns_data;
pub mod remove_empty_containers;
pub mod remove_metadata;
pub mod remove_style_element;
pub mod remove_title;
pub mod remove_unknowns_and_defaults;
pub mod remove_unused_ns;
pub mod remove_useless_defs;
pub mod remove_useless_stroke_and_fill;
pub mod remove_xml_proc_inst;
pub mod sort_attrs;
pub mod sort_defs_children;

pub use cleanup_attrs::CleanupAttrs;
pub use cleanup_ids::CleanupIds;
pub use cleanup_list_of_values::CleanupListOfValues;
pub use convert_ellipse_to_circle::ConvertEllipseToCircle;
pub use convert_one_stop_gradients::ConvertOneStopGradients;
pub use convert_path_data::ConvertPathData;
pub use convert_style_to_attrs::ConvertStyleToAttrs;
pub use convert_transform::ConvertTransform;
pub use merge_paths::MergePaths;
pub use move_group_attrs_to_elems::MoveGroupAttrsToElems;
pub use remove_comments::RemoveComments;
pub use remove_desc::RemoveDesc;
pub use remove_doctype::RemoveDoctype;
pub use remove_editors_ns_data::RemoveEditorsNSData;
pub use remove_empty_containers::RemoveEmptyContainers;
pub use remove_metadata::RemoveMetadata;
pub use remove_style_element::RemoveStyleElement;
pub use remove_title::RemoveTitle;
pub use remove_unknowns_and_defaults::RemoveUnknownsAndDefaults;
pub use remove_unused_ns::RemoveUnusedNS;
pub use remove_useless_defs::RemoveUselessDefs;
pub use remove_useless_stroke_and_fill::RemoveUselessStrokeAndFill;
pub use remove_xml_proc_inst::RemoveXMLProcInst;
pub use sort_attrs::SortAttrs;
pub use sort_defs_children::SortDefsChildren;

verus! {

/// One rewrite pass: a single in-place mutation of the document.
pub trait Plugin {
    /// Applies the pass to the document.
    fn apply(&self, doc: &mut Document);
}

} // verus!
