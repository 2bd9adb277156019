use svgx::parser;
use svgx::printer;
use svgx::plugins::Plugin;
use svgx::plugins::{CleanupIds, RemoveUselessDefs};

#[test]
fn test_cleanup_unused_ids() {
    let input = "<svg><rect id=\"unused\"/><rect id=\"used\"/><use href=\"#used\"/></svg>";
    let expected = "<svg><rect/><rect id=\"used\"/><use href=\"#used\"/></svg>";
    let mut doc = parser::parse(input).unwrap();
    CleanupIds.apply(&mut doc);
    let output = printer::print(&doc);
    assert_eq!(output, expected);
}

#[test]
fn test_cleanup_ids_url_ref() {
    let input = "<svg><linearGradient id=\"grad\"/><rect fill=\"url(#grad)\"/></svg>";
    let expected = "<svg><linearGradient id=\"grad\"/><rect fill=\"url(#grad)\"/></svg>";
    let mut doc = parser::parse(input).unwrap();
    CleanupIds.apply(&mut doc);
    let output = printer::print(&doc);
    assert_eq!(output, expected);
}

#[test]
fn test_url_ref_with_whitespace() {
    let input = "<svg><rect id=\"grad\"/><rect fill=\"url( #grad )\"/></svg>";
    let mut doc = parser::parse(input).unwrap();
    CleanupIds.apply(&mut doc);
    assert!(printer::print(&doc).contains("id=\"grad\""));
}

#[test]
fn test_remove_useless_defs() {
    let input =
        "<svg><defs><rect id=\"unused\"/><rect id=\"used\"/></defs><use href=\"#used\"/></svg>";
    let expected = "<svg><defs><rect id=\"used\"/></defs><use href=\"#used\"/></svg>";
    let mut doc = parser::parse(input).unwrap();
    RemoveUselessDefs.apply(&mut doc);
    let output = printer::print(&doc);
    assert_eq!(output, expected);
}

#[test]
fn remove_useless_defs_test_remove_empty_defs() {
    let input = "<svg><defs><rect id=\"unused\"/></defs></svg>";
    let expected = "<svg/>";
    let mut doc = parser::parse(input).unwrap();
    RemoveUselessDefs.apply(&mut doc);
    let output = printer::print(&doc);
    assert_eq!(output, expected);
}

#[test]
fn test_defs_cascade_nested() {
    // a nested defs emptied by pruning cascades away in the same pass
    let input = "<svg><defs><defs><rect id=\"unused\"/></defs></defs></svg>";
    let expected = "<svg/>";
    let mut doc = parser::parse(input).unwrap();
    RemoveUselessDefs.apply(&mut doc);
    assert_eq!(printer::print(&doc), expected);
}

#[test]
fn test_pruning_idempotent() {
    // running unused-id stripping and definition removal twice equals once
    let input = "<svg><defs><rect id=\"used\"/><rect id=\"unused\"/></defs><g id=\"dead\"/><use href=\"#used\"/></svg>";
    let mut doc = parser::parse(input).unwrap();
    CleanupIds.apply(&mut doc);
    RemoveUselessDefs.apply(&mut doc);
    let once = printer::print(&doc);
    CleanupIds.apply(&mut doc);
    RemoveUselessDefs.apply(&mut doc);
    let twice = printer::print(&doc);
    assert_eq!(once, twice);
}

#[test]
fn test_pipeline_order_sensitivity() {
    // a definition referenced only from inside the defs by an element
    // whose own id is unused: definition removal first prunes more
    let input = "<svg><defs><rect id=\"a\"/><use id=\"b\" href=\"#a\"/></defs></svg>";

    let mut doc1 = parser::parse(input).unwrap();
    CleanupIds.apply(&mut doc1);
    RemoveUselessDefs.apply(&mut doc1);
    let strip_first = printer::print(&doc1);

    let mut doc2 = parser::parse(input).unwrap();
    RemoveUselessDefs.apply(&mut doc2);
    CleanupIds.apply(&mut doc2);
    let defs_first = printer::print(&doc2);

    assert_eq!(strip_first, "<svg><defs><rect id=\"a\"/></defs></svg>");
    assert_eq!(defs_first, "<svg><defs><rect/></defs></svg>");
    assert_ne!(strip_first, defs_first);
}

#[test]
fn test_bare_fragment_counts_as_reference() {
    let input = "<svg><rect id=\"x\"/><a href=\"#x\"/></svg>";
    let mut doc = parser::parse(input).unwrap();
    CleanupIds.apply(&mut doc);
    assert!(printer::print(&doc).contains("id=\"x\""));
}

#[test]
fn test_find_used_ids_accumulates() {
    let input = "<svg><rect fill=\"url(#p) url(#q)\"/></svg>";
    let doc = parser::parse(input).unwrap();
    let mut used: Vec<String> = Vec::new();
    for node in &doc.root {
        svgx::plugins::collections::find_used_ids(node, &mut used);
    }
    assert_eq!(used, vec!["p".to_string(), "q".to_string()]);
}
