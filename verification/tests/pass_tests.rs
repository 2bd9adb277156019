use svgx::parser;
use svgx::printer;
use svgx::plugins::Plugin;
use svgx::plugins::{
    CleanupAttrs, ConvertEllipseToCircle, ConvertOneStopGradients, ConvertStyleToAttrs,
    MergePaths, MoveGroupAttrsToElems, RemoveComments, RemoveDesc, RemoveDoctype,
    RemoveEditorsNSData, RemoveEmptyContainers, RemoveMetadata, RemoveStyleElement, RemoveTitle,
    RemoveUnknownsAndDefaults, RemoveUnusedNS, RemoveUselessStrokeAndFill, RemoveXMLProcInst,
    SortAttrs, SortDefsChildren,
};

#[test]
fn test_cleanup_attrs() {
    let input = "<svg class=\"  foo \n bar  \t baz \"></svg>";
    let expected = "<svg class=\"foo bar baz\"/>";
    let mut doc = parser::parse(input).unwrap();
    CleanupAttrs.apply(&mut doc);
    let output = printer::print(&doc);
    assert_eq!(output, expected);
}

#[test]
fn test_convert_ellipse() {
    let input = "<svg><ellipse cx=\"10\" cy=\"10\" rx=\"5\" ry=\"5\"/></svg>";
    let expected = "<svg><circle cx=\"10\" cy=\"10\" r=\"5\"/></svg>";
    let mut doc = parser::parse(input).unwrap();
    ConvertEllipseToCircle.apply(&mut doc);
    assert_eq!(printer::print(&doc), expected);
}

#[test]
fn test_keep_ellipse() {
    let input = "<svg><ellipse rx=\"5\" ry=\"10\"/></svg>";
    let mut doc = parser::parse(input).unwrap();
    ConvertEllipseToCircle.apply(&mut doc);
    assert_eq!(printer::print(&doc), input);
}

#[test]
fn test_convert_gradient() {
    let input = r#"<svg>
        <defs>
            <linearGradient id="g1"><stop stop-color="red"/></linearGradient>
        </defs>
        <rect fill="url(#g1)"/>
        </svg>"#;
    let mut doc = parser::parse(input).unwrap();
    ConvertOneStopGradients.apply(&mut doc);
    let out = printer::print(&doc);
    assert!(out.contains("fill=\"red\""));
    assert!(!out.contains("fill=\"url(#g1)\""));
}

#[test]
fn test_convert_style() {
    let input = "<svg><rect style=\"fill: red; stroke: blue\" width=\"10\"/></svg>";
    let mut doc = parser::parse(input).unwrap();
    ConvertStyleToAttrs.apply(&mut doc);
    let out = printer::print(&doc);
    assert!(out.contains("fill=\"red\""));
    assert!(out.contains("stroke=\"blue\""));
}

#[test]
fn test_merge_paths() {
    let input =
        "<svg><path d=\"M0 0L10 10\" fill=\"red\"/><path d=\"M20 20L30 30\" fill=\"red\"/></svg>";
    let expected_d = "M0 0L10 10 M20 20L30 30";
    let mut doc = parser::parse(input).unwrap();
    MergePaths.apply(&mut doc);
    let out = printer::print(&doc);
    assert!(out.contains(expected_d));
    assert_eq!(out.matches("<path").count(), 1);
}

#[test]
fn test_no_merge_diff_attrs() {
    let input = "<svg><path d=\"M0 0\" fill=\"red\"/><path d=\"M10 10\" fill=\"blue\"/></svg>";
    let mut doc = parser::parse(input).unwrap();
    MergePaths.apply(&mut doc);
    let out = printer::print(&doc);
    assert_eq!(out.matches("<path").count(), 2);
}

#[test]
fn test_move_transform() {
    let input = "<svg><g transform=\"scale(2)\"><rect width=\"10\"/><circle/></g></svg>";
    let expected = "<svg><g><rect width=\"10\" transform=\"scale(2)\"/><circle transform=\"scale(2)\"/></g></svg>";
    let mut doc = parser::parse(input).unwrap();
    MoveGroupAttrsToElems.apply(&mut doc);
    assert_eq!(printer::print(&doc), expected);
}

#[test]
fn test_concat_transform() {
    let input = "<svg><g transform=\"translate(10)\"><rect transform=\"scale(2)\"/></g></svg>";
    let expected = "<svg><g><rect transform=\"translate(10) scale(2)\"/></g></svg>";
    let mut doc = parser::parse(input).unwrap();
    MoveGroupAttrsToElems.apply(&mut doc);
    assert_eq!(printer::print(&doc), expected);
}

#[test]
fn test_remove_comments_everywhere() {
    let input = "<svg><!--a--><g><!--b--><rect/></g></svg>";
    let expected = "<svg><g><rect/></g></svg>";
    let mut doc = parser::parse(input).unwrap();
    RemoveComments.apply(&mut doc);
    assert_eq!(printer::print(&doc), expected);
}

#[test]
fn test_remove_desc() {
    let input = "<svg><desc>Description</desc><rect/></svg>";
    let expected = "<svg><rect/></svg>";
    let mut doc = parser::parse(input).unwrap();
    RemoveDesc.apply(&mut doc);
    assert_eq!(printer::print(&doc), expected);
}

#[test]
fn test_remove_doctype() {
    let input = "<!DOCTYPE svg PUBLIC \"-//W3C//DTD SVG 1.1//EN\" \"http://www.w3.org/Graphics/SVG/1.1/DTD/svg11.dtd\"><svg></svg>";
    let expected = "<svg/>";
    let mut doc = parser::parse(input).unwrap();
    RemoveDoctype.apply(&mut doc);
    let output = printer::print(&doc);
    assert_eq!(output, expected);
}

#[test]
fn test_remove_editors_ns_data() {
    let input = r#"
        <svg xmlns:inkscape="http://www.inkscape.org/namespaces/inkscape" 
             xmlns:sodipodi="http://sodipodi.sourceforge.net/DTD/sodipodi-0.dtd"
             inkscape:version="1.0"
             width="100">
            <sodipodi:namedview id="base"/>
            <rect width="10" height="10" inkscape:label="rect1"/>
        </svg>
        "#;
    let mut doc = parser::parse(input).unwrap();
    RemoveEditorsNSData.apply(&mut doc);
    let output = printer::print(&doc);
    assert!(!output.contains("xmlns:inkscape"));
    assert!(!output.contains("sodipodi:namedview"));
    assert!(!output.contains("inkscape:label"));
    assert!(output.contains("<rect width=\"10\" height=\"10\""));
}

#[test]
fn test_remove_empty_g() {
    let input = "<svg><g/></svg>";
    let mut doc = parser::parse(input).unwrap();
    RemoveEmptyContainers.apply(&mut doc);
    let output = printer::print(&doc);
    assert!(output == "<svg/>" || output == "<svg></svg>");
}

#[test]
fn remove_empty_containers_test_remove_empty_defs() {
    let input = "<svg><defs/></svg>";
    let mut doc = parser::parse(input).unwrap();
    RemoveEmptyContainers.apply(&mut doc);
    let output = printer::print(&doc);
    assert!(output == "<svg/>" || output == "<svg></svg>");
}

#[test]
fn test_keep_filled() {
    let input = "<svg><g><rect/></g></svg>";
    let mut doc = parser::parse(input).unwrap();
    RemoveEmptyContainers.apply(&mut doc);
    assert_eq!(printer::print(&doc), input);
}

#[test]
fn test_remove_metadata() {
    let input =
        "<svg><metadata>Some info</metadata><g><metadata>Inner info</metadata><rect/></g></svg>";
    let expected = "<svg><g><rect/></g></svg>";
    let mut doc = parser::parse(input).unwrap();
    RemoveMetadata.apply(&mut doc);
    let output = printer::print(&doc);
    assert_eq!(output, expected);
}

#[test]
fn test_remove_style() {
    let input = "<svg><style>.cls { fill: red; }</style><rect/></svg>";
    let expected = "<svg><rect/></svg>";
    let mut doc = parser::parse(input).unwrap();
    RemoveStyleElement.apply(&mut doc);
    assert_eq!(printer::print(&doc), expected);
}

#[test]
fn test_remove_title() {
    let input = "<svg><title>Remove me</title><rect/></svg>";
    let expected = "<svg><rect/></svg>";
    let mut doc = parser::parse(input).unwrap();
    RemoveTitle.apply(&mut doc);
    assert_eq!(printer::print(&doc), expected);
}

#[test]
fn test_remove_defaults() {
    let input = "<svg><rect x=\"0\" y=\"0\" width=\"100\" stroke-width=\"1\"/></svg>";
    let expected = "<svg><rect width=\"100\"/></svg>";
    let mut doc = parser::parse(input).unwrap();
    RemoveUnknownsAndDefaults::default().apply(&mut doc);
    assert_eq!(printer::print(&doc), expected);
}

#[test]
fn test_remove_default_unit_spellings() {
    let input = "<svg><rect x=\"0px\" stroke-width=\"1px\" width=\"5\"/></svg>";
    let expected = "<svg><rect width=\"5\"/></svg>";
    let mut doc = parser::parse(input).unwrap();
    RemoveUnknownsAndDefaults::default().apply(&mut doc);
    assert_eq!(printer::print(&doc), expected);
}

#[test]
fn test_remove_unused() {
    let input = "<svg xmlns:xlink=\"http://www.w3.org/1999/xlink\" xmlns:sketch=\"http://sketchapp.com\"><rect/></svg>";
    let expected = "<svg><rect/></svg>";
    let mut doc = parser::parse(input).unwrap();
    RemoveUnusedNS.apply(&mut doc);
    assert_eq!(printer::print(&doc), expected);
}

#[test]
fn test_keep_used() {
    let input =
        "<svg xmlns:xlink=\"http://www.w3.org/1999/xlink\"><use xlink:href=\"#id\"/></svg>";
    let mut doc = parser::parse(input).unwrap();
    RemoveUnusedNS.apply(&mut doc);
    assert_eq!(printer::print(&doc), input);
}

#[test]
fn test_remove_invisible_rect() {
    let input = "<svg><rect fill=\"none\" stroke=\"none\"/></svg>";
    let expected = "<svg/>";
    let mut doc = parser::parse(input).unwrap();
    RemoveUselessStrokeAndFill.apply(&mut doc);
    assert_eq!(printer::print(&doc), expected);
}

#[test]
fn test_keep_visible() {
    let input = "<svg><rect fill=\"none\" stroke=\"red\"/></svg>";
    let mut doc = parser::parse(input).unwrap();
    RemoveUselessStrokeAndFill.apply(&mut doc);
    assert_eq!(printer::print(&doc), input);
}

#[test]
fn test_remove_zero_width_stroke() {
    let input = "<svg><rect stroke=\"red\" stroke-width=\"0\"/></svg>";
    let expected = "<svg><rect/></svg>";
    let mut doc = parser::parse(input).unwrap();
    RemoveUselessStrokeAndFill.apply(&mut doc);
    assert_eq!(printer::print(&doc), expected);
}

#[test]
fn test_remove_xml_proc_inst() {
    let input = "<?xml version=\"1.0\"?><svg></svg>";
    let expected = "<svg/>";
    let mut doc = parser::parse(input).unwrap();
    RemoveXMLProcInst.apply(&mut doc);
    let output = printer::print(&doc);
    assert_eq!(output, expected);
}

#[test]
fn test_sort_attrs() {
    let input = "<svg><rect width=\"10\" x=\"0\" y=\"0\" height=\"10\"/></svg>";
    let expected = "<svg><rect height=\"10\" width=\"10\" x=\"0\" y=\"0\"/></svg>";
    let mut doc = parser::parse(input).unwrap();
    SortAttrs.apply(&mut doc);
    let out = printer::print(&doc);
    assert_eq!(out, expected);
}

#[test]
fn test_sort_defs() {
    let input = "<svg><defs><rect id=\"b\"/><circle id=\"a\"/></defs></svg>";
    let expected = "<svg><defs><circle id=\"a\"/><rect id=\"b\"/></defs></svg>";
    let mut doc = parser::parse(input).unwrap();
    SortDefsChildren.apply(&mut doc);
    assert_eq!(printer::print(&doc), expected);
}
