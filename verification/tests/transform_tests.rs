use svgx::plugins::convert_transform::{optimize_transform, ConvertTransform};
use svgx::plugins::Plugin;
use svgx::parser;
use svgx::printer;

#[test]
fn test_translate_merge() {
    let input = "translate(10) translate(20)";
    let opts = ConvertTransform::default();
    let out = optimize_transform(input, &opts);
    assert!(out.contains("translate(30 0)"));
}

#[test]
fn test_scale_merge() {
    let input = "scale(2) scale(3)";
    let opts = ConvertTransform::default();
    let out = optimize_transform(input, &opts);
    assert!(out.contains("scale(6)"));
}

#[test]
fn test_identity() {
    let input = "translate(0) scale(1)";
    let opts = ConvertTransform::default();
    let out = optimize_transform(input, &opts);
    assert_eq!(out, "");
}

#[test]
fn test_uneven_scale() {
    let opts = ConvertTransform::default();
    assert_eq!(optimize_transform("scale(2 3)", &opts), "scale(2 3)");
}

#[test]
fn test_matrix_form() {
    let opts = ConvertTransform::default();
    assert_eq!(optimize_transform("matrix(1 2 3 4 5 6)", &opts), "matrix(1 2 3 4 5 6)");
}

#[test]
fn test_rotate_quarter_turn() {
    let opts = ConvertTransform::default();
    assert_eq!(optimize_transform("rotate(90)", &opts), "matrix(0 1 -1 0 0 0)");
}

#[test]
fn test_skew_x_45() {
    let opts = ConvertTransform::default();
    assert_eq!(optimize_transform("skewX(45)", &opts), "matrix(1 0 1 1 0 0)");
}

#[test]
fn test_rotate_30_entries() {
    let opts = ConvertTransform::default();
    // cos 30 = 0.866..., sin 30 = 0.5
    assert_eq!(optimize_transform("rotate(30)", &opts), "matrix(.866 .5 -.5 .866 0 0)");
}

#[test]
fn test_unknown_function_ignored() {
    let opts = ConvertTransform::default();
    assert_eq!(optimize_transform("frobnicate(3) scale(2)", &opts), "scale(2)");
}

#[test]
fn test_rotate_about_centre_cancels() {
    let opts = ConvertTransform::default();
    assert_eq!(optimize_transform("rotate(90, 5, 5) rotate(-90, 5, 5)", &opts), "");
}

#[test]
fn test_transform_attribute_dropped_when_identity() {
    let input = "<svg><g transform=\"translate(0)\"><rect/></g></svg>";
    let mut doc = parser::parse(input).unwrap();
    ConvertTransform::default().apply(&mut doc);
    assert_eq!(printer::print(&doc), "<svg><g><rect/></g></svg>");
}

#[test]
fn test_translate_negative() {
    let opts = ConvertTransform::default();
    assert_eq!(optimize_transform("translate(-4, 2.5)", &opts), "translate(-4 2.5)");
}
