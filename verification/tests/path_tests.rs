use svgx::plugins::convert_path_data::{optimize_path_data, ConvertPathData};
use svgx::plugins::Plugin;
use svgx::parser;
use svgx::printer;

#[test]
fn test_relative_line_wins() {
    let opts = ConvertPathData::default();
    assert_eq!(optimize_path_data("M 10 10 L 11 11", &opts), "M10 10l1 1");
}

#[test]
fn test_horizontal_degenerate_wins() {
    let opts = ConvertPathData::default();
    assert_eq!(optimize_path_data("M 10 10 L 20 10", &opts), "M10 10H20");
}

#[test]
fn test_vertical_degenerate_wins() {
    let opts = ConvertPathData::default();
    assert_eq!(optimize_path_data("M 10 10 L 10 20", &opts), "M10 10V20");
}

#[test]
fn test_close_is_lowercase() {
    let opts = ConvertPathData::default();
    assert_eq!(optimize_path_data("M0 0 L10 0 Z", &opts), "M0 0H10z");
}

#[test]
fn test_implicit_lineto_after_move() {
    let opts = ConvertPathData::default();
    // repeated argument groups after M continue as lines
    assert_eq!(optimize_path_data("M0 0 10 0 10 10", &opts), "M0 0H10V10");
}

#[test]
fn test_relative_input_normalized() {
    let opts = ConvertPathData::default();
    assert_eq!(optimize_path_data("m 10 10 l 10 0", &opts), "M10 10H20");
}

#[test]
fn test_cubic_curve_kept() {
    let opts = ConvertPathData::default();
    assert_eq!(
        optimize_path_data("M0 0 C 10 10 20 20 30 30", &opts),
        "M0 0C10 10 20 20 30 30"
    );
}

#[test]
fn test_relative_curve_wins_when_shorter() {
    let opts = ConvertPathData::default();
    assert_eq!(
        optimize_path_data("M100 100 C 101 101 102 102 103 103", &opts),
        "M100 100c1 1 2 2 3 3"
    );
}

#[test]
fn test_arc_flags() {
    let opts = ConvertPathData::default();
    assert_eq!(optimize_path_data("M0 0 A 5 5 0 0 1 10 10", &opts), "M0 0A5 5 0 0 1 10 10");
}

#[test]
fn test_quadratic_and_smooth() {
    let opts = ConvertPathData::default();
    assert_eq!(optimize_path_data("M0 0 Q 5 5 10 0 T 20 0", &opts), "M0 0Q5 5 10 0T20 0");
}

#[test]
fn test_unknown_letter_stops_parsing() {
    let opts = ConvertPathData::default();
    assert_eq!(optimize_path_data("M0 0 L10 10 X 5 5 L20 20", &opts), "M0 0L10 10");
}

#[test]
fn test_insufficient_arguments_keep_prefix() {
    let opts = ConvertPathData::default();
    assert_eq!(optimize_path_data("M0 0 L10 10 L20", &opts), "M0 0L10 10");
}

#[test]
fn test_negative_number_needs_no_separator() {
    let opts = ConvertPathData::default();
    assert_eq!(optimize_path_data("M 10 -10", &opts), "M10-10");
}

#[test]
fn test_precision_rounding() {
    let opts = ConvertPathData::default();
    assert_eq!(optimize_path_data("M0.12345 0.5004", &opts), "M.123 .5");
}

#[test]
fn test_reencoding_idempotent() {
    let opts = ConvertPathData::default();
    let once = optimize_path_data("M 10 10 L 11 11 C 1 2 3 4 5 6 z", &opts);
    let twice = optimize_path_data(&once, &opts);
    assert_eq!(once, twice);
}

#[test]
fn test_geometry_preserved_through_reencoding() {
    // decoding the re-encoded string reproduces the same absolute
    // positions: re-encoding from scratch again gives the same text
    let opts = ConvertPathData::default();
    let cases = [
        "M 1.5 2.25 l 3 4 h -2 v 7 z",
        "M0 0 10 0 10 10 c 1 1 2 2 3 3 s 4 4 5 5 q 1 0 2 1 t 3 3",
        "M-5 -5 A 3 3 45 1 0 4 4 z m 1 1 l 2 2",
    ];
    for d in cases {
        let once = optimize_path_data(d, &opts);
        let twice = optimize_path_data(&once, &opts);
        assert_eq!(once, twice);
    }
}

#[test]
fn test_path_plugin_rewrites_d() {
    let input = "<svg><path d=\"M 10 10 L 20 10\"/></svg>";
    let mut doc = parser::parse(input).unwrap();
    ConvertPathData::default().apply(&mut doc);
    assert_eq!(printer::print(&doc), "<svg><path d=\"M10 10H20\"/></svg>");
}
