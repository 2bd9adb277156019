use svgx::plugins::convert_style_to_attrs::parse_style;

#[test]
fn test_parse_style_pairs() {
    let props = parse_style("fill: red; stroke: blue");
    assert_eq!(props.len(), 2);
    assert_eq!(props[0], ("fill".to_string(), "red".to_string()));
    assert_eq!(props[1], ("stroke".to_string(), "blue".to_string()));
}

#[test]
fn test_parse_style_skips_malformed() {
    let props = parse_style("fill: red; nonsense; : x; y: ;");
    assert_eq!(props, vec![("fill".to_string(), "red".to_string())]);
}

#[test]
fn test_parse_style_trims() {
    let props = parse_style("  fill :  red  ");
    assert_eq!(props, vec![("fill".to_string(), "red".to_string())]);
}
