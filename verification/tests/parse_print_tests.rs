use svgx::parser;
use svgx::printer;

#[test]
fn test_roundtrip_canonical() {
    // a document already in canonical minimal form prints byte for byte
    let cases = [
        "<svg/>",
        "<svg><rect width=\"10\" height=\"10\"/></svg>",
        "<svg viewBox=\"0 0 10 10\"><g><circle r=\"5\"/></g></svg>",
        "<svg><text>hello</text></svg>",
    ];
    for input in cases {
        let doc = parser::parse(input).unwrap();
        assert_eq!(printer::print(&doc), input);
    }
}

#[test]
fn test_nested_elements_roundtrip() {
    let input = "<a><b><c/></b><d/></a>";
    let doc = parser::parse(input).unwrap();
    assert_eq!(printer::print(&doc), input);
}

#[test]
fn test_comment_preserved() {
    let input = "<svg><!--note--><rect/></svg>";
    let doc = parser::parse(input).unwrap();
    assert_eq!(printer::print(&doc), input);
}

#[test]
fn test_cdata_preserved() {
    let input = "<svg><style><![CDATA[.a { fill: red; }]]></style></svg>";
    let doc = parser::parse(input).unwrap();
    assert_eq!(printer::print(&doc), input);
}

#[test]
fn test_parse_error_surfaces() {
    assert!(parser::parse("<svg><<</svg>").is_err());
}

#[test]
fn test_empty_element_self_closes() {
    let doc = parser::parse("<svg></svg>").unwrap();
    assert_eq!(printer::print(&doc), "<svg/>");
}
