use css_parser::source_map::{vlq_encode_integer_to_buffer, SourceRegistry};
use css_parser::span::SourceId;
use css_parser::{attach_inline_source_map, StyleSheet, ToStringSettings};

fn vlq_encode_integer(value: i64) -> String {
    let mut buf: Vec<char> = Vec::new();
    vlq_encode_integer_to_buffer(&mut buf, value);
    buf.iter().collect()
}

#[test]
fn vlq_encoder() {
    assert_eq!(vlq_encode_integer(0), "A");
    assert_eq!(vlq_encode_integer(1), "C");
    assert_eq!(vlq_encode_integer(-1), "D");
    assert_eq!(vlq_encode_integer(123), "2H");
    assert_eq!(vlq_encode_integer(123456789), "qxmvrH");
}

#[test]
fn source_map_for_one_rule() {
    let source = "h1{color:red}";
    let mut registry = SourceRegistry::new();
    let id = registry.register("test.css".to_owned(), Some(source.to_owned()));
    let sheet = StyleSheet::from_string(source.to_owned(), id).unwrap();
    let (text, map) =
        sheet.to_string_with_source_map(Some(ToStringSettings::minified()), &registry);
    assert_eq!(text, "h1{color:red}");
    let expected = "{\"version\":3,\"sourceRoot\":\"\",\"sources\":[\"test.css\"],\"sourcesContent\":[\"h1{color:red}\"],\"names\":[],\"mappings\":\"AAAA\"}";
    assert_eq!(map, expected);
}

#[test]
fn source_map_spans_lines() {
    let source = "h1 {\n    color: red;\n}\n\nh2 {\n    color: blue;\n}";
    let mut registry = SourceRegistry::new();
    let id = registry.register("two.css".to_owned(), Some(source.to_owned()));
    let sheet = StyleSheet::from_string(source.to_owned(), id).unwrap();
    let (text, map) = sheet.to_string_with_source_map(None, &registry);
    assert_eq!(text, source);
    // One mapping per selector: h1 at (1,0), h2 at (5,0); the rendered
    // output places them on generated lines 0 and 4 of its 7 lines.
    assert!(map.contains("\"mappings\":\"AAAA;;;;AAIA;;\""), "map was {}", map);
    assert!(map.contains("\"sources\":[\"two.css\"]"));
}

#[test]
fn source_map_columns_count_utf16_code_units() {
    let source = "/*\u{1D11E}*/h1{c:d}";
    let mut registry = SourceRegistry::new();
    let id = registry.register("astral.css".to_owned(), Some(source.to_owned()));
    let sheet = StyleSheet::from_string(source.to_owned(), id).unwrap();
    let (text, map) =
        sheet.to_string_with_source_map(Some(ToStringSettings::minified()), &registry);
    assert_eq!(text, "h1{c:d}");
    // h1 sits at character offset 5 but at UTF-16 column 6: the
    // astral-plane character before it occupies two code units.
    assert!(map.contains("\"mappings\":\"AAAM\""), "map was {}", map);
}

#[test]
fn unknown_source_yields_no_mappings() {
    let registry = SourceRegistry::new();
    let sheet =
        StyleSheet::from_string("h1{color:red}".to_owned(), SourceId::null()).unwrap();
    let (_, map) =
        sheet.to_string_with_source_map(Some(ToStringSettings::minified()), &registry);
    assert!(map.contains("\"sources\":[]"));
    assert!(map.contains("\"mappings\":\"\""));
}

#[test]
fn inline_source_map_comment() {
    let out = attach_inline_source_map("x".to_owned(), "{}");
    assert_eq!(
        out,
        "x\n/*# sourceMappingURL=data:application/json;base64,e30=*/"
    );
}

#[test]
fn source_name_backslashes_are_escaped() {
    let source = "h1{color:red}";
    let mut registry = SourceRegistry::new();
    let id = registry.register("dir\\test.css".to_owned(), Some(source.to_owned()));
    let sheet = StyleSheet::from_string(source.to_owned(), id).unwrap();
    let (_, map) =
        sheet.to_string_with_source_map(Some(ToStringSettings::minified()), &registry);
    assert!(map.contains("\"sources\":[\"dir\\\\test.css\"]"), "map was {}", map);
}
