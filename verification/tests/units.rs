use css_parser::source_map::{SourceMap, SourceRegistry};
use css_parser::span::{SourceId, Span};
use css_parser::{lex_source, CSSToken, Selector, ToStringSettings, TokenQueue};

#[test]
fn span_adjacency() {
    let id = SourceId::null();
    let a = Span { start: 0, end: 2, source_id: id };
    let b = Span { start: 2, end: 4, source_id: id };
    let c = Span { start: 3, end: 5, source_id: id };
    assert!(a.is_adjacent_to(&b));
    assert!(b.is_adjacent_to(&a));
    assert!(!a.is_adjacent_to(&c));
    let other = Span { start: 2, end: 4, source_id: SourceId(0) };
    assert!(!a.is_adjacent_to(&other));
}

#[test]
fn span_union_covers_both() {
    let id = SourceId::null();
    let a = Span { start: 3, end: 5, source_id: id };
    let b = Span { start: 1, end: 4, source_id: id };
    let u = a.union(&b);
    assert_eq!((u.start, u.end), (1, 5));
}

#[test]
fn settings_defaults() {
    let pretty = ToStringSettings::default();
    assert!(!pretty.minify);
    assert_eq!(pretty.indent_with, "    ");
    let minified = ToStringSettings::minified();
    assert!(minified.minify);
    assert_eq!(minified.indent_with, "");
}

#[test]
fn lexing_fills_the_token_channel() {
    let mut queue = TokenQueue::new();
    lex_source("h1{", &mut queue, SourceId::null(), None).unwrap();
    assert_eq!(queue.len(), 3);
    let ident = queue.next();
    assert!(matches!(ident.kind, CSSToken::Ident(ref name) if name == "h1"));
    assert_eq!((ident.span.start, ident.span.end), (0, 2));
    let brace = queue.next();
    assert!(matches!(brace.kind, CSSToken::OpenCurly));
    // the token covers its character
    assert_eq!((brace.span.start, brace.span.end), (2, 3));
    let eos = queue.next();
    assert!(matches!(eos.kind, CSSToken::EOS));
    assert_eq!((eos.span.start, eos.span.end), (3, 3));
}

#[test]
fn lexing_biases_spans_by_the_offset() {
    let mut queue = TokenQueue::new();
    lex_source("h1", &mut queue, SourceId::null(), Some(10)).unwrap();
    let ident = queue.next();
    assert_eq!((ident.span.start, ident.span.end), (10, 12));
    let sel = Selector::from_string("h1".to_owned(), SourceId::null(), Some(10)).unwrap();
    let pos = sel.position.unwrap();
    assert_eq!((pos.start, pos.end), (10, 12));
}

#[test]
fn source_map_builder_deltas() {
    let mut registry = SourceRegistry::new();
    let id = registry.register("s.css".to_owned(), Some("x".to_owned()));
    let mut sm = SourceMap::new();
    sm.add_to_column(5);
    sm.add_mapping(1, 0, id, &registry);
    sm.add_new_line();
    sm.add_mapping(2, 3, id, &registry);
    sm.add_to_column(2);
    sm.add_mapping(2, 5, id, &registry);
    let json = sm.to_string();
    let expected = "{\"version\":3,\"sourceRoot\":\"\",\"sources\":[\"s.css\"],\"sourcesContent\":[\"x\"],\"names\":[],\"mappings\":\"KAAA;AACG,EAAE\"}";
    assert_eq!(json, expected);
}

#[test]
fn source_map_add_source_without_content() {
    let mut sm = SourceMap::new();
    sm.add_source("a.css".to_owned(), None);
    let json = sm.to_string();
    let expected = "{\"version\":3,\"sourceRoot\":\"\",\"sources\":[\"a.css\"],\"sourcesContent\":[\"\"],\"names\":[],\"mappings\":\"\"}";
    assert_eq!(json, expected);
}

#[test]
fn string_escapes_inside_string_values() {
    // A backslash escapes the following character, so an escaped quote
    // does not close the string literal.
    let sheet = css_parser::StyleSheet::from_string(
        "h1 { font: \"a\\\"b\"; }".to_owned(),
        SourceId::null(),
    )
    .unwrap();
    assert_eq!(
        sheet.to_string(Some(ToStringSettings::minified())),
        "h1{font:\"a\\\"b\"}"
    );
}
