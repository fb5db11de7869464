use css_parser::span::SourceId;
use css_parser::{raise_nested_rules, Entry, StyleSheet, ToStringSettings};

const EXAMPLE: &str = "h1 {\n    color: red;\n}\n\nh2 {\n    color: blue;\n}";

#[test]
fn parsing_rules() {
    let style_sheet = StyleSheet::from_string(EXAMPLE.to_owned(), SourceId::null()).unwrap();
    assert_eq!(style_sheet.entries.len(), 2);
}

#[test]
fn style_sheet_to_string() {
    let source = EXAMPLE.to_owned();
    let style_sheet = StyleSheet::from_string(source.clone(), SourceId::null()).unwrap();
    assert_eq!(style_sheet.to_string(None), source.replace('\r', ""));
}

#[test]
fn round_trip_is_idempotent() {
    let source = "h1 { color : red ; }\n\nh2{color:blue}/* note */";
    for settings in [None, Some(ToStringSettings::minified())] {
        let once = StyleSheet::from_string(source.to_owned(), SourceId::null())
            .unwrap()
            .to_string(settings.clone());
        let twice = StyleSheet::from_string(once.clone(), SourceId::null())
            .unwrap()
            .to_string(settings);
        assert_eq!(twice, once);
    }
}

#[test]
fn minify_mode() {
    let sheet = StyleSheet::from_string("h1 { color : red ; }".to_owned(), SourceId::null())
        .unwrap();
    assert_eq!(
        sheet.to_string(Some(ToStringSettings::minified())),
        "h1{color:red}"
    );
}

#[test]
fn minify_keeps_inner_semicolons() {
    let sheet = StyleSheet::from_string(
        "h1 { color: red; border: dotted; }".to_owned(),
        SourceId::null(),
    )
    .unwrap();
    assert_eq!(
        sheet.to_string(Some(ToStringSettings::minified())),
        "h1{color:red;border:dotted}"
    );
}

#[test]
fn minify_keeps_list_spaces() {
    // The space between list items carries structure: without it "2px"
    // and "solid" would re-lex as one token.
    let sheet = StyleSheet::from_string(
        "a { border: 2px solid #00ff00; }".to_owned(),
        SourceId::null(),
    )
    .unwrap();
    let minified = sheet.to_string(Some(ToStringSettings::minified()));
    assert_eq!(minified, "a{border:2px solid #00ff00}");
    let again = StyleSheet::from_string(minified.clone(), SourceId::null()).unwrap();
    assert_eq!(again.to_string(Some(ToStringSettings::minified())), minified);
}

#[test]
fn selector_nesting() {
    let mut sheet =
        StyleSheet::from_string(".a { .b { color: red; } }".to_owned(), SourceId::null()).unwrap();
    raise_nested_rules(&mut sheet);
    assert_eq!(
        sheet.to_string(None),
        ".a {}\n\n.a .b {\n    color: red;\n}"
    );
}

#[test]
fn deep_nesting_composes_through_levels() {
    let mut sheet = StyleSheet::from_string(
        ".a { .b { .c { color: red; } } }".to_owned(),
        SourceId::null(),
    )
    .unwrap();
    raise_nested_rules(&mut sheet);
    // Deeper nesting is raised before shallower: the grandchild rule
    // precedes its parent among the appended entries.
    assert_eq!(
        sheet.to_string(Some(ToStringSettings::minified())),
        ".a{}.a .b .c{color:red}.a .b{}"
    );
}

#[test]
fn nesting_keeps_outer_declarations() {
    let mut sheet = StyleSheet::from_string(
        ".card { color: blue; .title { color: red; } }".to_owned(),
        SourceId::null(),
    )
    .unwrap();
    raise_nested_rules(&mut sheet);
    assert_eq!(
        sheet.to_string(Some(ToStringSettings::minified())),
        ".card{color:blue}.card .title{color:red}"
    );
}

#[test]
fn selector_list_rendering() {
    let sheet =
        StyleSheet::from_string("h1, h2 { color: red; }".to_owned(), SourceId::null()).unwrap();
    assert_eq!(sheet.to_string(None), "h1, h2 {\n    color: red;\n}");
    assert_eq!(
        sheet.to_string(Some(ToStringSettings::minified())),
        "h1,h2{color:red}"
    );
}

#[test]
fn comments_survive_pretty_rendering() {
    let sheet =
        StyleSheet::from_string("/* header */\n\nh1 {}".to_owned(), SourceId::null()).unwrap();
    assert_eq!(sheet.entries.len(), 2);
    assert!(matches!(sheet.entries[0], Entry::Comment(_)));
    assert_eq!(sheet.to_string(None), "/* header */\n\nh1 {}");
    assert_eq!(sheet.to_string(Some(ToStringSettings::minified())), "h1{}");
}

#[test]
fn empty_input_is_an_empty_sheet() {
    let sheet = StyleSheet::from_string(String::new(), SourceId::null()).unwrap();
    assert_eq!(sheet.entries.len(), 0);
    assert_eq!(sheet.to_string(None), "");
}

#[test]
fn length_matches_rendered_text() {
    let sheet = StyleSheet::from_string(EXAMPLE.to_owned(), SourceId::null()).unwrap();
    assert_eq!(sheet.length(None), sheet.to_string(None).chars().count());
    assert_eq!(
        sheet.length(Some(ToStringSettings::minified())),
        sheet
            .to_string(Some(ToStringSettings::minified()))
            .chars()
            .count()
    );
}

#[test]
fn unterminated_string_is_an_error() {
    let err = StyleSheet::from_string("h1 { color: \"red; }".to_owned(), SourceId::null())
        .unwrap_err();
    assert_eq!(err.reason, "Could not find end to string");
}

#[test]
fn unterminated_comment_is_an_error() {
    let err =
        StyleSheet::from_string("/* never closes".to_owned(), SourceId::null()).unwrap_err();
    assert_eq!(err.reason, "Could not find end to comment");
}

#[test]
fn trailing_lone_dot_is_an_error() {
    let err = StyleSheet::from_string(".".to_owned(), SourceId::null()).unwrap_err();
    assert_eq!(err.reason, "Found trailing \".\"");
}

#[test]
fn invalid_character_is_an_error() {
    let err = StyleSheet::from_string("@".to_owned(), SourceId::null()).unwrap_err();
    assert_eq!(err.reason, "Invalid character");
}

#[test]
fn missing_block_is_an_error() {
    let err = StyleSheet::from_string("h1 color".to_owned(), SourceId::null()).unwrap_err();
    assert_eq!(err.reason, "Expected 'OpenCurly' found 'EOS'");
}

#[test]
fn leading_comma_is_an_error() {
    let err = StyleSheet::from_string(",x{}".to_owned(), SourceId::null()).unwrap_err();
    assert_eq!(err.reason, "Expected selector");
}

#[test]
fn declaration_name_must_be_an_ident() {
    let err = StyleSheet::from_string("h1 { 5: red; }".to_owned(), SourceId::null()).unwrap_err();
    assert_eq!(err.reason, "Expected ident found 'Number'");
}

#[test]
fn missing_value_is_an_error() {
    let err =
        StyleSheet::from_string("h1 { color: ; }".to_owned(), SourceId::null()).unwrap_err();
    assert_eq!(err.reason, "Expected value, found SemiColon");
}

#[test]
fn unterminated_block_is_an_error() {
    let err = StyleSheet::from_string("h1 { color: red".to_owned(), SourceId::null()).unwrap_err();
    assert_eq!(err.reason, "Expected 'SemiColon' found 'EOS'");
}

#[test]
fn bad_selector_start_is_an_error() {
    let err = StyleSheet::from_string("; {}".to_owned(), SourceId::null()).unwrap_err();
    assert_eq!(err.reason, "Expected valid selector found 'SemiColon'");
}

#[test]
fn function_value_in_declaration_is_an_error() {
    let err = StyleSheet::from_string("a { b: c(d); }".to_owned(), SourceId::null()).unwrap_err();
    assert_eq!(err.reason, "Function values are not supported");
}
