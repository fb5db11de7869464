use css_parser::span::SourceId;
use css_parser::Selector;

#[test]
fn tag_name() {
    let selector = Selector::from_string("h1".to_owned(), SourceId::null(), None).unwrap();
    assert_eq!(
        selector.tag_name,
        Some("h1".to_owned()),
        "Bad selector {:?}",
        selector
    );
}

#[test]
fn id() {
    let selector = Selector::from_string("#button1".to_owned(), SourceId::null(), None).unwrap();
    assert_eq!(
        selector.identifier,
        Some("button1".to_owned()),
        "Bad selector {:?}",
        selector
    );
}

#[test]
fn class_name() {
    let selector1 = Selector::from_string(".container".to_owned(), SourceId::null(), None).unwrap();
    assert_eq!(
        selector1.class_names.as_ref().unwrap()[0],
        "container".to_owned(),
        "Bad selector {:?}",
        selector1
    );
    let selector2 =
        Selector::from_string(".container.center-x".to_owned(), SourceId::null(), None).unwrap();
    assert_eq!(
        selector2.class_names.as_ref().unwrap().len(),
        2,
        "Bad selector {:?}",
        selector2
    );
}

#[test]
fn descendant() {
    let selector = Selector::from_string("div .button".to_owned(), SourceId::null(), None).unwrap();
    assert_eq!(
        selector.tag_name,
        Some("div".to_owned()),
        "Bad selector {:?}",
        selector
    );
    let descendant_selector = *selector.descendant.unwrap();
    assert_eq!(
        descendant_selector.class_names.as_ref().unwrap()[0],
        "button".to_owned(),
        "Bad selector {:?}",
        descendant_selector
    );
}

#[test]
fn child() {
    let selector = Selector::from_string("div > h1".to_owned(), SourceId::null(), None).unwrap();
    assert_eq!(
        selector.tag_name,
        Some("div".to_owned()),
        "Bad selector {:?}",
        selector
    );
    let child_selector = *selector.child.unwrap();
    assert_eq!(
        child_selector.tag_name,
        Some("h1".to_owned()),
        "Bad selector {:?}",
        child_selector
    );
}

#[test]
fn child_leaves_descendant_empty() {
    let selector = Selector::from_string("div > h1".to_owned(), SourceId::null(), None).unwrap();
    assert!(selector.descendant.is_none());
    let descendant = Selector::from_string("div h1".to_owned(), SourceId::null(), None).unwrap();
    assert!(descendant.child.is_none());
    assert_eq!(descendant.descendant.unwrap().tag_name, Some("h1".to_owned()));
}

#[test]
fn universal_selector() {
    let selector = Selector::from_string("*".to_owned(), SourceId::null(), None).unwrap();
    assert_eq!(selector.tag_name, Some("*".to_owned()));
}

#[test]
fn universal_with_class_is_one_compound() {
    // `*` and `.a` are lexically adjacent, so they form one compound
    // selector rather than a descendant pair.
    let selector = Selector::from_string("*.a".to_owned(), SourceId::null(), None).unwrap();
    assert_eq!(selector.tag_name, Some("*".to_owned()));
    assert_eq!(selector.class_names.as_ref().unwrap()[0], "a".to_owned());
    assert!(selector.descendant.is_none());
}

#[test]
fn tag_name_twice_is_an_error() {
    assert!(Selector::from_string("h1*".to_owned(), SourceId::null(), None).is_err());
}

#[test]
fn id_twice_is_an_error() {
    assert!(Selector::from_string("#a#b".to_owned(), SourceId::null(), None).is_err());
}

#[test]
fn leading_child_combinator_is_an_error() {
    let err = Selector::from_string("> h1".to_owned(), SourceId::null(), None).unwrap_err();
    assert_eq!(err.reason, "Expected selector start, found '>'");
}

#[test]
fn trailing_input_after_selector_is_an_error() {
    let err = Selector::from_string("h1{".to_owned(), SourceId::null(), None).unwrap_err();
    assert_eq!(err.reason, "Expected 'EOS' found 'OpenCurly'");
}

#[test]
fn nest_selector_appends_at_chain_tail() {
    let outer = Selector::from_string("div > h1".to_owned(), SourceId::null(), None).unwrap();
    let inner = Selector::from_string(".x".to_owned(), SourceId::null(), None).unwrap();
    let nested = outer.nest_selector(inner);
    let child = *nested.child.unwrap();
    let tail = *child.descendant.unwrap();
    assert_eq!(tail.class_names.as_ref().unwrap()[0], "x".to_owned());
}
