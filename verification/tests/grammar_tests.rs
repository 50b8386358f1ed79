use extends_rs::grammar::{ExtendsParser, SourceItem};

fn describe(items: &[SourceItem]) -> Vec<String> {
    items
        .iter()
        .map(|i| match i {
            SourceItem::Struct { derive, name, body } => format!("S[{}|{}|{}]", derive, name, body),
            SourceItem::Impl { name, body } => format!("I[{}|{}]", name, body),
        })
        .collect()
}

#[test]
fn finds_struct_with_derive_and_impl() {
    let src = "use x;\n#[derive(Debug,Clone)]\npub struct BaseDO {\n    pub result: Option<bool>,\n}\nimpl BaseDO {\n    pub fn one() -> i32 { 1 }\n}\n";
    let items = ExtendsParser::parse(src);
    assert_eq!(
        describe(&items),
        vec![
            "S[#[derive(Debug,Clone)]|BaseDO|\n    pub result: Option<bool>,\n]".to_string(),
            "I[BaseDO|\n    pub fn one() -> i32 { 1 }\n]".to_string(),
        ]
    );
}

#[test]
fn finds_printed_struct_without_derive() {
    let items = ExtendsParser::parse("struct bbc { pub a : Option < i8 > , }");
    assert_eq!(describe(&items), vec!["S[|bbc| pub a : Option < i8 > , ]".to_string()]);
}

#[test]
fn spaced_derive_attribute_is_kept_as_written() {
    let items = ExtendsParser::parse("# [derive (Debug)] struct A { }");
    assert_eq!(describe(&items), vec!["S[# [derive (Debug)]|A| ]".to_string()]);
}

#[test]
fn unbalanced_body_is_not_an_item() {
    let items = ExtendsParser::parse("struct A { x: u8, ");
    assert!(items.is_empty());
    let items = ExtendsParser::parse("impl<T> A { }");
    assert!(items.is_empty());
}
