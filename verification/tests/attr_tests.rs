use std::str::FromStr;

use extends_rs::attr::{attr_pairs_ready, attr_value, clean_attr};

#[test]
fn cleaning_drops_quotes_spaces_and_slashes() {
    let raw = "derive = \"Debug,Clone\" && extends = \"rsdata::a/b::BaseDO@struct\"\n";
    assert_eq!(
        clean_attr(raw),
        "derive=Debug,Clone&&extends=rsdata::ab::BaseDO@struct"
    );
}

#[test]
fn last_value_of_a_key_wins() {
    let a = "derive=Debug&&extends=x::Y@struct&&derive=Clone";
    assert!(attr_pairs_ready(a));
    assert_eq!(attr_value(a, "derive"), Some("Clone".to_string()));
    assert_eq!(attr_value(a, "extends"), Some("x::Y@struct".to_string()));
    assert_eq!(attr_value(a, "other"), None);
}

#[test]
fn value_is_everything_after_the_first_equals() {
    let a = "extends=a=b";
    assert_eq!(attr_value(a, "extends"), Some("a=b".to_string()));
}

#[test]
fn segment_without_equals_is_refused() {
    assert!(!attr_pairs_ready("derive=Debug&&extends"));
    assert!(!attr_pairs_ready(""));
}

#[test]
fn printed_attribute_tokens_clean_to_key_value_pairs() {
    let attr = proc_macro2::TokenStream::from_str(
        "derive=\"Debug,Clone\"&&extends=\"rsdata::dbs::arbatis::base_struct::BaseDO@struct\"",
    )
    .unwrap();
    let cleaned = clean_attr(&attr.to_string());
    assert_eq!(cleaned, "derive=Debug,Clone&&extends=rsdata::dbs::arbatis::base_struct::BaseDO@struct");
    assert_eq!(attr_value(&cleaned, "derive"), Some("Debug,Clone".to_string()));
}
