use std::str::FromStr;

use extends_rs::extends::{extends_str, get_new_none, read_struct_attr, ExtendsError};
use extends_rs::fields::{field_attr_strings, first_ident_strings, none_initializers, option_inner_exec};
use extends_rs::struct_extends::{scan_struct_block, struct_block_found, struct_extends};

fn tokens(s: &str) -> String {
    proc_macro2::TokenStream::from_str(s).unwrap().to_string()
}

const PARENT: &str = "#[derive(Debug,Clone)]\npub struct BaseDO {\n    pub result: Option<bool>, // set after the call\n}\nimpl BaseDO {\n    pub fn one() -> i32 { 1 }\n}\n";

#[test]
fn child_takes_parent_fields_derives_and_impl() {
    let out = extends_str(
        PARENT,
        "BaseDO",
        "derive=Debug,Default&&extends=rsdata::BaseDO@struct",
        "struct bbc { pub a : Option < i8 > , }",
    )
    .unwrap();
    let want = "#[derive(Debug,Clone,Default)] pub struct bbc{ pub a : Option < i8 > , pub result: Option<bool>, } \
        impl bbc{ pub fn get_struct_name()->String{ String::from(\"bbc\") } \
        pub fn get_struct_attr_str()->Vec<String>{ vec!(String::from(\"a:i8\"),String::from(\"result:bool\")) } \
        pub fn new_none()->bbc{ bbc { a:None, result:None, } } pub fn one() -> i32 { 1 } }";
    assert_eq!(tokens(&out), tokens(want));
}

#[test]
fn attribute_segment_without_equals_is_an_error() {
    let r = extends_str(PARENT, "BaseDO", "derive", "struct bbc { pub a : i8 , }");
    assert_eq!(r, Err(ExtendsError::Attribute));
}

#[test]
fn no_derive_anywhere_is_an_error() {
    let parent = "pub struct BaseDO { pub x: Option<u8>, }";
    let r = extends_str(parent, "BaseDO", "extends=a::BaseDO@struct", "struct bbc { pub a : i8 , }");
    assert_eq!(r, Err(ExtendsError::Derive));
}

#[test]
fn unlexable_parent_is_an_error() {
    let parent = "#[derive(Debug)] pub struct BaseDO { pub x: \"open, }";
    let r = extends_str(parent, "BaseDO", "derive=Debug", "struct bbc { pub a : i8 , }");
    assert_eq!(r, Err(ExtendsError::Tokens));
}

#[test]
fn fields_that_do_not_parse_are_an_error() {
    let parent = "#[derive(Debug)] pub struct BaseDO { fn x() }";
    let r = extends_str(parent, "BaseDO", "derive=Debug", "struct bbc { pub a : i8 , }");
    assert_eq!(r, Err(ExtendsError::StructSyntax));
}

#[test]
fn option_named_type_without_brackets_is_an_error() {
    let r = read_struct_attr("bbc", "", "pub a: MyOption,");
    assert_eq!(r, Err(ExtendsError::FieldType));
}

#[test]
fn field_summaries_strip_option() {
    let r = read_struct_attr("bbc", "pub b: Option<Vec<u8>>, pub c: &'static str,", "pub a: u8,").unwrap();
    assert_eq!(r, vec!["a:u8".to_string(), "b:Vec < u8 >".to_string(), "c:".to_string()]);
}

#[test]
fn new_none_initializes_every_field() {
    let f = get_new_none("bbc", "pub b: Option<u8>,", "pub a: Option<i8>,").unwrap();
    assert_eq!(tokens(&f), tokens("pub fn new_none()->bbc{ bbc { a:None, b:None, } }"));
}

#[test]
fn initializers_are_read_between_the_braces() {
    assert_eq!(
        none_initializers("pub struct X { pub public: u8, y: u8 }"),
        "public:None,y:None,".to_string()
    );
    assert_eq!(none_initializers("X { } trailing: u8,"), "".to_string());
}

#[test]
fn option_inner_uses_byte_indices_as_char_indices() {
    assert_eq!(option_inner_exec("Option < Vec < u8 > >"), "Vec < u8 >".to_string());
    assert_eq!(option_inner_exec("\u{c4}\u{e4}Option<xy>"), ">".to_string());
    assert_eq!(option_inner_exec("Vec < u8 >"), "Vec < u8 >".to_string());
}

const LINES: &str = "use std::fmt;\n#[derive(Clone,Debug)]\npub struct BaseDO {\n    pub id: Option<i64>,\n    pub name: Option<String>,\n}\n";

#[test]
fn block_is_cut_out_line_by_line() {
    let (content, derives) = scan_struct_block(LINES, "BaseDO");
    assert_eq!(content, "    pub id: Option<i64>,    pub name: Option<String>,");
    assert_eq!(derives, vec!["Clone".to_string(), "Debug".to_string()]);
}

#[test]
fn block_on_the_first_line_or_missing_is_refused() {
    assert!(!struct_block_found("pub struct BaseDO {\n}\n", "BaseDO"));
    assert!(!struct_block_found(LINES, "Other"));
    assert!(!struct_block_found("x\n#[derive(Debug\nstruct BaseDO {\n}\n", "BaseDO"));
    assert!(struct_block_found(LINES, "BaseDO"));
}

#[test]
fn line_based_child_gets_parent_fields() {
    let (content, derives) = scan_struct_block(LINES, "BaseDO");
    let out = struct_extends(
        "derive=Debug&&extends=rsdata::BaseDO*struct",
        "struct Child { pub x : u8 , y : String }",
        &content,
        &derives,
    )
    .unwrap();
    let want = "#[derive(Debug,Clone)] struct Child { pub x:u8, pub y:String, pub id: Option<i64>, pub name: Option<String>, } \
        impl Child{ fn get_struct_name()->String{ String::from(\"Child\") } \
        fn get_struct_attr_str()->Vec<String>{ vec!(String::from(\"x:u8\"),String::from(\"y:String\"),String::from(\"id:Option\"),String::from(\"name:Option\")) } \
        pub fn new_none()->Child{ Child { x:None, y:None, id:None, name:None, } } }";
    assert_eq!(tokens(&out), tokens(want));
}

#[test]
fn line_based_child_without_any_derive_is_an_error() {
    let r = struct_extends("extends=a::B*struct", "struct Child { x : u8 }", "", &Vec::new());
    assert_eq!(r, Err(ExtendsError::Derive));
}

#[test]
fn line_based_child_that_is_not_a_struct_is_an_error() {
    let r = struct_extends("derive=Debug", "fn child() {}", "", &Vec::new());
    assert_eq!(r, Err(ExtendsError::StructSyntax));
}

fn field(name: &str, ty: &str, path: Option<(&str, &[&str])>) -> extends_rs::tokens::FieldInfo {
    extends_rs::tokens::FieldInfo {
        name: Some(name.to_string()),
        ty: ty.to_string(),
        path: path.map(|(a, b)| extends_rs::tokens::PathInfo {
            tokens: a.to_string(),
            idents: b.iter().map(|s| s.to_string()).collect(),
        }),
    }
}

#[test]
fn summaries_of_given_fields() {
    let fields = vec![
        field("a", "Option < i8 >", Some(("Option < i8 >", &["Option"]))),
        field("b", "std :: string :: String", Some(("std :: string :: String", &["std", "string", "String"]))),
        field("c", "[u8 ; 4]", None),
    ];
    assert_eq!(
        field_attr_strings(&fields),
        vec!["a:i8".to_string(), "b:std :: string :: String".to_string(), "c:".to_string()]
    );
    assert_eq!(
        first_ident_strings(&fields),
        vec!["a:Option".to_string(), "b:std".to_string(), "c:".to_string()]
    );
}

#[test]
fn only_a_leading_pub_is_removed_from_field_names() {
    let f = get_new_none("S", "", "pub publisher: Option<i8>, pub(crate) reuse: u8, pubx: u8,").unwrap();
    assert_eq!(
        tokens(&f),
        tokens("pub fn new_none()->S{ S { publisher:None, reuse:None, pubx:None, } }")
    );
}

#[test]
fn only_the_struct_with_exactly_the_name_is_cut_out() {
    let text = "#[derive(Debug)]\nstruct P {\n    pub x: Option<i8>,\n}\nstruct PX {\n    pub y: Option<i8>,\n}\n";
    let (content, derives) = scan_struct_block(text, "P");
    assert_eq!(content, "    pub x: Option<i8>,");
    assert_eq!(derives, vec!["Debug".to_string()]);
}

#[test]
fn line_based_derives_are_a_union_by_trimmed_name() {
    let text = "use x;\n#[derive(Eq, Clone)]\nstruct P {\n    pub x: Option<i8>,\n}\n";
    let (content, derives) = scan_struct_block(text, "P");
    let out = struct_extends(
        "derive=Clone,PartialEq&&extends=a::P*struct",
        "struct C { pub c : u8 , }",
        &content,
        &derives,
    )
    .unwrap();
    assert!(tokens(&out).starts_with(&tokens("#[derive(Clone,PartialEq,Eq)]")));
}

#[test]
fn input_without_a_struct_has_no_name() {
    let r = extends_str(PARENT, "BaseDO", "derive=Debug", "fn child() {}");
    assert_eq!(r, Err(ExtendsError::Name));
    let r = extends_str(PARENT, "BaseDO", "derive=Debug", "struct 1bbc { pub a : i8 , }");
    assert_eq!(r, Err(ExtendsError::Name));
}

#[test]
fn missing_parent_gives_the_child_fields_only() {
    let out = extends_str("", "BaseDO", "derive=Debug", "struct bbc { pub a : Option < i8 > , }").unwrap();
    let want = "#[derive(Debug)] pub struct bbc{ pub a : Option < i8 > , } \
        impl bbc{ pub fn get_struct_name()->String{ String::from(\"bbc\") } \
        pub fn get_struct_attr_str()->Vec<String>{ vec!(String::from(\"a:i8\")) } \
        pub fn new_none()->bbc{ bbc { a:None, } } }";
    assert_eq!(tokens(&out), tokens(want));
}

#[test]
fn parent_is_chosen_by_its_exact_name() {
    let parent = "#[derive(Clone)]\nstruct BaseDOExt { pub x: u8, }\nimpl BaseDOExt { fn ext() {} }\n\
        #[derive(Debug)]\nstruct BaseDO { pub p: u8, }\nimpl BaseDO { fn base() {} }\n";
    let out = extends_str(parent, "BaseDO", "derive=Debug", "struct C { pub c : u8 , }").unwrap();
    let want = "#[derive(Debug)] pub struct C{ pub c : u8 , pub p: u8, } \
        impl C{ pub fn get_struct_name()->String{ String::from(\"C\") } \
        pub fn get_struct_attr_str()->Vec<String>{ vec!(String::from(\"c:u8\"),String::from(\"p:u8\")) } \
        pub fn new_none()->C{ C { c:None, p:None, } } fn base() {} }";
    assert_eq!(tokens(&out), tokens(want));
}
