use std::str::FromStr;

use extends_rs::attr::{attr_value, clean_attr};
use extends_rs::derive::merge_derive;
use extends_rs::extends::{extends_str, read_struct_attr};
use extends_rs::grammar::{ExtendsParser, SourceItem};
use extends_rs::path::{crate_dir_probe, lib_rs_probe, path_split};

#[test]
fn merged_derives_keep_parent_order_and_child_names() {
    let r = merge_derive("#[derive(Clone, Debug, PartialEq)]".to_string(), "Default,Debug,Hash".to_string());
    assert_eq!(r, "#[derive(Clone,Debug,PartialEq,Default,Hash)]");
}

#[test]
fn child_names_already_present_change_nothing() {
    let r = merge_derive("#[derive(Clone, Debug)]".to_string(), "Debug,Clone".to_string());
    assert_eq!(r, "#[derive(Clone,Debug)]");
}

#[test]
fn cleaning_twice_is_cleaning_once() {
    let raw = " derive = \"A, B\" // x \\ y\n";
    let once = clean_attr(raw);
    assert_eq!(clean_attr(&once), once);
    assert!(!once.contains(' ') && !once.contains('"') && !once.contains('/'));
}

#[test]
fn value_read_was_written_as_a_segment() {
    let a = "x=1&&extends=a::B@struct&&y=2";
    let v = attr_value(a, "extends").unwrap();
    let written = format!("extends={}", v);
    assert!(a.split("&&").any(|s| s == written));
}

#[test]
fn found_crate_directory_holds_the_module() {
    let attr = "rsdata::m::Base@struct";
    let cwd = "/srv/app";
    let probe = crate_dir_probe(attr, cwd).unwrap();
    let (file, _, _) = path_split(attr, cwd, true, false);
    assert!(file.starts_with(&format!("{}/src", probe)));
}

#[test]
fn found_lib_rs_is_the_module_file() {
    let attr = "rsdata::Base@struct";
    let cwd = "/srv/app";
    let probe = lib_rs_probe(attr, cwd, true).unwrap();
    let (file, _, _) = path_split(attr, cwd, true, true);
    assert_eq!(file, probe);
}

#[test]
fn item_name_and_kind_rejoin_to_the_last_segment() {
    let attr = "crate::a::b::Base@enum@x";
    let (_, name, kind) = path_split(attr, "/srv/app", false, false);
    assert_eq!(format!("{}@{}", name, kind), "Base@enum@x");
}

#[test]
fn one_summary_per_field_in_order() {
    let r = read_struct_attr("S", "pub c: Option<u8>,", "pub a: u8, pub b: String,").unwrap();
    assert_eq!(r.len(), 3);
    assert!(r[0].starts_with("a:") && r[1].starts_with("b:") && r[2].starts_with("c:"));
}

#[test]
fn found_items_are_named_by_identifiers() {
    let items = ExtendsParser::parse("struct A_1 {} impl B2 { fn f() {} } struct {} impl<T> C {}");
    let names: Vec<String> = items
        .iter()
        .map(|i| match i {
            SourceItem::Struct { name, .. } => name.clone(),
            SourceItem::Impl { name, .. } => name.clone(),
        })
        .collect();
    assert_eq!(names, vec!["A_1".to_string(), "B2".to_string()]);
}

#[test]
fn child_declares_own_then_parent_fields_and_ends_with_parent_impl() {
    let parent = "#[derive(Debug)]\nstruct P {\n  pub p: Option<u8>,\n}\nimpl P {\n  pub fn k() -> u8 { 7 }\n}\n";
    let out = extends_str(parent, "P", "derive=Clone", "struct C { pub c : Option < u16 > , }").unwrap();
    let printed = proc_macro2::TokenStream::from_str(&out).unwrap().to_string();
    let body = proc_macro2::TokenStream::from_str("pub fn k() -> u8 { 7 }").unwrap().to_string();
    let tail = format!("{} }}", body);
    let own = printed.find("pub c : Option < u16 >").unwrap();
    let inherited = printed.find("pub p : Option < u8 >").unwrap();
    let decl_end = printed.find("impl C").unwrap();
    assert!(printed.contains("pub struct C {"));
    assert!(own < inherited && inherited < decl_end);
    assert!(printed.ends_with(&tail));
}

#[test]
fn merging_again_gives_the_merged_attribute_back() {
    let r = merge_derive("#[derive( Debug , Clone)]".to_string(), "Clone,Default".to_string());
    assert_eq!(r, "#[derive(Debug,Clone,Default)]");
    assert_eq!(merge_derive(r.clone(), "Clone,Default".to_string()), r);
    assert_eq!(merge_derive(r.clone(), String::new()), r);
}

#[test]
fn naming_a_parent_derive_again_changes_nothing() {
    let p = "#[derive(Debug, Clone)]".to_string();
    assert_eq!(
        merge_derive(p.clone(), "Default,Clone".to_string()),
        merge_derive(p, "Default".to_string())
    );
}

#[test]
fn summaries_of_merged_fields_are_child_then_parent() {
    let both = read_struct_attr("S", "pub p: Option<u8>, pub q: i64,", "pub c: String,").unwrap();
    let child = read_struct_attr("S", "", "pub c: String,").unwrap();
    let parent = read_struct_attr("S", "pub p: Option<u8>, pub q: i64,", "").unwrap();
    assert_eq!(both, [child, parent].concat());
}

#[test]
fn merged_derives_name_each_derive_once() {
    let r = merge_derive("#[derive(Debug, Clone)]".to_string(), "Clone,Default,Default".to_string());
    assert_eq!(r, "#[derive(Debug,Clone,Default)]");
}

#[test]
fn child_made_of_printed_child_and_parent_pieces() {
    let parent = "#[derive(Debug)]\nstruct P {\n    pub p: Option<u8>, // note\n}\nimpl P {\n    fn p_one() -> u8 { 1 }\n}\n";
    let out = extends_str(parent, "P", "derive=Clone", "struct C { pub c : u16 , }").unwrap();
    let toks = |s: &str| proc_macro2::TokenStream::from_str(s).unwrap().to_string();
    let want = "#[derive(Debug,Clone)] pub struct C{ pub c : u16 , pub p: Option<u8>, } \
        impl C{ pub fn get_struct_name()->String{ String::from(\"C\") } \
        pub fn get_struct_attr_str()->Vec<String>{ vec!(String::from(\"c:u16\"),String::from(\"p:u8\")) } \
        pub fn new_none()->C{ C { c:None, p:None, } } fn p_one() -> u8 { 1 } }";
    assert_eq!(toks(&out), toks(want));
}
