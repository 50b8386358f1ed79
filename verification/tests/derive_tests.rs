use extends_rs::derive::merge_derive;

#[test]
fn parent_derives_come_first_and_child_adds_missing() {
    let r = merge_derive("#[derive(Debug, Clone)]".to_string(), "Clone,Default".to_string());
    assert_eq!(r, "#[derive(Debug,Clone,Default)]");
}

#[test]
fn blank_child_keeps_parent_derives() {
    let r = merge_derive("#[derive( Debug ,Clone )]".to_string(), "  ".to_string());
    assert_eq!(r, "#[derive(Debug,Clone)]");
}

#[test]
fn parent_without_derive_gives_child_list() {
    let r = merge_derive(String::new(), "Debug,Clone".to_string());
    assert_eq!(r, "#[derive(Debug,Clone)]");
}

#[test]
fn child_names_are_not_trimmed() {
    let r = merge_derive("#[derive(Debug)]".to_string(), "Debug, Clone".to_string());
    assert_eq!(r, "#[derive(Debug, Clone)]");
}
