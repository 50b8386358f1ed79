use extends_rs::path::{
    crate_dir_probe, dirs_ready, lib_rs_probe, path_ready_exec, path_split, split_mod_path,
};

#[test]
fn name() {
    let attr = "rsdata::dbs::arbatis::base_struct::BaseDO@struct".to_string();
    let cwd = "/home/dev/extends-rs";
    assert!(path_ready_exec(&attr, cwd, true, "@"));
    let (path, block, kind) = path_split(&attr, cwd, true, false);
    assert_eq!(path, "/home/dev/rsdata/src/dbs/arbatis/base_struct.rs");
    assert_eq!(block, "BaseDO");
    assert_eq!(kind, "struct");
}

#[test]
fn probe_names_the_sibling_crate_directory() {
    let attr = "rsdata::dbs::base_struct::BaseDO@struct";
    assert_eq!(
        crate_dir_probe(attr, "/home/dev/extends-rs"),
        Some("/home/dev/rsdata".to_string())
    );
    assert_eq!(crate_dir_probe("crate::model::Base@struct", "/home/dev/extends-rs"), None);
}

#[test]
fn missing_sibling_goes_one_level_up_by_backslash() {
    let attr = "rsdata::dbs::base_struct::BaseDO@struct";
    let cwd = "C:\\work\\extends-rs";
    assert!(dirs_ready(attr, cwd, false));
    let (path, block, kind) = path_split(attr, cwd, false, false);
    assert_eq!(path, "C:/rsdata/src/dbs/base_struct.rs");
    assert_eq!(block, "BaseDO");
    assert_eq!(kind, "struct");
}

#[test]
fn missing_sibling_goes_one_level_up_by_slash() {
    let attr = "rsdata::dbs::arbatis::base_struct::BaseDO@struct";
    let cwd = "/h/w/app";
    assert!(dirs_ready(attr, cwd, false));
    let (path, block, kind) = path_split(attr, cwd, false, false);
    assert_eq!(path, "/h/rsdata/src/dbs/arbatis/base_struct.rs");
    assert_eq!(block, "BaseDO");
    assert_eq!(kind, "struct");
    assert!(!dirs_ready(attr, "app", true));
    assert!(!dirs_ready(attr, "/app", false));
}

#[test]
fn a_crate_named_like_the_keyword_is_a_sibling_crate() {
    let attr = "crater::m::B@struct";
    assert_eq!(crate_dir_probe(attr, "/w/app"), Some("/w/crater".to_string()));
    let (path, block, kind) = path_split(attr, "/w/app", true, false);
    assert_eq!(path, "/w/crater/src/m.rs");
    assert_eq!(block, "B");
    assert_eq!(kind, "struct");
}

#[test]
fn two_segments_use_lib_or_main() {
    let attr = "rsdata::BaseDO@struct";
    let cwd = "/home/dev/extends-rs";
    assert_eq!(
        lib_rs_probe(attr, cwd, true),
        Some("/home/dev/rsdata/src//lib.rs".to_string())
    );
    let (lib, _, _) = path_split(attr, cwd, true, true);
    assert_eq!(lib, "/home/dev/rsdata/src//lib.rs");
    let (main, block, kind) = path_split(attr, cwd, true, false);
    assert_eq!(main, "/home/dev/rsdata/src//main.rs");
    assert_eq!(block, "BaseDO");
    assert_eq!(kind, "struct");
    assert_eq!(lib_rs_probe("rsdata::a::BaseDO@struct", cwd, true), None);
}

#[test]
fn crate_local_path_stays_in_the_working_directory() {
    let attr = "crate::model::user::User@struct";
    let cwd = "/home/dev/app";
    assert!(path_ready_exec(attr, cwd, false, "@"));
    let (path, block, kind) = path_split(attr, cwd, false, false);
    assert_eq!(path, "/home/dev/app/src/model/user.rs");
    assert_eq!(block, "User");
    assert_eq!(kind, "struct");
}

#[test]
fn item_without_marker_is_not_ready() {
    assert!(!path_ready_exec("rsdata::a::BaseDO", "/home/dev/x", true, "@"));
    assert!(!path_ready_exec("BaseDO@struct", "/home/dev/x", true, "@"));
    assert!(!path_ready_exec("rsdata::a::BaseDO@struct", "nodir", true, "@"));
}

#[test]
fn star_marker_for_the_line_based_variant() {
    let attr = "rsdata::dbs::BaseDO*struct";
    assert!(path_ready_exec(attr, "/home/dev/extends-rs", true, "*"));
    let (path, block, kind) = split_mod_path(attr, "/home/dev/extends-rs", false);
    assert_eq!(path, "/home/dev/rsdata/src/dbs.rs");
    assert_eq!(block, "BaseDO");
    assert_eq!(kind, "struct");
}
