use external_app_sync::bundle::{base_name_of, get_applications_dir, is_app_bundle, is_bundle_entry, join};

#[test]
fn bundle_paths_are_recognised() {
    assert!(is_app_bundle("/Volumes/Ext/Foo.app"));
    assert!(is_app_bundle("Foo.app"));
    assert!(is_app_bundle("a.b.app"));
    assert!(is_app_bundle("/x/..app"));
}

#[test]
fn non_bundle_paths_are_rejected() {
    assert!(!is_app_bundle(""));
    assert!(!is_app_bundle("/Volumes/Ext/.app"));
    assert!(!is_app_bundle("/Volumes/Ext/Foo.APP"));
    assert!(!is_app_bundle("/Volumes/Ext/Foo.app/Contents"));
    assert!(!is_app_bundle("/Volumes/Ext/Foo.apps"));
    assert!(!is_app_bundle("/Volumes/Ext/app"));
}

#[test]
fn bundle_entries_are_recognised() {
    assert!(is_bundle_entry("Foo.app"));
    assert!(!is_bundle_entry(".app"));
    assert!(!is_bundle_entry("Foo.txt"));
}

#[test]
fn base_name_is_last_component() {
    assert_eq!(base_name_of("/Volumes/Ext/Foo.app"), "Foo.app");
    assert_eq!(base_name_of("Foo.app"), "Foo.app");
    assert_eq!(base_name_of("/"), "");
    assert_eq!(base_name_of("/Volumes/Ext/Café.app"), "Café.app");
}

#[test]
fn join_puts_one_separator() {
    assert_eq!(join("/Applications", "Foo.app"), "/Applications/Foo.app");
    assert_eq!(join("/Applications/", "Foo.app"), "/Applications/Foo.app");
    assert_eq!(join("", "Foo.app"), "Foo.app");
}

#[test]
fn applications_dir_is_fixed() {
    assert_eq!(get_applications_dir(), "/Applications");
}

#[test]
fn trailing_separators_and_cur_dirs_are_ignored() {
    assert!(is_app_bundle("/Volumes/External/Foo.app/"));
    assert!(is_app_bundle("/Volumes/External/Foo.app//"));
    assert!(is_app_bundle("/Volumes/External/Foo.app/."));
    assert!(is_app_bundle("/Volumes/External/Foo.app/./"));
    assert_eq!(base_name_of("/Volumes/External/Foo.app/"), "Foo.app");
    assert_eq!(base_name_of("/Volumes/External/Foo.app/./."), "Foo.app");
    assert_eq!(base_name_of("./Foo.app"), "Foo.app");
    assert_eq!(base_name_of("a.b."), "a.b.");
}

#[test]
fn parent_and_empty_components_have_no_name() {
    assert_eq!(base_name_of("/Volumes/.."), "");
    assert_eq!(base_name_of(".."), "");
    assert_eq!(base_name_of("."), "");
    assert_eq!(base_name_of("./"), "");
    assert!(!is_app_bundle("/Volumes/Foo.app/.."));
    assert!(!is_app_bundle("/"));
}
