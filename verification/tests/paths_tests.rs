use bureaucrate::paths::{join_dir, path_is_strictly_under, path_is_under};

fn b(s: &str) -> Vec<u8> {
    s.as_bytes().to_vec()
}

#[test]
fn membership_is_a_component_prefix_test() {
    assert!(path_is_under(&b("crates/foo/src/lib.rs"), &b("crates/foo")));
    assert!(path_is_under(&b("crates/foo"), &b("crates/foo")));
    assert!(!path_is_under(&b("crates/foobar/src/lib.rs"), &b("crates/foo")));
    assert!(!path_is_under(&b("crates"), &b("crates/foo")));
    assert!(!path_is_under(&b("other/crates/foo/x"), &b("crates/foo")));
}

#[test]
fn the_empty_directory_holds_every_path() {
    assert!(path_is_under(&b("anything/at/all"), &b("")));
    assert!(path_is_under(&b(""), &b("")));
}

#[test]
fn strict_membership_excludes_the_directory_itself() {
    assert!(path_is_strictly_under(&b("crates/foo/src"), &b("crates/foo")));
    assert!(!path_is_strictly_under(&b("crates/foo"), &b("crates/foo")));
    assert!(path_is_strictly_under(&b("crates/foo"), &b("")));
    assert!(!path_is_strictly_under(&b(""), &b("")));
}

#[test]
fn joining_directories() {
    assert_eq!(join_dir(&b("crates/foo"), &b("extra")), b("crates/foo/extra"));
    assert_eq!(join_dir(&b(""), &b("extra")), b("extra"));
    assert_eq!(join_dir(&b("a"), &b("b/c")), b("a/b/c"));
}
