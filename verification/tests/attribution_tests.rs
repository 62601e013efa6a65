use bureaucrate::attribution::{
    attributed_indices, commit_touches_package, delta_touches_package, Delta,
};
use bureaucrate::graph::Package;
use bureaucrate::version::Version;

fn b(s: &str) -> Vec<u8> {
    s.as_bytes().to_vec()
}

fn pkg(dir: &str, extra_dirs: &[&str]) -> Package {
    Package {
        name: "pkg".to_string(),
        version: Version::new(0, 1, 0),
        dir: b(dir),
        extra_dirs: extra_dirs.iter().map(|d| b(d)).collect(),
        deps: Vec::new(),
    }
}

fn change(path: &str) -> Delta {
    Delta { old_path: Some(b(path)), new_path: Some(b(path)) }
}

#[test]
fn a_change_under_the_package_directory_touches_it() {
    let p = pkg("crates/foo", &[]);
    assert!(delta_touches_package(&change("crates/foo/src/lib.rs"), &p));
    assert!(!delta_touches_package(&change("crates/bar/src/lib.rs"), &p));
    assert!(!delta_touches_package(&change("crates/foobar/src/lib.rs"), &p));
}

#[test]
fn a_rename_into_the_package_directory_touches_it() {
    let p = pkg("crates/foo", &[]);
    let rename_in = Delta {
        old_path: Some(b("docs/readme.md")),
        new_path: Some(b("crates/foo/readme.md")),
    };
    assert!(delta_touches_package(&rename_in, &p));
    let rename_out = Delta {
        old_path: Some(b("crates/foo/old.rs")),
        new_path: Some(b("attic/old.rs")),
    };
    assert!(delta_touches_package(&rename_out, &p));
    let unrelated = Delta {
        old_path: Some(b("docs/a.md")),
        new_path: Some(b("docs/b.md")),
    };
    assert!(!delta_touches_package(&unrelated, &p));
}

#[test]
fn added_and_deleted_files_have_one_path() {
    let p = pkg("crates/foo", &[]);
    let added = Delta { old_path: None, new_path: Some(b("crates/foo/new.rs")) };
    assert!(delta_touches_package(&added, &p));
    let deleted = Delta { old_path: Some(b("crates/foo/gone.rs")), new_path: None };
    assert!(delta_touches_package(&deleted, &p));
    let empty = Delta { old_path: None, new_path: None };
    assert!(!delta_touches_package(&empty, &p));
}

#[test]
fn extra_directories_count_as_the_package() {
    let p = pkg("crates/foo", &["crates/foo/assets", "shared/schemas"]);
    assert!(commit_touches_package(&vec![change("shared/schemas/v1.json")], &p));
    assert!(!commit_touches_package(&vec![change("shared/other/v1.json")], &p));
}

#[test]
fn attribution_keeps_commit_order_and_membership() {
    let p = pkg("crates/foo", &[]);
    let commits = vec![
        vec![change("crates/foo/a.rs")],
        vec![change("crates/bar/b.rs")],
        vec![change("docs/c.md"), change("crates/foo/d.rs")],
        vec![],
        vec![change("crates/foo/e.rs"), change("crates/foo/f.rs")],
    ];
    let idx = attributed_indices(&commits, &p);
    assert_eq!(idx, vec![0, 2, 4]);
}

#[test]
fn a_commit_is_attributed_once_however_many_files_match() {
    let p = pkg("crates/foo", &[]);
    let commits = vec![vec![
        change("crates/foo/a.rs"),
        change("crates/foo/b.rs"),
        change("crates/foo/c.rs"),
    ]];
    let idx = attributed_indices(&commits, &p);
    assert_eq!(idx, vec![0]);
}
