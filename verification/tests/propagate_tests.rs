use bureaucrate::bump::Bump;
use bureaucrate::generator::Verdict;
use bureaucrate::graph::{Package, WorkspaceGraph};
use bureaucrate::propagate::propagate;
use bureaucrate::status::{new_statuses, PackageStatus, Reason};
use bureaucrate::version::Version;

fn b(s: &str) -> Vec<u8> {
    s.as_bytes().to_vec()
}

fn pkg(dir: &str, version: Version, deps: Vec<usize>) -> Package {
    Package {
        name: dir.to_string(),
        version,
        dir: b(dir),
        extra_dirs: Vec::new(),
        deps,
    }
}

fn bumps(statuses: &[PackageStatus]) -> Vec<Bump> {
    statuses.iter().map(|s| s.bump).collect()
}

#[test]
fn fresh_statuses_are_neutral() {
    let g = WorkspaceGraph {
        packages: vec![
            pkg("a", Version::new(1, 2, 3), vec![]),
            pkg("b", Version::new(0, 4, 5), vec![]),
        ],
    };
    let statuses = new_statuses(&g);
    assert_eq!(statuses.len(), 2);
    for (s, p) in statuses.iter().zip(g.packages.iter()) {
        assert_eq!(s.bump, Bump::NoBump);
        assert!(s.changelog.is_empty());
        assert!(s.bump_reasons.is_empty());
        assert_eq!(s.version, p.version);
    }
}

#[test]
fn recording_a_verdict_keeps_a_reason_for_non_neutral_bumps() {
    let mut s = PackageStatus::new(Version::new(0, 1, 0));
    s.record_verdict(Verdict { changelog: "- change\n".to_string(), bump: Bump::Minor });
    assert_eq!(s.bump, Bump::Minor);
    assert_eq!(s.changelog, "- change\n");
    assert_eq!(s.bump_reasons, vec![Reason::Classifier(Bump::Minor)]);

    let mut quiet = PackageStatus::new(Version::new(0, 1, 0));
    quiet.record_verdict(Verdict { changelog: String::new(), bump: Bump::NoBump });
    assert_eq!(quiet.bump, Bump::NoBump);
    assert!(quiet.bump_reasons.is_empty());
}

#[test]
fn a_bumped_dependency_raises_the_dependent_to_patch() {
    // Package "a" depends on package "b"; only "b" has its own commits.
    let g = WorkspaceGraph {
        packages: vec![
            pkg("a", Version::new(0, 2, 0), vec![1]),
            pkg("b", Version::new(0, 1, 0), vec![]),
        ],
    };
    let pairs = g.nested_pairs();
    assert!(pairs.is_empty());
    let mut statuses = new_statuses(&g);
    statuses[1].record_verdict(Verdict { changelog: "- b changed\n".to_string(), bump: Bump::Minor });
    statuses[0].record_verdict(Verdict { changelog: String::new(), bump: Bump::NoBump });

    propagate(&mut statuses, &pairs, &g);

    assert_eq!(bumps(&statuses), vec![Bump::Patch, Bump::Minor]);
    assert_eq!(statuses[0].bump_reasons, vec![Reason::DependencyBumped(1)]);
    assert_eq!(statuses[1].bump_reasons, vec![Reason::Classifier(Bump::Minor)]);
}

#[test]
fn nested_packages_end_with_equal_bumps() {
    // "outer/inner" is nested in "outer"; only "outer" is classified.
    let g = WorkspaceGraph {
        packages: vec![
            pkg("outer", Version::new(1, 0, 0), vec![]),
            pkg("outer/inner", Version::new(0, 3, 0), vec![]),
        ],
    };
    let pairs = g.nested_pairs();
    assert_eq!(pairs, vec![(0, 1)]);
    let mut statuses = new_statuses(&g);
    statuses[0].record_verdict(Verdict { changelog: "- breaking\n".to_string(), bump: Bump::Major });

    propagate(&mut statuses, &pairs, &g);

    assert_eq!(bumps(&statuses), vec![Bump::Major, Bump::Major]);
    assert_eq!(statuses[1].bump_reasons, vec![Reason::NestedEqual]);
}

#[test]
fn nesting_raises_the_outer_side_too() {
    let g = WorkspaceGraph {
        packages: vec![
            pkg("outer", Version::new(1, 0, 0), vec![]),
            pkg("outer/inner", Version::new(0, 3, 0), vec![]),
        ],
    };
    let pairs = g.nested_pairs();
    let mut statuses = new_statuses(&g);
    // The inner package is raised through a dependency of its own, the
    // outer one has no commits: equalization must go inner -> outer.
    statuses[1].record_verdict(Verdict { changelog: String::new(), bump: Bump::Minor });

    propagate(&mut statuses, &pairs, &g);
    assert_eq!(bumps(&statuses), vec![Bump::Minor, Bump::Minor]);
    assert_eq!(statuses[0].bump_reasons, vec![Reason::NestedEqual]);
}

#[test]
fn propagation_is_idempotent_and_chains_rules() {
    // "app" depends on "outer/inner"; "outer" gets a Minor verdict. The
    // nesting rule raises "outer/inner", which then raises "app" to Patch.
    let g = WorkspaceGraph {
        packages: vec![
            pkg("outer", Version::new(0, 5, 0), vec![]),
            pkg("outer/inner", Version::new(0, 2, 0), vec![]),
            pkg("app", Version::new(2, 0, 1), vec![1]),
        ],
    };
    let pairs = g.nested_pairs();
    let mut statuses = new_statuses(&g);
    statuses[0].record_verdict(Verdict { changelog: "- tweak\n".to_string(), bump: Bump::Minor });

    propagate(&mut statuses, &pairs, &g);
    assert_eq!(bumps(&statuses), vec![Bump::Minor, Bump::Minor, Bump::Patch]);
    assert_eq!(statuses[2].bump_reasons, vec![Reason::DependencyBumped(1)]);

    let bumps_before: Vec<Bump> = bumps(&statuses);
    let reasons_before: Vec<Vec<Reason>> =
        statuses.iter().map(|s| s.bump_reasons.clone()).collect();
    propagate(&mut statuses, &pairs, &g);
    assert_eq!(bumps(&statuses), bumps_before);
    let reasons_after: Vec<Vec<Reason>> =
        statuses.iter().map(|s| s.bump_reasons.clone()).collect();
    assert_eq!(reasons_after, reasons_before);
}

#[test]
fn propagation_only_guarantees_a_patch_for_dependents() {
    let g = WorkspaceGraph {
        packages: vec![
            pkg("dep", Version::new(1, 0, 0), vec![]),
            pkg("user", Version::new(1, 0, 0), vec![0]),
        ],
    };
    let pairs = g.nested_pairs();
    let mut statuses = new_statuses(&g);
    statuses[0].record_verdict(Verdict { changelog: "- breaking\n".to_string(), bump: Bump::Major });

    propagate(&mut statuses, &pairs, &g);
    assert_eq!(bumps(&statuses), vec![Bump::Major, Bump::Patch]);
}

#[test]
fn both_constraints_hold_after_propagation() {
    let g = WorkspaceGraph {
        packages: vec![
            pkg("a", Version::new(0, 1, 0), vec![1, 3]),
            pkg("a/sub", Version::new(0, 1, 0), vec![]),
            pkg("b", Version::new(0, 1, 0), vec![3]),
            pkg("c", Version::new(0, 1, 0), vec![]),
        ],
    };
    let pairs = g.nested_pairs();
    let mut statuses = new_statuses(&g);
    statuses[3].record_verdict(Verdict { changelog: "- c\n".to_string(), bump: Bump::Patch });

    propagate(&mut statuses, &pairs, &g);

    for (o, i) in &pairs {
        assert_eq!(statuses[*o].bump, statuses[*i].bump);
    }
    for (i, p) in g.packages.iter().enumerate() {
        for d in &p.deps {
            if statuses[*d].bump > Bump::NoBump {
                assert!(statuses[i].bump >= Bump::Patch);
            }
        }
    }
}

#[test]
fn final_versions_follow_the_bump_rules() {
    let mut s = PackageStatus::new(Version::new(0, 3, 2));
    s.record_verdict(Verdict { changelog: String::new(), bump: Bump::Major });
    assert_eq!(s.final_version(), Version::new(0, 4, 0));

    let untouched = PackageStatus::new(Version::new(2, 1, 5));
    assert_eq!(untouched.final_version(), Version::new(2, 1, 5));
}
