//! Attributing commits to a package: a commit belongs to a package when,
//! in some comparison against a parent tree, a changed file's old or new
//! path lies under the package's own directory or one of its configured
//! extra directories.

use vstd::prelude::*;

use crate::graph::Package;
use crate::paths::in_dir;
use crate::paths::path_is_under;

verus! {

/// One changed file of one tree comparison: the file's path before and
/// after the change, either of which may be absent (an added or deleted
/// file has only one of them, a rename has both and they differ).
#[derive(Debug, Clone, PartialEq, Eq)]
pub struct Delta {
    pub old_path: Option<Vec<u8>>,
    pub new_path: Option<Vec<u8>>,
}

/// Whether a path lies under the package's own directory or one of its
/// extra directories.
pub open spec fn in_package_dirs(p: Seq<u8>, pkg: Package) -> bool {
    in_dir(p, pkg.dir@) || exists|k: int|
        0 <= k < pkg.extra_dirs@.len() && in_dir(p, pkg.extra_dirs@[k]@)
}

/// Whether a changed file touches the package: its old or its new path
/// lies in the package's directory set.
pub open spec fn delta_touches(d: Delta, pkg: Package) -> bool {
    ||| (d.old_path matches Some(p) && in_package_dirs(p@, pkg))
    ||| (d.new_path matches Some(p) && in_package_dirs(p@, pkg))
}

/// Whether any changed file of a commit touches the package.
pub open spec fn commit_touches(deltas: Seq<Delta>, pkg: Package) -> bool {
    exists|i: int| 0 <= i < deltas.len() && delta_touches(deltas[i], pkg)
}

/// Whether the path lies in the package's directory set.
pub fn path_in_package_dirs(p: &Vec<u8>, pkg: &Package) -> (r: bool)
    ensures
        r == in_package_dirs(p@, *pkg),
{
    if path_is_under(p, &pkg.dir) {
        return true;
    }
    let mut k: usize = 0;
    while k < pkg.extra_dirs.len()
        invariant
            k <= pkg.extra_dirs@.len(),
            forall|j: int| 0 <= j < k ==> !in_dir(p@, pkg.extra_dirs@[j]@),
        decreases pkg.extra_dirs@.len() - k,
    {
        if path_is_under(p, &pkg.extra_dirs[k]) {
            return true;
        }
        k += 1;
    }
    false
}

/// Whether the changed file touches the package.
pub fn delta_touches_package(d: &Delta, pkg: &Package) -> (r: bool)
    ensures
        r == delta_touches(*d, *pkg),
{
    let old_hit = match &d.old_path {
        Some(p) => path_in_package_dirs(p, pkg),
        None => false,
    };
    if old_hit {
        return true;
    }
    match &d.new_path {
        Some(p) => path_in_package_dirs(p, pkg),
        None => false,
    }
}

/// Whether any changed file of the commit touches the package. A commit is
/// attributed once however many of its changed files or parent comparisons
/// match, so callers may pass the deltas of all parent comparisons at once.
pub fn commit_touches_package(deltas: &Vec<Delta>, pkg: &Package) -> (r: bool)
    ensures
        r == commit_touches(deltas@, *pkg),
{
    let mut i: usize = 0;
    while i < deltas.len()
        invariant
            i <= deltas@.len(),
            forall|j: int| 0 <= j < i ==> !delta_touches(deltas@[j], *pkg),
        decreases deltas@.len() - i,
    {
        if delta_touches_package(&deltas[i], pkg) {
            return true;
        }
        i += 1;
    }
    false
}

/// The positions, in order, of the commits attributed to the package, given
/// each visited commit's changed files (all parent comparisons together),
/// in the order the history walk produced the commits.
pub fn attributed_indices(commit_deltas: &Vec<Vec<Delta>>, pkg: &Package) -> (idx: Vec<usize>)
    ensures
        forall|j: int, k: int| 0 <= j < k < idx@.len() ==> idx@[j] < idx@[k],
        forall|j: int|
            0 <= j < idx@.len() ==> idx@[j] < commit_deltas@.len() && commit_touches(
                (#[trigger] commit_deltas@[idx@[j] as int])@,
                *pkg,
            ),
        forall|c: int|
            0 <= c < commit_deltas@.len() && commit_touches((#[trigger] commit_deltas@[c])@, *pkg)
                ==> idx@.contains(c as usize),
{
    let mut idx: Vec<usize> = Vec::new();
    let mut i: usize = 0;
    while i < commit_deltas.len()
        invariant
            i <= commit_deltas@.len(),
            forall|j: int, k: int| 0 <= j < k < idx@.len() ==> idx@[j] < idx@[k],
            forall|j: int| 0 <= j < idx@.len() ==> idx@[j] < i,
            forall|j: int|
                0 <= j < idx@.len() ==> idx@[j] < commit_deltas@.len() && commit_touches(
                    (#[trigger] commit_deltas@[idx@[j] as int])@,
                    *pkg,
                ),
            forall|c: int|
                0 <= c < i && commit_touches((#[trigger] commit_deltas@[c])@, *pkg) ==> idx@
                    .contains(c as usize),
        decreases commit_deltas@.len() - i,
    {
        if commit_touches_package(&commit_deltas[i], pkg) {
            let ghost before = idx@;
            idx.push(i);
            assert forall|c: int|
                0 <= c < i + 1 && commit_touches((#[trigger] commit_deltas@[c])@, *pkg) implies idx@
                .contains(c as usize) by {
                if c < i {
                    let w = choose|w: int| 0 <= w < before.len() && before[w] == c as usize;
                    assert(idx@[w] == c as usize);
                } else {
                    assert(idx@[idx@.len() - 1] == c as usize);
                }
            }
        }
        i += 1;
    }
    idx
}

} // verus!
