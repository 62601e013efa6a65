//! The immutable workspace model: packages with their directories, extra
//! directories and direct dependencies (all by stable package index), and
//! the directory-nesting relation derived from it.

use vstd::prelude::*;

use crate::paths::path_is_strictly_under;
use crate::paths::strictly_in_dir;
use crate::version::Version;

verus! {

/// One workspace package. Dependencies are indexes into the workspace's
/// package list; directories are workspace-relative.
#[derive(Debug)]
pub struct Package {
    pub name: String,
    pub version: Version,
    pub dir: Vec<u8>,
    pub extra_dirs: Vec<Vec<u8>>,
    pub deps: Vec<usize>,
}

/// The full set of workspace packages, in a fixed order that every
/// per-package record of a run is indexed by.
#[derive(Debug)]
pub struct WorkspaceGraph {
    pub packages: Vec<Package>,
}

/// Strict lexicographic order on index pairs.
pub open spec fn pair_lt(p: (usize, usize), q: (usize, usize)) -> bool {
    p.0 < q.0 || (p.0 == q.0 && p.1 < q.1)
}

impl WorkspaceGraph {
    /// Every dependency edge points at a package of the workspace.
    pub open spec fn wf(self) -> bool {
        forall|i: int, k: int|
            0 <= i < self.packages@.len() && 0 <= k < self.packages@[i].deps@.len() ==> (
            #[trigger] self.packages@[i].deps@[k]) < self.packages@.len()
    }

    /// Package `inner` is nested in package `outer`: its directory is a
    /// strict descendant of `outer`'s directory.
    pub open spec fn is_nest_pair(self, outer: int, inner: int) -> bool {
        &&& 0 <= outer < self.packages@.len()
        &&& 0 <= inner < self.packages@.len()
        &&& strictly_in_dir(self.packages@[inner].dir@, self.packages@[outer].dir@)
    }

    /// Whether package `inner` is nested inside some other package.
    pub open spec fn is_nested(self, inner: int) -> bool {
        exists|outer: int| self.is_nest_pair(outer, inner)
    }

    /// All nesting pairs `(outer, inner)` of the workspace, outer index
    /// first, sorted by the outer then the inner index: exactly the pairs
    /// the nesting relation holds of, each once.
    pub fn nested_pairs(&self) -> (pairs: Vec<(usize, usize)>)
        ensures
            forall|k: int|
                0 <= k < pairs@.len() ==> self.is_nest_pair(
                    (#[trigger] pairs@[k]).0 as int,
                    pairs@[k].1 as int,
                ),
            forall|o: int, i: int| self.is_nest_pair(o, i) ==> pairs@.contains((o as usize, i as usize)),
            forall|j: int, k: int| 0 <= j < k < pairs@.len() ==> pair_lt(pairs@[j], pairs@[k]),
    {
        let n = self.packages.len();
        let mut pairs: Vec<(usize, usize)> = Vec::new();
        let mut o: usize = 0;
        while o < n
            invariant
                n == self.packages@.len(),
                o <= n,
                forall|k: int|
                    0 <= k < pairs@.len() ==> self.is_nest_pair(
                        (#[trigger] pairs@[k]).0 as int,
                        pairs@[k].1 as int,
                    ),
                forall|po: int, pi: int|
                    0 <= po < o && self.is_nest_pair(po, pi) ==> pairs@.contains(
                        (po as usize, pi as usize),
                    ),
                forall|j: int, k: int| 0 <= j < k < pairs@.len() ==> pair_lt(pairs@[j], pairs@[k]),
                forall|k: int| 0 <= k < pairs@.len() ==> (#[trigger] pairs@[k]).0 < o,
            decreases n - o,
        {
            let mut i: usize = 0;
            while i < n
                invariant
                    n == self.packages@.len(),
                    o < n,
                    i <= n,
                    forall|k: int|
                        0 <= k < pairs@.len() ==> self.is_nest_pair(
                            (#[trigger] pairs@[k]).0 as int,
                            pairs@[k].1 as int,
                        ),
                    forall|po: int, pi: int|
                        0 <= po < o && self.is_nest_pair(po, pi) ==> pairs@.contains(
                            (po as usize, pi as usize),
                        ),
                    forall|pi: int|
                        0 <= pi < i && self.is_nest_pair(o as int, pi) ==> pairs@.contains(
                            (o, pi as usize),
                        ),
                    forall|j: int, k: int|
                        0 <= j < k < pairs@.len() ==> pair_lt(pairs@[j], pairs@[k]),
                    forall|k: int|
                        0 <= k < pairs@.len() ==> (#[trigger] pairs@[k]).0 < o || (pairs@[k].0 == o
                            && pairs@[k].1 < i),
                decreases n - i,
            {
                if path_is_strictly_under(&self.packages[i].dir, &self.packages[o].dir) {
                    let ghost before = pairs@;
                    pairs.push((o, i));
                    assert forall|po: int, pi: int|
                        0 <= po < o && self.is_nest_pair(po, pi) implies pairs@.contains(
                        (po as usize, pi as usize),
                    ) by {
                        let w = choose|w: int|
                            0 <= w < before.len() && before[w] == (po as usize, pi as usize);
                        assert(pairs@[w] == (po as usize, pi as usize));
                    }
                    assert forall|pi: int|
                        0 <= pi < i + 1 && self.is_nest_pair(o as int, pi) implies pairs@.contains(
                        (o, pi as usize),
                    ) by {
                        if pi < i {
                            let w = choose|w: int|
                                0 <= w < before.len() && before[w] == (o, pi as usize);
                            assert(pairs@[w] == (o, pi as usize));
                        } else {
                            assert(pairs@[pairs@.len() - 1] == (o, pi as usize));
                        }
                    }
                }
                i += 1;
            }
            o += 1;
        }
        pairs
    }

    /// For each package, whether it is nested inside some other package.
    /// Only packages that are not (the "top-level" packages) are attributed
    /// and classified; nested ones start at the neutral bump.
    pub fn nested_flags(&self) -> (flags: Vec<bool>)
        ensures
            flags@.len() == self.packages@.len(),
            forall|i: int| 0 <= i < flags@.len() ==> (flags@[i] <==> self.is_nested(i)),
    {
        let n = self.packages.len();
        let mut flags: Vec<bool> = Vec::new();
        let mut i: usize = 0;
        while i < n
            invariant
                n == self.packages@.len(),
                i <= n,
                flags@.len() == i,
                forall|j: int| 0 <= j < i ==> ((#[trigger] flags@[j]) <==> self.is_nested(j)),
            decreases n - i,
        {
            let mut nested = false;
            let mut o: usize = 0;
            while o < n
                invariant
                    n == self.packages@.len(),
                    i < n,
                    o <= n,
                    nested ==> self.is_nested(i as int),
                    !nested ==> forall|po: int| 0 <= po < o ==> !self.is_nest_pair(po, i as int),
                decreases n - o,
            {
                if path_is_strictly_under(&self.packages[i].dir, &self.packages[o].dir) {
                    proof {
                        assert(self.is_nest_pair(o as int, i as int));
                    }
                    nested = true;
                }
                o += 1;
            }
            proof {
                if !nested {
                    assert forall|po: int| !self.is_nest_pair(po, i as int) by {
                        if 0 <= po < n {
                            assert(!self.is_nest_pair(po, i as int));
                        }
                    }
                }
            }
            flags.push(nested);
            i += 1;
        }
        flags
    }
}

} // verus!
