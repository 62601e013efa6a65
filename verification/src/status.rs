//! The mutable per-run record of one package: accumulated changelog text,
//! the current bump (monotonically non-decreasing over a run), the reasons
//! recorded for each raise, and the package's current version.

use vstd::prelude::*;

use crate::bump::bumped_parts;
use crate::bump::can_apply;
use crate::bump::Bump;
use crate::generator::Verdict;
use crate::graph::WorkspaceGraph;
use crate::version::Version;

verus! {

/// Why a package's bump was raised.
#[derive(Debug, Clone, Copy, PartialEq, Eq)]
pub enum Reason {
    /// The classifier decided this bump for the package's own commits.
    Classifier(Bump),
    /// Nested packages must share a bump level; the package was raised to
    /// match the other side of a nesting pair.
    NestedEqual,
    /// A direct dependency (by package index) had a bump, so at least a
    /// patch is warranted.
    DependencyBumped(usize),
}

/// The per-run record of one package, created for every package at run
/// start and indexed by the package's position in the workspace graph.
#[derive(Debug)]
pub struct PackageStatus {
    pub changelog: String,
    pub bump: Bump,
    pub bump_reasons: Vec<Reason>,
    pub version: Version,
}

impl PackageStatus {
    /// A fresh record: neutral bump, no changelog, no reasons.
    pub fn new(version: Version) -> (s: PackageStatus)
        ensures
            s.bump == Bump::NoBump,
            s.changelog@ == Seq::<char>::empty(),
            s.bump_reasons@ == Seq::<Reason>::empty(),
            s.version == version,
    {
        let s = PackageStatus {
            changelog: String::new(),
            bump: Bump::NoBump,
            bump_reasons: Vec::new(),
            version,
        };
        proof {
            assert(s.bump_reasons@ =~= Seq::<Reason>::empty());
        }
        s
    }

    /// Store what the classifier decided for this package: its changelog
    /// text and its bump, plus a reason when the bump is non-neutral.
    pub fn record_verdict(&mut self, verdict: Verdict)
        ensures
            final(self).changelog == verdict.changelog,
            final(self).bump == verdict.bump,
            final(self).version == old(self).version,
            verdict.bump.level() > 0 ==> final(self).bump_reasons@ == old(
                self,
            ).bump_reasons@.push(Reason::Classifier(verdict.bump)),
            verdict.bump.level() == 0 ==> final(self).bump_reasons@ == old(self).bump_reasons@,
    {
        self.changelog = verdict.changelog;
        self.bump = verdict.bump;
        if self.bump.as_u8() > 0 {
            self.bump_reasons.push(Reason::Classifier(verdict.bump));
        }
    }

    /// The package's next version: its current version with the record's
    /// bump applied.
    pub fn final_version(&self) -> (v: Version)
        requires
            can_apply(self.bump, self.version),
        ensures
            (v.major as int, v.minor as int, v.patch as int) == bumped_parts(
                self.bump,
                self.version,
            ),
            self.bump == Bump::NoBump ==> v == self.version,
            self.bump != Bump::NoBump ==> v.pre@ == Seq::<char>::empty() && v.build@
                == Seq::<char>::empty(),
    {
        self.bump.apply(&self.version)
    }
}

/// One fresh status per package of the workspace, holding that package's
/// current version, in the workspace's package order.
pub fn new_statuses(graph: &WorkspaceGraph) -> (statuses: Vec<PackageStatus>)
    ensures
        statuses@.len() == graph.packages@.len(),
        forall|i: int|
            0 <= i < statuses@.len() ==> {
                &&& (#[trigger] statuses@[i]).bump == Bump::NoBump
                &&& statuses@[i].changelog@ == Seq::<char>::empty()
                &&& statuses@[i].bump_reasons@ == Seq::<Reason>::empty()
                &&& statuses@[i].version == graph.packages@[i].version
            },
{
    let n = graph.packages.len();
    let mut statuses: Vec<PackageStatus> = Vec::new();
    let mut i: usize = 0;
    while i < n
        invariant
            n == graph.packages@.len(),
            i <= n,
            statuses@.len() == i,
            forall|j: int|
                0 <= j < i ==> {
                    &&& (#[trigger] statuses@[j]).bump == Bump::NoBump
                    &&& statuses@[j].changelog@ == Seq::<char>::empty()
                    &&& statuses@[j].bump_reasons@ == Seq::<Reason>::empty()
                    &&& statuses@[j].version == graph.packages@[j].version
                },
        decreases n - i,
    {
        statuses.push(PackageStatus::new(graph.packages[i].version.duplicate()));
        i += 1;
    }
    statuses
}

} // verus!
