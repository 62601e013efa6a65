//! The version-bump lattice: a totally ordered enumeration of bump levels,
//! the classifier's raw-integer contract for it, and the deterministic
//! version arithmetic that turns a current version and a bump into the next
//! version.

use vstd::prelude::*;

use crate::version::Version;

verus! {

/// How strongly a package's observed changes push its next version.
#[derive(Debug, Clone, Copy, PartialEq, Eq, PartialOrd, Ord)]
pub enum Bump {
    NoBump,
    Patch,
    Minor,
    Major,
}

/// The classifier promised a bump level in `0 ..= 3` and returned something
/// else: an input-contract violation that aborts the run.
#[derive(Debug, Clone, Copy, PartialEq, Eq)]
pub struct ClassifierContractError {
    pub raw: i64,
}

/// The bump level of a raw classifier integer, for levels `0 ..= 3`;
/// any other argument maps to `Bump::NoBump` and is rejected by `from_raw`.
pub open spec fn of_level(n: int) -> Bump {
    if n == 1 {
        Bump::Patch
    } else if n == 2 {
        Bump::Minor
    } else if n == 3 {
        Bump::Major
    } else {
        Bump::NoBump
    }
}

impl Bump {
    /// The position of this bump in the total order `NoBump < Patch < Minor < Major`.
    pub open spec fn level(self) -> int {
        match self {
            Bump::NoBump => 0,
            Bump::Patch => 1,
            Bump::Minor => 2,
            Bump::Major => 3,
        }
    }

    /// The position of this bump in the total order, as a machine integer.
    pub fn as_u8(&self) -> (n: u8)
        ensures
            n as int == self.level(),
    {
        match self {
            Bump::NoBump => 0,
            Bump::Patch => 1,
            Bump::Minor => 2,
            Bump::Major => 3,
        }
    }

    /// The bump a classifier's raw integer verdict stands for. The classifier
    /// contract allows exactly `0 ..= 3`; anything else is rejected.
    pub fn from_raw(raw: i64) -> (r: Result<Bump, ClassifierContractError>)
        ensures
            r is Ok <==> 0 <= raw <= 3,
            r matches Ok(b) ==> b == of_level(raw as int) && b.level() == raw,
            r matches Err(e) ==> e.raw == raw,
    {
        match raw {
            0 => Ok(Bump::NoBump),
            1 => Ok(Bump::Patch),
            2 => Ok(Bump::Minor),
            3 => Ok(Bump::Major),
            _ => Err(ClassifierContractError { raw }),
        }
    }

    /// The next version after applying this bump to `ver`.
    ///
    /// `NoBump` returns the version unchanged, metadata included. Otherwise:
    /// while the major component is 0 ("pre-stable") a `Major` bump only
    /// increments minor and a `Minor` or `Patch` bump only increments patch;
    /// from 1.0.0 on, the bumped component is incremented and the lower ones
    /// reset. Every non-`NoBump` bump clears pre-release and build metadata.
    pub fn apply(&self, ver: &Version) -> (next: Version)
        requires
            can_apply(*self, *ver),
        ensures
            (next.major as int, next.minor as int, next.patch as int) == bumped_parts(
                *self,
                *ver,
            ),
            *self == Bump::NoBump ==> next == *ver,
            *self != Bump::NoBump ==> next.pre@ == Seq::<char>::empty() && next.build@
                == Seq::<char>::empty(),
    {
        match self {
            Bump::NoBump => ver.duplicate(),
            Bump::Major => {
                if ver.major == 0 {
                    Version::new(0, ver.minor + 1, 0)
                } else {
                    Version::new(ver.major + 1, 0, 0)
                }
            },
            Bump::Minor => {
                if ver.major == 0 {
                    Version::new(0, ver.minor, ver.patch + 1)
                } else {
                    Version::new(ver.major, ver.minor + 1, 0)
                }
            },
            Bump::Patch => Version::new(ver.major, ver.minor, ver.patch + 1),
        }
    }
}

/// Whether applying `b` to `v` stays within the machine range of the
/// incremented component.
pub open spec fn can_apply(b: Bump, v: Version) -> bool {
    match b {
        Bump::NoBump => true,
        Bump::Major => if v.major == 0 {
            v.minor < u64::MAX
        } else {
            v.major < u64::MAX
        },
        Bump::Minor => if v.major == 0 {
            v.patch < u64::MAX
        } else {
            v.minor < u64::MAX
        },
        Bump::Patch => v.patch < u64::MAX,
    }
}

/// The numeric components `(major, minor, patch)` of the version that
/// applying `b` to `v` yields.
pub open spec fn bumped_parts(b: Bump, v: Version) -> (int, int, int) {
    match b {
        Bump::NoBump => (v.major as int, v.minor as int, v.patch as int),
        Bump::Major => if v.major == 0 {
            (0, v.minor + 1, 0)
        } else {
            (v.major + 1, 0, 0)
        },
        Bump::Minor => if v.major == 0 {
            (0, v.minor as int, v.patch + 1)
        } else {
            (v.major as int, v.minor + 1, 0)
        },
        Bump::Patch => if v.major == 0 {
            (0, v.minor as int, v.patch + 1)
        } else {
            (v.major as int, v.minor as int, v.patch + 1)
        },
    }
}

/// Every bump level lies in `0 ..= 3`.
pub proof fn lemma_level_range(b: Bump)
    ensures
        0 <= b.level() <= 3,
{
    match b {
        Bump::NoBump => {},
        Bump::Patch => {},
        Bump::Minor => {},
        Bump::Major => {},
    }
}

/// Mapping a bump to its level and back is the identity.
pub proof fn lemma_of_level_inverse(b: Bump)
    ensures
        of_level(b.level()) == b,
{
    match b {
        Bump::NoBump => {},
        Bump::Patch => {},
        Bump::Minor => {},
        Bump::Major => {},
    }
}

/// The bump ordering by `level` is total: `NoBump < Patch < Minor < Major`,
/// any two bumps are comparable, equal levels mean equal bumps, and the
/// order is transitive.
pub proof fn lemma_bump_order_total()
    ensures
        Bump::NoBump.level() < Bump::Patch.level() < Bump::Minor.level() < Bump::Major.level(),
        forall|a: Bump, b: Bump| a.level() <= b.level() || b.level() <= a.level(),
        forall|a: Bump, b: Bump| a.level() == b.level() ==> a == b,
        forall|a: Bump, b: Bump, c: Bump|
            a.level() <= b.level() && b.level() <= c.level() ==> a.level() <= c.level(),
{
    assert forall|a: Bump, b: Bump| a.level() == b.level() implies a == b by {
        lemma_of_level_inverse(a);
        lemma_of_level_inverse(b);
    }
}

} // verus!
