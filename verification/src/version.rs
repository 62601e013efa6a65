//! Semantic versions as plain values: the three numeric components plus the
//! optional pre-release and build metadata, which this system never produces
//! and clears on every bump.

use vstd::prelude::*;

verus! {

/// A semantic version. `pre` and `build` hold the pre-release and build
/// metadata text; an empty string means the component is absent.
#[derive(Debug, Clone, PartialEq, Eq)]
pub struct Version {
    pub major: u64,
    pub minor: u64,
    pub patch: u64,
    pub pre: String,
    pub build: String,
}

impl Version {
    /// The version `major.minor.patch` with no pre-release or build metadata.
    pub fn new(major: u64, minor: u64, patch: u64) -> (v: Version)
        ensures
            v.major == major,
            v.minor == minor,
            v.patch == patch,
            v.pre@ == Seq::<char>::empty(),
            v.build@ == Seq::<char>::empty(),
    {
        Version { major, minor, patch, pre: String::new(), build: String::new() }
    }

    /// An exact copy of the version, metadata included.
    pub fn duplicate(&self) -> (v: Version)
        ensures
            v == *self,
    {
        Version {
            major: self.major,
            minor: self.minor,
            patch: self.patch,
            pre: self.pre.clone(),
            build: self.build.clone(),
        }
    }
}

} // verus!
