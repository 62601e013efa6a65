//! The run options that the decision engine reads: the revision range to
//! walk and whether to execute persistence or only report.

use vstd::prelude::*;

verus! {

/// Options of one run. One of `rev` and `root` must be given: either an
/// explicit last-release revision, exclusive boundary of the walk, or a
/// walk from the beginning of history.
#[derive(Debug, Clone)]
pub struct Opts {
    /// Last release revision, boundary of the history walk.
    pub rev: Option<String>,
    /// Walk from the beginning of revision history instead.
    pub root: bool,
    /// Invoke the persistence collaborators instead of only reporting.
    pub execute: bool,
}

impl Opts {
    /// The exclusive "since" boundary of the history walk, or `None` for a
    /// walk from the beginning of history (then `root` must be set).
    pub fn since_rev(&self) -> (r: Option<String>)
        requires
            self.rev is Some || self.root,
        ensures
            r == self.rev,
    {
        match &self.rev {
            Some(rev) => Some(rev.clone()),
            None => None,
        }
    }
}

} // verus!
