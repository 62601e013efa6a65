//! The classifier boundary: the commit records handed to the externally
//! supplied classifier, and the verdict it returns for one top-level
//! package's attributed commits.

use vstd::prelude::*;

use crate::bump::Bump;

verus! {

/// One commit as the classifier sees it. All four fields are decoded text;
/// a commit whose message or author identity cannot be decoded is a fatal
/// input error and never reaches this type.
#[derive(Debug, Clone)]
pub struct Commit {
    pub id: String,
    pub message: String,
    pub author_name: String,
    pub author_email: String,
}

/// The classifier's verdict for one package: free-form changelog text plus
/// the bump level it decided on. A raw out-of-range bump integer is
/// rejected by `Bump::from_raw` before a `Verdict` exists.
#[derive(Debug, Clone)]
pub struct Verdict {
    pub changelog: String,
    pub bump: Bump,
}

} // verus!
