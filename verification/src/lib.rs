//! Release planning for a workspace of interdependent packages sharing one
//! revision history: attribute commits to packages by directory-scoped
//! diffing, hand them to a pluggable classifier, propagate the resulting
//! version-bump decisions across nesting and dependency relations to a fixed
//! point, and compute each package's next version.

pub mod bump;
pub mod version;
pub mod paths;
pub mod attribution;
pub mod graph;
pub mod generator;
pub mod status;
pub mod propagate;
pub mod opts;
