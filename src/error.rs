//! Why a package could not be located or resolved.
use vstd::prelude::*;

verus! {

/// Why a package could not be located or resolved.
#[derive(Debug, Clone, PartialEq, Eq)]
pub enum PackageError {
    /// The package lists no files, so its directory is unknown.
    NoFiles,
    /// No installation root was given and none could be found.
    NoHome,
    /// The package number to look for was never set.
    NoPackageNumber,
    /// No installed package has this number.
    PackageNotFound { number: i64, home: String },
    /// The version constraint is not a valid constraint.
    InvalidConstraint { constraint: String },
    /// Packages with this number exist, but no version of them meets the constraint.
    NoMatchingVersion { number: i64, constraint: String, home: String },
}

} // verus!
