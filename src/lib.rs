//! Discovery and version resolution of installed simulator packages.
//!
//! The library parses the per-package metadata format, groups the parsed
//! records by package number and version, and resolves the best installed
//! version for a package number under a version constraint.

pub mod error;
pub mod info;
pub mod magic;
pub mod number;
pub mod registry;
pub mod resolve;
pub mod text;
