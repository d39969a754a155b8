//! Dependency-version reasoning core for a package manager over
//! PyPI-style package metadata.
//!
//! The crate models exact release versions with pre-release modifiers,
//! textual version constraints in several dialects, the algebra that
//! intersects many constraints into a minimal set of admissible ranges,
//! named package requirements with conditional markers, and the
//! identity/conflict records used when a resolved dependency tree is
//! flattened into a lock snapshot.

pub mod constraint;
pub mod error;
pub mod graph;
pub mod names;
pub mod pybuild;
pub mod pyenv;
pub mod ranges;
pub mod req;
pub mod text;
pub mod version;

use vstd::prelude::*;

verus! {

/// Sentinel for the highest version component in use; stands in for
/// "infinity" as the top of an open-ended range, so no real version may
/// legitimately equal or exceed it.
pub const MAX_VER: u32 = 999_999;

} // verus!
