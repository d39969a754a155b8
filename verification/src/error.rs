//! The single error kind returned by every fallible operation of this
//! crate: a parse/validation error carrying a human-readable message.

use vstd::prelude::*;

verus! {

/// Error for malformed version, constraint or requirement text, and for
/// numeric components that overflow their unsigned range.
#[derive(Debug)]
pub struct DependencyError {
    pub details: String,
}

impl DependencyError {
    pub fn new(details: &str) -> (e: Self)
        ensures
            e.details@ == details@,
    {
        Self { details: details.to_owned() }
    }
}

impl PartialEq for DependencyError {
    fn eq(&self, other: &Self) -> (r: bool) {
        self.details == other.details
    }
}

impl vstd::std_specs::cmp::PartialEqSpecImpl for DependencyError {
    open spec fn obeys_eq_spec() -> bool {
        true
    }

    open spec fn eq_spec(&self, other: &Self) -> bool {
        self.details@ == other.details@
    }
}

} // verus!
