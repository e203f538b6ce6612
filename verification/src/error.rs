//! Errors of the versioning system.
use vstd::prelude::*;

use crate::text::push_str;

verus! {

/// Why a value could not be carried forward to the next version of its
/// shape.
#[derive(Debug)]
pub enum UpcastError {
    /// There is no path from version `from` to version `to`, for `reason`.
    Discontinuity { from: &'static str, to: &'static str, reason: &'static str },
}

impl UpcastError {
    /// The human-readable description of this error.
    pub fn message(&self) -> (r: String)
        ensures
            r@ == match self {
                UpcastError::Discontinuity { from, to, reason } => "discontinuity "@ + from@
                    + " -> "@ + to@ + ": "@ + reason@,
            },
    {
        let mut s = String::new();
        match self {
            UpcastError::Discontinuity { from, to, reason } => {
                push_str(&mut s, "discontinuity ");
                push_str(&mut s, from);
                push_str(&mut s, " -> ");
                push_str(&mut s, to);
                push_str(&mut s, ": ");
                push_str(&mut s, reason);
            },
        }
        s
    }
}

} // verus!
