//! The errors that stop a run before any pairing is done.
use vstd::prelude::*;

verus! {

/// An error that aborts setup.
#[derive(Debug)]
pub enum SetupError {
    /// A pattern that the regular-expression engine does not accept.
    InvalidPattern { pattern: String },
}

impl SetupError {
    /// A line that describes the error.
    pub fn message(&self) -> (r: String)
        ensures
            self matches SetupError::InvalidPattern { pattern } && r@ == "invalid pattern: "@ + pattern@,
    {
        match self {
            SetupError::InvalidPattern { pattern } => {
                let mut r = String::from_str("invalid pattern: ");
                r.append(pattern.as_str());
                r
            },
        }
    }
}

} // verus!
