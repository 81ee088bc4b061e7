//! The error types: a pattern that fails to compile is fatal at
//! construction time; everything else the server reports through its
//! general-purpose error wrapper.

use vstd::prelude::*;
use vstd::string::StringExecFns;

verus! {

/// A route declaration whose normalized pattern the regex crate refused.
#[derive(Debug)]
pub struct PatternError {
    /// The normalized pattern text that failed to compile.
    pub pattern: String,
    /// The regex crate's description of the failure.
    pub message: String,
}

/// Wrapper around common error causes.
pub enum DireError {
    /// An error reported by the HTTP boundary layer, as its message.
    Hyper(String),
    /// General error, for use when no error type exists.
    Other(String),
}

impl DireError {
    /// The message carried by the error.
    pub fn message(&self) -> (r: &String)
        ensures
            match self {
                DireError::Hyper(m) => r@ == m@,
                DireError::Other(m) => r@ == m@,
            },
    {
        match self {
            DireError::Hyper(m) => m,
            DireError::Other(m) => m,
        }
    }

    /// A display form of the error, naming its origin.
    pub fn describe(&self) -> (r: String)
        ensures
            match self {
                DireError::Hyper(m) => r@ == "(DireError [Hyper] "@ + m@ + ")"@,
                DireError::Other(m) => r@ == "(DireError [Other] "@ + m@ + ")"@,
            },
    {
        match self {
            DireError::Hyper(m) => {
                let mut s = String::from_str("(DireError [Hyper] ");
                s.append(m.as_str());
                s.append(")");
                s
            },
            DireError::Other(m) => {
                let mut s = String::from_str("(DireError [Other] ");
                s.append(m.as_str());
                s.append(")");
                s
            },
        }
    }
}

impl From<String> for DireError {
    /// A plain message becomes a general error.
    fn from(err: String) -> (r: DireError) {
        DireError::Other(err)
    }
}

impl vstd::std_specs::convert::FromSpecImpl<String> for DireError {
    open spec fn obeys_from_spec() -> bool {
        true
    }

    open spec fn from_spec(err: String) -> DireError {
        DireError::Other(err)
    }
}

} // verus!
