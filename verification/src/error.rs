//! The error type shared by the loader and the dependency selector.

use vstd::prelude::*;
use vstd::string::StringExecFns;

verus! {

/// Why a lock file could not be checked.
#[derive(Clone, Debug, PartialEq, Eq)]
pub enum FlakeCheckerError {
    /// The text is not well-formed JSON; carries the parser's own message.
    Parse(String),
    /// The document is JSON but falls outside the structural contract the
    /// loader can reason about: a missing or duplicate top-level field, a
    /// field of the wrong shape, a declared root that is not root-shaped, or
    /// a root input pointing at a name absent from the node table.
    Malformed(String),
    /// The lock file is well-formed but holds no tracked dependency for one
    /// or more of the requested keys; carries the aggregated message.
    Invalid(String),
}

/// The mathematical value of a [`FlakeCheckerError`].
pub enum FlakeCheckerErrorSpec {
    Parse(Seq<char>),
    Malformed(Seq<char>),
    Invalid(Seq<char>),
}

impl View for FlakeCheckerError {
    type V = FlakeCheckerErrorSpec;

    open spec fn view(&self) -> FlakeCheckerErrorSpec {
        match self {
            FlakeCheckerError::Parse(m) => FlakeCheckerErrorSpec::Parse(m@),
            FlakeCheckerError::Malformed(m) => FlakeCheckerErrorSpec::Malformed(m@),
            FlakeCheckerError::Invalid(m) => FlakeCheckerErrorSpec::Invalid(m@),
        }
    }
}

impl FlakeCheckerError {
    /// The human-readable rendering of the error. A selection failure reads
    /// `invalid flake.lock: <message>`.
    pub fn message(&self) -> (r: String)
        ensures
            r@ == match self@ {
                FlakeCheckerErrorSpec::Parse(m) => "couldn't parse flake.lock: "@ + m,
                FlakeCheckerErrorSpec::Malformed(m) => "malformed flake.lock: "@ + m,
                FlakeCheckerErrorSpec::Invalid(m) => "invalid flake.lock: "@ + m,
            },
    {
        match self {
            FlakeCheckerError::Parse(m) => {
                let mut s = String::from_str("couldn't parse flake.lock: ");
                s.append(m.as_str());
                s
            },
            FlakeCheckerError::Malformed(m) => {
                let mut s = String::from_str("malformed flake.lock: ");
                s.append(m.as_str());
                s
            },
            FlakeCheckerError::Invalid(m) => {
                let mut s = String::from_str("invalid flake.lock: ");
                s.append(m.as_str());
                s
            },
        }
    }
}

} // verus!
