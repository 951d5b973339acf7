//! Errors of the listing and diff operations.
use vstd::prelude::*;

verus! {

/// Why a listing or a diff request failed. Each variant carries the
/// diagnostic text it was raised with.
#[derive(Debug, PartialEq, Eq)]
pub enum Error {
    /// An external command could not run or exited non-zero; carries its
    /// captured error output.
    NixCommandFailed(String),
    /// Output did not follow the expected textual contract.
    NixOutputParseFailed(String),
    /// A generation identifier does not resolve to a profile or a path.
    GenerationNotFound(String),
}

/// The human-readable message of an error: a fixed lead-in for its kind,
/// then its diagnostic text.
pub open spec fn error_message(e: Error) -> Seq<char> {
    match e {
        Error::NixCommandFailed(m) => "Failed to execute nix command: "@ + m@,
        Error::NixOutputParseFailed(m) => "Failed to parse nix output: "@ + m@,
        Error::GenerationNotFound(m) => "Generation not found: "@ + m@,
    }
}

impl Error {
    /// The human-readable message of this error.
    pub fn message(&self) -> (r: String)
        ensures
            r@ == error_message(*self),
    {
        let (mut lead, detail) = match self {
            Error::NixCommandFailed(m) => ("Failed to execute nix command: ".to_string(), m),
            Error::NixOutputParseFailed(m) => ("Failed to parse nix output: ".to_string(), m),
            Error::GenerationNotFound(m) => ("Generation not found: ".to_string(), m),
        };
        lead.append(detail.as_str());
        lead
    }
}

} // verus!
