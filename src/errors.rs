//! The errors of an analysis run.
use vstd::prelude::*;

verus! {

/// Why a run, or one file of it, could not be analyzed.
///
/// Only `CantGetCurrentPath` ends a run; a file that cannot be read or parsed is
/// skipped and contributes no facts.
#[derive(Debug, Clone)]
pub enum PySpaceError {
    CantGetCurrentPath(String),
    FailedToReadFile(String),
    FailedToParseFile(String),
}

/// The text that describes an error.
pub open spec fn error_message(e: PySpaceError) -> Seq<char> {
    match e {
        PySpaceError::CantGetCurrentPath(m) => "Can't get current path: "@ + m@,
        PySpaceError::FailedToReadFile(m) => "Faild to read file: "@ + m@,
        PySpaceError::FailedToParseFile(m) => "Faild to parse file: "@ + m@,
    }
}

impl PySpaceError {
    /// The text that describes the error, its cause's message last.
    pub fn message(&self) -> (r: String)
        ensures
            r@ == error_message(*self),
    {
        let (mut text, cause) = match self {
            PySpaceError::CantGetCurrentPath(m) => (String::from_str("Can't get current path: "), m),
            PySpaceError::FailedToReadFile(m) => (String::from_str("Faild to read file: "), m),
            PySpaceError::FailedToParseFile(m) => (String::from_str("Faild to parse file: "), m),
        };
        text.append(cause.as_str());
        text
    }
}

} // verus!
