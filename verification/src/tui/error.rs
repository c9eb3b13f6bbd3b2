//! Errors of the terminal UI and the exit code each maps to: 2 for a
//! calendar parse failure, 1 for everything else.

use vstd::prelude::*;
use crate::cli::error::MhError;

verus! {

/// Error of the terminal UI.
#[derive(Debug)]
pub enum LazyicsError {
    /// A terminal operation failed; the text of the underlying error.
    Terminal(String),
    /// Standard input is not a terminal.
    NotATty,
    /// A use case failed.
    UseCase(MhError),
    /// Bad command-line argument.
    InvalidArgs(String),
}

impl LazyicsError {
    /// The process exit code: 2 when a use case failed on a parse error,
    /// 1 otherwise.
    pub fn exit_code(&self) -> (r: i32)
        ensures
            r == if self matches LazyicsError::UseCase(MhError::Parse(_)) {
                2i32
            } else {
                1i32
            },
    {
        match self {
            LazyicsError::UseCase(MhError::Parse(_)) => 2,
            _ => 1,
        }
    }
}

impl From<MhError> for LazyicsError {
    fn from(e: MhError) -> (r: LazyicsError)
        ensures
            r == LazyicsError::UseCase(e),
    {
        LazyicsError::UseCase(e)
    }
}

impl vstd::std_specs::convert::FromSpecImpl<MhError> for LazyicsError {
    open spec fn obeys_from_spec() -> bool {
        true
    }

    open spec fn from_spec(e: MhError) -> LazyicsError {
        LazyicsError::UseCase(e)
    }
}

} // verus!
