//! The command-line tool's error type. A parse error of the calendar
//! library is carried as is; an I/O failure carries the offending path
//! and the text of the underlying error.

use vstd::prelude::*;
use crate::error::{error_text, push_chars, Error, ErrorView};
use crate::text::{chars_of, copy_string, string_of};

verus! {

/// Error of the command-line tool.
#[derive(Debug, PartialEq, Eq)]
pub enum MhError {
    Io { path: String, message: String },
    Parse(Error),
    InvalidInput(String),
    Conflict(String),
    NotFound(String),
    AlreadyExists { path: String },
}

/// Mathematical model of an `MhError`.
pub enum MhErrorView {
    Io { path: Seq<char>, message: Seq<char> },
    Parse(ErrorView),
    InvalidInput(Seq<char>),
    Conflict(Seq<char>),
    NotFound(Seq<char>),
    AlreadyExists { path: Seq<char> },
}

impl View for MhError {
    type V = MhErrorView;

    open spec fn view(&self) -> MhErrorView {
        match self {
            MhError::Io { path, message } => MhErrorView::Io { path: path@, message: message@ },
            MhError::Parse(e) => MhErrorView::Parse(e@),
            MhError::InvalidInput(m) => MhErrorView::InvalidInput(m@),
            MhError::Conflict(m) => MhErrorView::Conflict(m@),
            MhError::NotFound(m) => MhErrorView::NotFound(m@),
            MhError::AlreadyExists { path } => MhErrorView::AlreadyExists { path: path@ },
        }
    }
}

/// `Display` text of an error.
pub open spec fn mh_error_text(e: MhErrorView) -> Seq<char> {
    match e {
        MhErrorView::Io { path, message } => "I/O error on "@ + path + ": "@ + message,
        MhErrorView::Parse(p) => error_text(p),
        MhErrorView::InvalidInput(m) => "invalid input: "@ + m,
        MhErrorView::Conflict(m) => "conflicting arguments: "@ + m,
        MhErrorView::NotFound(m) => "not found: "@ + m,
        MhErrorView::AlreadyExists { path } => "file already exists: "@ + path,
    }
}

impl MhError {
    /// An I/O failure on `path` with the text of the underlying error.
    pub fn io(path: &str, message: &str) -> (r: MhError)
        ensures
            r@ == (MhErrorView::Io { path: path@, message: message@ }),
    {
        MhError::Io { path: string_of(&chars_of(path)), message: string_of(&chars_of(message)) }
    }

    /// The store at `path` already holds a calendar.
    pub fn already_exists(path: &str) -> (r: MhError)
        ensures
            r@ == (MhErrorView::AlreadyExists { path: path@ }),
    {
        MhError::AlreadyExists { path: string_of(&chars_of(path)) }
    }

    /// An `InvalidInput` error with the given text.
    pub fn invalid_input(message: &str) -> (r: MhError)
        ensures
            r@ == MhErrorView::InvalidInput(message@),
    {
        MhError::InvalidInput(string_of(&chars_of(message)))
    }

    /// A `NotFound` error with the given text.
    pub fn not_found(message: &str) -> (r: MhError)
        ensures
            r@ == MhErrorView::NotFound(message@),
    {
        MhError::NotFound(string_of(&chars_of(message)))
    }

    /// A `Conflict` error with the given text.
    pub fn conflict(message: &str) -> (r: MhError)
        ensures
            r@ == MhErrorView::Conflict(message@),
    {
        MhError::Conflict(string_of(&chars_of(message)))
    }

    /// The `Display` text of the error.
    pub fn to_string(&self) -> (r: String)
        ensures
            r@ == mh_error_text(self@),
    {
        let mut out: Vec<char> = Vec::new();
        match self {
            MhError::Io { path, message } => {
                push_chars(&mut out, &chars_of("I/O error on "));
                push_chars(&mut out, &chars_of(path.as_str()));
                push_chars(&mut out, &chars_of(": "));
                push_chars(&mut out, &chars_of(message.as_str()));
            },
            MhError::Parse(e) => {
                return e.to_string();
            },
            MhError::InvalidInput(m) => {
                push_chars(&mut out, &chars_of("invalid input: "));
                push_chars(&mut out, &chars_of(m.as_str()));
            },
            MhError::Conflict(m) => {
                push_chars(&mut out, &chars_of("conflicting arguments: "));
                push_chars(&mut out, &chars_of(m.as_str()));
            },
            MhError::NotFound(m) => {
                push_chars(&mut out, &chars_of("not found: "));
                push_chars(&mut out, &chars_of(m.as_str()));
            },
            MhError::AlreadyExists { path } => {
                push_chars(&mut out, &chars_of("file already exists: "));
                push_chars(&mut out, &chars_of(path.as_str()));
            },
        }
        string_of(&out)
    }
}

impl From<Error> for MhError {
    fn from(e: Error) -> (r: MhError)
        ensures
            r == MhError::Parse(e),
    {
        MhError::Parse(e)
    }
}

impl vstd::std_specs::convert::FromSpecImpl<Error> for MhError {
    open spec fn obeys_from_spec() -> bool {
        true
    }

    open spec fn from_spec(e: Error) -> MhError {
        MhError::Parse(e)
    }
}

} // verus!
