//! Typed parser / formatter errors.
//!
//! The `Parse` variant carries an optional 1-based logical line number
//! (post-unfold) and the offending property name when identifiable.

use vstd::prelude::*;
use crate::date::{decimal, decimal_chars};
use crate::text::{chars_of, string_of};

verus! {

/// Parse error.
#[derive(Debug, PartialEq, Eq)]
pub enum Error {
    Parse { message: String, line: Option<u32>, property: Option<String> },
}

/// Mathematical model of an `Error`.
pub struct ErrorView {
    pub message: Seq<char>,
    pub line: Option<u32>,
    pub property: Option<Seq<char>>,
}

impl View for Error {
    type V = ErrorView;

    open spec fn view(&self) -> ErrorView {
        match self {
            Error::Parse { message, line, property } => ErrorView {
                message: message@,
                line: *line,
                property: match property {
                    Some(p) => Some(p@),
                    None => None,
                },
            },
        }
    }
}

/// `Display` text of an error:
/// `parse error[ at line N][ [PROPERTY]]: MESSAGE`.
pub open spec fn error_text(e: ErrorView) -> Seq<char> {
    let base = "parse error"@;
    let with_line = match e.line {
        Some(l) => base + " at line "@ + decimal(l as nat),
        None => base,
    };
    let with_prop = match e.property {
        Some(p) => with_line + " ["@ + p + "]"@,
        None => with_line,
    };
    with_prop + ": "@ + e.message
}

fn push_str(out: &mut Vec<char>, s: &str)
    ensures
        final(out)@ == old(out)@ + s@,
{
    let v = chars_of(s);
    push_chars(out, &v);
}

/// Append the characters of `s` to `out`.
pub fn push_chars(out: &mut Vec<char>, s: &Vec<char>)
    ensures
        final(out)@ == old(out)@ + s@,
{
    let mut i: usize = 0;
    let ghost start = out@;
    while i < s.len()
        invariant
            i <= s.len(),
            out@ == start + s@.take(i as int),
        decreases s.len() - i,
    {
        out.push(s[i]);
        assert(start + s@.take(i as int).push(s@[i as int]) =~= start + s@.take(i + 1));
        i = i + 1;
    }
    assert(s@.take(i as int) =~= s@);
}

impl Error {
    /// A `Parse` error with no line or property context.
    pub fn parse(message: &str) -> (r: Error)
        ensures
            r@ == (ErrorView { message: message@, line: None, property: None }),
    {
        Error::Parse { message: string_of(&chars_of(message)), line: None, property: None }
    }

    /// A `Parse` error attached to a 1-based logical line number.
    pub fn parse_at_line(line: u32, message: &str) -> (r: Error)
        ensures
            r@ == (ErrorView { message: message@, line: Some(line), property: None }),
    {
        Error::Parse { message: string_of(&chars_of(message)), line: Some(line), property: None }
    }

    /// Like `parse_at_line` but also records the offending property name.
    pub fn parse_at(line: u32, property: &str, message: &str) -> (r: Error)
        ensures
            r@ == (ErrorView { message: message@, line: Some(line), property: Some(property@) }),
    {
        Error::Parse {
            message: string_of(&chars_of(message)),
            line: Some(line),
            property: Some(string_of(&chars_of(property))),
        }
    }

    /// The `Display` text of the error.
    pub fn to_string(&self) -> (r: String)
        ensures
            r@ == error_text(self@),
    {
        let mut out: Vec<char> = Vec::new();
        push_str(&mut out, "parse error");
        match self {
            Error::Parse { message, line, property } => {
                match line {
                    Some(l) => {
                        push_str(&mut out, " at line ");
                        let d = decimal_chars(*l as u64);
                        push_chars(&mut out, &d);
                    },
                    None => {},
                }
                match property {
                    Some(p) => {
                        push_str(&mut out, " [");
                        push_str(&mut out, p.as_str());
                        push_str(&mut out, "]");
                    },
                    None => {},
                }
                push_str(&mut out, ": ");
                push_str(&mut out, message.as_str());
            },
        }
        string_of(&out)
    }
}

} // verus!
