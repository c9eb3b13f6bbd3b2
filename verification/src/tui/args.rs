//! Command-line arguments of the terminal UI:
//! `[--file|-f <PATH>] [--log <PATH>] [-h|--help] [-V|--version]`.

use vstd::prelude::*;
use crate::error::push_chars;
use crate::text::{chars_of, str_eq, string_of};
use crate::tui::error::LazyicsError;

verus! {

/// The calendar file opened when `--file` is not given.
pub const DEFAULT_FILE: &'static str = "calendar.ics";

/// The default file, as text.
pub open spec fn default_file() -> Seq<char> {
    "calendar.ics"@
}

/// What to run.
pub struct LaunchArgs {
    pub file: String,
    pub log: Option<String>,
}

/// What the arguments ask for.
pub enum Launch {
    /// Open the calendar.
    Run(LaunchArgs),
    /// Print the usage and exit.
    Help,
    /// Print the version and exit.
    Version,
}

/// What the arguments ask for, as the specification sees it.
pub enum LaunchView {
    Run { file: Seq<char>, log: Option<Seq<char>> },
    Help,
    Version,
}

/// Does `r` carry the request `v`?
pub open spec fn launch_is(r: Launch, v: LaunchView) -> bool {
    match (r, v) {
        (Launch::Run(a), LaunchView::Run { file, log }) => a.file@ == file && match (a.log, log) {
            (Some(x), Some(y)) => x@ == y,
            (None, None) => true,
            _ => false,
        },
        (Launch::Help, LaunchView::Help) => true,
        (Launch::Version, LaunchView::Version) => true,
        _ => false,
    }
}

/// The reading of `args` from position `i` on, with the file and log
/// given so far: flags are read left to right, a later `--file` or
/// `--log` overrides an earlier one, and `--help` or `--version` stops
/// the reading at once.
pub open spec fn parse_from(
    args: Seq<Seq<char>>,
    i: nat,
    file: Option<Seq<char>>,
    log: Option<Seq<char>>,
) -> Result<LaunchView, Seq<char>>
    decreases args.len() - i,
{
    if i >= args.len() {
        Ok(
            LaunchView::Run {
                file: match file {
                    Some(f) => f,
                    None => default_file(),
                },
                log,
            },
        )
    } else {
        let a = args[i as int];
        if a == "--file"@ || a == "-f"@ {
            if i + 1 < args.len() {
                parse_from(args, i + 2, Some(args[i + 1 as int]), log)
            } else {
                Err(a + " requires a value"@)
            }
        } else if a == "--log"@ {
            if i + 1 < args.len() {
                parse_from(args, i + 2, file, Some(args[i + 1 as int]))
            } else {
                Err("--log requires a path"@)
            }
        } else if a == "--help"@ || a == "-h"@ {
            Ok(LaunchView::Help)
        } else if a == "--version"@ || a == "-V"@ {
            Ok(LaunchView::Version)
        } else {
            Err("unknown argument: "@ + a)
        }
    }
}

fn copy_str(s: &String) -> (r: String)
    ensures
        r@ == s@,
{
    string_of(&chars_of(s.as_str()))
}

/// Read the arguments (without the program name).
pub fn parse_args(args: &Vec<String>) -> (r: Result<Launch, LazyicsError>)
    ensures
        match parse_from(args.deep_view(), 0, None, None) {
            Ok(v) => r matches Ok(l) && launch_is(l, v),
            Err(m) => r matches Err(LazyicsError::InvalidArgs(e)) && e@ == m,
        },
{
    let ghost a = args.deep_view();
    let mut file: Option<String> = None;
    let mut log: Option<String> = None;
    let mut i: usize = 0;
    while i < args.len()
        invariant
            a == args.deep_view(),
            i <= args.len() + 1,
            parse_from(a, i as nat, match file {
                Some(f) => Some(f@),
                None => None,
            }, match log {
                Some(l) => Some(l@),
                None => None,
            }) == parse_from(a, 0, None, None),
        decreases args.len() + 1 - i,
    {
        let arg = args[i].as_str();
        assert(arg@ == a[i as int]);
        if str_eq(arg, "--file") || str_eq(arg, "-f") {
            if i + 1 < args.len() {
                assert(args[i + 1]@ == a[i + 1]);
                file = Some(copy_str(&args[i + 1]));
                i = i + 2;
            } else {
                let mut msg = chars_of(arg);
                push_chars(&mut msg, &chars_of(" requires a value"));
                return Err(LazyicsError::InvalidArgs(string_of(&msg)));
            }
        } else if str_eq(arg, "--log") {
            if i + 1 < args.len() {
                assert(args[i + 1]@ == a[i + 1]);
                log = Some(copy_str(&args[i + 1]));
                i = i + 2;
            } else {
                return Err(LazyicsError::InvalidArgs(string_of(&chars_of("--log requires a path"))));
            }
        } else if str_eq(arg, "--help") || str_eq(arg, "-h") {
            return Ok(Launch::Help);
        } else if str_eq(arg, "--version") || str_eq(arg, "-V") {
            return Ok(Launch::Version);
        } else {
            let mut msg = chars_of("unknown argument: ");
            push_chars(&mut msg, &chars_of(arg));
            return Err(LazyicsError::InvalidArgs(string_of(&msg)));
        }
    }
    let file = match file {
        Some(f) => f,
        None => string_of(&chars_of(DEFAULT_FILE)),
    };
    proof {
        reveal_strlit("calendar.ics");
    }
    Ok(Launch::Run(LaunchArgs { file, log }))
}

} // verus!
