//! What can go wrong, or happen instead, when deducing options.

use vstd::prelude::*;

use vstd::string::StringSliceAdditionalSpecFns;

use crate::bytes::{bytes_eq, is_word};
use crate::options::flags;
use crate::options::parser::{Arg, Flag, ParseError, ParseFailure, TakesValue};

verus! {

/// Why a string of digits could not be read as a number.
#[derive(PartialEq, Eq, Debug, Clone, Copy)]
pub enum NumberError {
    /// There were no digits.
    Empty,
    /// Something other than a digit was found.
    InvalidDigit,
    /// The number is too large for its type.
    Overflow,
}

/// Where a string that failed to be read as a number came from.
#[derive(PartialEq, Eq, Debug, Clone, Copy)]
pub enum NumberSource {
    /// It came from a command-line option.
    Arg(Arg),
    /// It came from the environment variable with this name.
    Env(&'static str),
}

/// The help text was asked for.
#[derive(PartialEq, Eq, Debug, Clone, Copy)]
pub struct HelpString;

/// The version was asked for.
#[derive(PartialEq, Eq, Debug, Clone, Copy)]
pub struct VersionString;

/// A **misfire** is a thing that can happen instead of listing files: a
/// catch-all for anything outside the program's normal execution.
#[derive(PartialEq, Eq, Debug, Clone)]
pub enum Misfire {
    /// The command line could not be parsed.
    InvalidOptions(ParseError),
    /// The user supplied an illegal choice to an option.
    BadArgument(Arg, Vec<u8>),
    /// The user asked for help. This isn't strictly an error, which is why
    /// this enum isn't named Error!
    Help(HelpString),
    /// The user wanted the version number.
    Version(VersionString),
    /// An option was given twice or more in strict mode.
    Duplicate(Flag, Flag),
    /// Two options were given that conflict with one another.
    Conflict(Arg, Arg),
    /// An option was given that does nothing when another one either is
    /// (`true`) or isn't (`false`) present.
    Useless(Arg, bool, Arg),
    /// An option was given that does nothing when neither of two other
    /// options is present.
    Useless2(Arg, Arg, Arg),
    /// A very specific edge case where --tree can't be used with --all twice.
    TreeAllAll,
    /// A numeric option was given that failed to be parsed as a number.
    FailedParse(String, NumberSource, NumberError),
    /// A glob to ignore was given that failed to be parsed as a pattern.
    FailedGlobPattern(String),
}

/// A misfire, with its strings as sequences.
pub enum MisfireView {
    InvalidOptions(ParseFailure),
    BadArgument(Arg, Seq<u8>),
    Help,
    Version,
    Duplicate(Flag, Flag),
    Conflict(Arg, Arg),
    Useless(Arg, bool, Arg),
    Useless2(Arg, Arg, Arg),
    TreeAllAll,
    FailedParse(Seq<char>, NumberSource, NumberError),
    FailedGlobPattern(Seq<char>),
}

impl View for Misfire {
    type V = MisfireView;

    open spec fn view(&self) -> MisfireView {
        match self {
            Misfire::InvalidOptions(e) => MisfireView::InvalidOptions(e@),
            Misfire::BadArgument(a, w) => MisfireView::BadArgument(*a, w@),
            Misfire::Help(_) => MisfireView::Help,
            Misfire::Version(_) => MisfireView::Version,
            Misfire::Duplicate(a, b) => MisfireView::Duplicate(*a, *b),
            Misfire::Conflict(a, b) => MisfireView::Conflict(*a, *b),
            Misfire::Useless(a, t, b) => MisfireView::Useless(*a, *t, *b),
            Misfire::Useless2(a, b, c) => MisfireView::Useless2(*a, *b, *c),
            Misfire::TreeAllAll => MisfireView::TreeAllAll,
            Misfire::FailedParse(s, n, e) => MisfireView::FailedParse(s@, *n, *e),
            Misfire::FailedGlobPattern(s) => MisfireView::FailedGlobPattern(s@),
        }
    }
}

impl Misfire {
    /// Whether this misfire is an error, rather than a request for help or
    /// for the version.
    pub fn is_error(&self) -> (r: bool)
        ensures
            r == !(self@ is Help || self@ is Version),
    {
        match self {
            Misfire::Help(_) => false,
            Misfire::Version(_) => false,
            _ => true,
        }
    }

    /// The status code the program should exit with: 2 when the help text
    /// was asked for, 3 for anything else.
    pub fn error_code(&self) -> (r: i32)
        ensures
            r == (if self@ is Help { 2i32 } else { 3i32 }),
    {
        match self {
            Misfire::Help(_) => 2,
            _ => 3,
        }
    }
}

/// Whether two options are the same option.
pub open spec fn same_arg(a: Arg, b: Arg) -> bool {
    a.short == b.short && a.long.spec_bytes() == b.long.spec_bytes() && a.takes_value == b.takes_value
}

/// Whether two options are the same option.
pub fn arg_eq(a: &Arg, b: &Arg) -> (r: bool)
    ensures
        r == same_arg(*a, *b),
{
    let shorts = match (a.short, b.short) {
        (Some(x), Some(y)) => x == y,
        (None, None) => true,
        _ => false,
    };
    let values = match (a.takes_value, b.takes_value) {
        (TakesValue::Necessary, TakesValue::Necessary) => true,
        (TakesValue::Forbidden, TakesValue::Forbidden) => true,
        _ => false,
    };
    shorts && values && bytes_eq(a.long.as_bytes(), b.long.as_bytes())
}

/// The suggestion given for `-t r`, as in `ls -ltr`.
pub open spec fn oldest_hint() -> &'static str {
    "To sort oldest files last, try \"--sort oldest\", or just \"-sold\""
}

/// The suggestion given for a bare `-t`, as in `ls -lt`.
pub open spec fn newest_hint() -> &'static str {
    "To sort newest files last, try \"--sort newest\", or just \"-snew\""
}

impl Misfire {
    /// Try to second-guess what the user was trying to do, depending on what
    /// went wrong: `ls -lt` and `ls -ltr` are common combinations, which here
    /// mean something else.
    pub fn suggestion(&self) -> (r: Option<&'static str>)
        ensures
            r == (match self@ {
                MisfireView::BadArgument(a, w) => if same_arg(a, flags::time()) && w == "r".spec_bytes() {
                    Some(oldest_hint())
                } else {
                    None
                },
                MisfireView::InvalidOptions(ParseFailure::NeedsValue(Flag::Short(c))) => if c == 116 {
                    Some(newest_hint())
                } else {
                    None
                },
                _ => None,
            }),
    {
        match self {
            Misfire::BadArgument(a, w) => {
                if arg_eq(a, &flags::time()) && is_word(w.as_slice(), "r") {
                    Some("To sort oldest files last, try \"--sort oldest\", or just \"-sold\"")
                } else {
                    None
                }
            },
            Misfire::InvalidOptions(ParseError::NeedsValue { flag: Flag::Short(c) }) => {
                if *c == 116 {
                    Some("To sort newest files last, try \"--sort newest\", or just \"-snew\"")
                } else {
                    None
                }
            },
            _ => None,
        }
    }
}

} // verus!
