//! The messages shown to the user when the options cannot be used.

use vstd::prelude::*;

use crate::options::error::{Misfire, MisfireView, NumberError, NumberSource};
use crate::options::help::help_text;
use crate::options::parser::{Arg, Flag, ParseError, ParseFailure};
use crate::text::{
    bytes_debug,
    bytes_debug_of,
    lossy_string,
    push_char,
    str_debug,
    str_debug_of,
    utf8_lossy,
};

verus! {

/// How an option is named in messages: `--long (-l)`, or `--long` when it
/// has no short name.
pub open spec fn arg_text(a: Arg) -> Seq<char> {
    "--"@ + a.long@ + match a.short {
        Some(c) => " (-"@ + seq![c as char] + ")"@,
        None => Seq::empty(),
    }
}

/// How a flag is named in messages: `-l` or `--long`.
pub open spec fn flag_text(f: Flag) -> Seq<char> {
    match f {
        Flag::Short(c) => "-"@ + seq![c as char],
        Flag::Long(l) => "--"@ + l@,
    }
}

/// The words `s[..n]`, with `, ` between them.
pub open spec fn joined(s: Seq<Seq<char>>, n: int) -> Seq<char>
    decreases n,
{
    if n <= 0 {
        Seq::empty()
    } else if n == 1 {
        s[0]
    } else {
        joined(s, n - 1) + ", "@ + s[n - 1]
    }
}

/// A list of legal choices for an option that takes a value.
#[derive(PartialEq, Eq, Debug, Clone)]
pub struct Choices(pub Vec<&'static str>);

impl Choices {
    /// The choices as words.
    pub open spec fn words(&self) -> Seq<Seq<char>> {
        self.0@.map_values(|w: &str| w@)
    }

    /// The choices as messages list them: `choices: a, b, c`.
    pub fn text(&self) -> (r: String)
        ensures
            r@ == "choices: "@ + joined(self.words(), self.words().len() as int),
    {
        let mut s = String::new();
        s.append("choices: ");
        let ghost base = s@;
        let mut i: usize = 0;
        while i < self.0.len()
            invariant
                0 <= i <= self.0@.len(),
                s@ == base + joined(self.words(), i as int),
                base == "choices: "@,
            decreases self.0@.len() - i,
        {
            if i > 0 {
                s.append(", ");
            }
            s.append(self.0[i]);
            assert(self.words()[i as int] == self.0@[i as int]@);
            assert(s@ =~= base + joined(self.words(), i + 1));
            i = i + 1;
        }
        s
    }
}

impl Arg {
    /// How this option is named in messages.
    pub fn text(&self) -> (r: String)
        ensures
            r@ == arg_text(*self),
    {
        let mut s = String::new();
        s.append("--");
        s.append(self.long);
        match self.short {
            Some(c) => {
                s.append(" (-");
                push_char(&mut s, c as char);
                s.append(")");
            },
            None => {},
        }
        assert(s@ =~= arg_text(*self));
        s
    }
}

impl Flag {
    /// How this flag is named in messages.
    pub fn text(&self) -> (r: String)
        ensures
            r@ == flag_text(*self),
    {
        let mut s = String::new();
        match *self {
            Flag::Short(c) => {
                s.append("-");
                push_char(&mut s, c as char);
            },
            Flag::Long(l) => {
                s.append("--");
                s.append(l);
            },
        }
        assert(s@ =~= flag_text(*self));
        s
    }
}

/// Where a number came from, as messages say it.
pub open spec fn source_text(n: NumberSource) -> Seq<char> {
    match n {
        NumberSource::Arg(a) => "option "@ + arg_text(a),
        NumberSource::Env(e) => "environment variable "@ + e@,
    }
}

/// Why a number could not be read, as the standard library words it.
pub open spec fn number_error_text(e: NumberError) -> Seq<char> {
    match e {
        NumberError::Empty => "cannot parse integer from empty string"@,
        NumberError::InvalidDigit => "invalid digit found in string"@,
        NumberError::Overflow => "number too large to fit in target type"@,
    }
}

impl NumberSource {
    /// Where a number came from, as messages say it.
    pub fn text(&self) -> (r: String)
        ensures
            r@ == source_text(*self),
    {
        let mut s = String::new();
        match *self {
            NumberSource::Arg(a) => {
                s.append("option ");
                let t = a.text();
                s.append(t.as_str());
            },
            NumberSource::Env(e) => {
                s.append("environment variable ");
                s.append(e);
            },
        }
        assert(s@ =~= source_text(*self));
        s
    }
}

impl NumberError {
    /// Why a number could not be read.
    pub fn text(&self) -> (r: String)
        ensures
            r@ == number_error_text(*self),
    {
        match *self {
            NumberError::Empty => String::from_str("cannot parse integer from empty string"),
            NumberError::InvalidDigit => String::from_str("invalid digit found in string"),
            NumberError::Overflow => String::from_str("number too large to fit in target type"),
        }
    }
}

/// The message for a command line that could not be parsed.
pub open spec fn parse_failure_text(e: ParseFailure) -> Seq<char> {
    match e {
        ParseFailure::NeedsValue(f) => "Flag "@ + flag_text(f) + " needs a value"@,
        ParseFailure::ForbiddenValue(f) => "Flag "@ + flag_text(f) + " cannot take a value"@,
        ParseFailure::UnknownShortArgument(c) => "Unknown argument -"@ + seq![c as char],
        ParseFailure::UnknownArgument(a) => "Unknown argument --"@ + utf8_lossy(a),
    }
}

impl ParseError {
    /// The message for this error.
    pub fn message(&self) -> (r: String)
        ensures
            r@ == parse_failure_text(self@),
    {
        let mut s = String::new();
        match self {
            ParseError::NeedsValue { flag } => {
                s.append("Flag ");
                let t = flag.text();
                s.append(t.as_str());
                s.append(" needs a value");
            },
            ParseError::ForbiddenValue { flag } => {
                s.append("Flag ");
                let t = flag.text();
                s.append(t.as_str());
                s.append(" cannot take a value");
            },
            ParseError::UnknownShortArgument { attempt } => {
                s.append("Unknown argument -");
                push_char(&mut s, *attempt as char);
            },
            ParseError::UnknownArgument { attempt } => {
                s.append("Unknown argument --");
                let t = lossy_string(attempt.as_slice());
                s.append(t.as_str());
            },
        }
        assert(s@ =~= parse_failure_text(self@));
        s
    }
}

/// The message for a misfire; none for a request for the version, whose
/// text is made when the program is built.
pub open spec fn misfire_text(m: MisfireView) -> Option<Seq<char>> {
    match m {
        MisfireView::InvalidOptions(e) => Some(parse_failure_text(e)),
        MisfireView::BadArgument(a, w) => Some(
            "Option "@ + arg_text(a) + " has no "@ + bytes_debug_of(w) + " setting"@,
        ),
        MisfireView::Help => Some(help_text()),
        MisfireView::Version => None,
        MisfireView::Duplicate(a, b) => Some(
            if same_flag(a, b) {
                "Flag "@ + flag_text(a) + " was given twice"@
            } else {
                "Flag "@ + flag_text(a) + " conflicts with flag "@ + flag_text(b)
            },
        ),
        MisfireView::Conflict(a, b) => Some("Option "@ + arg_text(a) + " conflicts with option "@ + arg_text(b)),
        MisfireView::Useless(a, given, b) => Some(
            "Option "@ + arg_text(a) + if given {
                " is useless given option "@
            } else {
                " is useless without option "@
            } + arg_text(b),
        ),
        MisfireView::Useless2(a, b1, b2) => Some(
            "Option "@ + arg_text(a) + " is useless without options "@ + arg_text(b1) + " or "@ + arg_text(b2),
        ),
        MisfireView::TreeAllAll => Some("Option --tree is useless given --all --all"@),
        MisfireView::FailedParse(s, n, e) => Some(
            "Value "@ + str_debug_of(s) + " not valid for "@ + source_text(n) + ": "@ + number_error_text(e),
        ),
        MisfireView::FailedGlobPattern(e) => Some("Failed to parse glob pattern: "@ + e),
    }
}


/// Whether two flags are the same flag.
pub open spec fn same_flag(a: Flag, b: Flag) -> bool {
    match (a, b) {
        (Flag::Short(x), Flag::Short(y)) => x == y,
        (Flag::Long(x), Flag::Long(y)) => x@ == y@,
        _ => false,
    }
}

fn flag_eq(a: &Flag, b: &Flag) -> (r: bool)
    ensures
        r == same_flag(*a, *b),
{
    match (a, b) {
        (Flag::Short(x), Flag::Short(y)) => *x == *y,
        (Flag::Long(x), Flag::Long(y)) => crate::text::str_eq(x, y),
        _ => false,
    }
}

impl Misfire {
    /// The message to show for this misfire; none for a request for the
    /// version, whose text is made when the program is built.
    pub fn message(&self) -> (r: Option<String>)
        ensures
            match misfire_text(self@) {
                Some(t) => r is Some && r->0@ == t,
                None => r is None,
            },
    {
        let mut s = String::new();
        match self {
            Misfire::InvalidOptions(e) => {
                return Some(e.message());
            },
            Misfire::BadArgument(a, w) => {
                s.append("Option ");
                let t = a.text();
                s.append(t.as_str());
                s.append(" has no ");
                let d = bytes_debug(w.as_slice());
                s.append(d.as_str());
                s.append(" setting");
            },
            Misfire::Help(h) => {
                return Some(h.text());
            },
            Misfire::Version(_) => {
                return None;
            },
            Misfire::Duplicate(a, b) => {
                s.append("Flag ");
                let t = a.text();
                s.append(t.as_str());
                if flag_eq(a, b) {
                    s.append(" was given twice");
                } else {
                    s.append(" conflicts with flag ");
                    let u = b.text();
                    s.append(u.as_str());
                }
            },
            Misfire::Conflict(a, b) => {
                s.append("Option ");
                let t = a.text();
                s.append(t.as_str());
                s.append(" conflicts with option ");
                let u = b.text();
                s.append(u.as_str());
            },
            Misfire::Useless(a, given, b) => {
                s.append("Option ");
                let t = a.text();
                s.append(t.as_str());
                if *given {
                    s.append(" is useless given option ");
                } else {
                    s.append(" is useless without option ");
                }
                let u = b.text();
                s.append(u.as_str());
            },
            Misfire::Useless2(a, b1, b2) => {
                s.append("Option ");
                let t = a.text();
                s.append(t.as_str());
                s.append(" is useless without options ");
                let u = b1.text();
                s.append(u.as_str());
                s.append(" or ");
                let v = b2.text();
                s.append(v.as_str());
            },
            Misfire::TreeAllAll => {
                s.append("Option --tree is useless given --all --all");
            },
            Misfire::FailedParse(text, n, e) => {
                s.append("Value ");
                let d = str_debug(text.as_str());
                s.append(d.as_str());
                s.append(" not valid for ");
                let t = n.text();
                s.append(t.as_str());
                s.append(": ");
                let u = e.text();
                s.append(u.as_str());
            },
            Misfire::FailedGlobPattern(e) => {
                s.append("Failed to parse glob pattern: ");
                s.append(e.as_str());
            },
        }
        assert(s@ =~= misfire_text(self@)->0);
        Some(s)
    }
}

} // verus!
