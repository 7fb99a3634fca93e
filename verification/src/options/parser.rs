//! A general parser for command-line options.
//!
//! It supports the following syntax:
//!
//! - Long options: `--inode`, `--grid`
//! - Long options with values: `--sort size`, `--level=4`
//! - Short options: `-i`, `-G`
//! - Short options with values: `-ssize`, `-L=4`
//!
//! These can be mixed and matched: `-lssize --grid`. Arguments are byte
//! strings with no particular encoding, so file names that are not valid
//! UTF-8 pass through untouched.

use vstd::prelude::*;

use vstd::string::StringSliceAdditionalSpecFns;

use crate::bytes::{bytes_eq, sub_bytes};
use crate::options::error::{Misfire, MisfireView};

verus! {

/// The byte `-`.
pub const DASH: u8 = 45;

/// The byte `=`.
pub const EQUALS: u8 = 61;

/// A flag, as it was written on the command line.
#[derive(PartialEq, Eq, Debug, Clone, Copy)]
pub enum Flag {
    Short(u8),
    Long(&'static str),
}

/// Whether an option wants a value after it.
#[derive(PartialEq, Eq, Debug, Clone, Copy)]
pub enum TakesValue {
    /// The option needs a value (`--sort size`).
    Necessary,
    /// The option must not have a value (`--long`).
    Forbidden,
}

/// How to treat options that were given more than once.
#[derive(PartialEq, Eq, Debug, Clone, Copy)]
pub enum Strictness {
    /// Complain when an option is given twice, or when two options conflict.
    ComplainAboutRedundantArguments,
    /// Use the option nearest to the end of the command line.
    UseLastArguments,
}

/// An option that the parser knows about.
#[derive(PartialEq, Eq, Debug, Clone, Copy)]
pub struct Arg {
    /// The short name, such as `l` for `-l`, if any.
    pub short: Option<u8>,
    /// The long name, such as `long` for `--long`.
    pub long: &'static str,
    /// Whether a value has to follow the option.
    pub takes_value: TakesValue,
}

impl Flag {
    /// Whether this flag names the given option.
    pub open spec fn spec_matches(self, arg: Arg) -> bool {
        match self {
            Flag::Short(s) => arg.short == Some(s),
            Flag::Long(l) => l.spec_bytes() == arg.long.spec_bytes(),
        }
    }

    /// Whether this flag names the given option.
    pub fn matches(&self, arg: &Arg) -> (r: bool)
        ensures
            r == self.spec_matches(*arg),
    {
        match *self {
            Flag::Short(s) => match arg.short {
                Some(t) => s == t,
                None => false,
            },
            Flag::Long(l) => bytes_eq(l.as_bytes(), arg.long.as_bytes()),
        }
    }
}

/// The set of options that the parser recognises.
#[derive(PartialEq, Eq, Debug, Clone)]
pub struct Args(pub Vec<Arg>);

/// The index of the first option at or after `i` whose short name is `c`.
pub open spec fn find_short(args: Seq<Arg>, c: u8, i: int) -> Option<int>
    decreases args.len() - i,
{
    if i < 0 || i >= args.len() {
        None
    } else if args[i].short == Some(c) {
        Some(i)
    } else {
        find_short(args, c, i + 1)
    }
}

/// The index of the first option at or after `i` whose long name is `name`.
pub open spec fn find_long(args: Seq<Arg>, name: Seq<u8>, i: int) -> Option<int>
    decreases args.len() - i,
{
    if i < 0 || i >= args.len() {
        None
    } else if args[i].long.spec_bytes() == name {
        Some(i)
    } else {
        find_long(args, name, i + 1)
    }
}

/// A parse error, with its byte strings as sequences.
pub enum ParseFailure {
    NeedsValue(Flag),
    ForbiddenValue(Flag),
    UnknownShortArgument(u8),
    UnknownArgument(Seq<u8>),
}

/// Something wrong with the command line that stops it being parsed.
#[derive(PartialEq, Eq, Debug, Clone)]
pub enum ParseError {
    /// A flag that needs a value was given without one.
    NeedsValue { flag: Flag },
    /// A flag that cannot take a value was given one.
    ForbiddenValue { flag: Flag },
    /// A short flag that is not a known option.
    UnknownShortArgument { attempt: u8 },
    /// A long flag that is not a known option.
    UnknownArgument { attempt: Vec<u8> },
}

impl View for ParseError {
    type V = ParseFailure;

    open spec fn view(&self) -> ParseFailure {
        match self {
            ParseError::NeedsValue { flag } => ParseFailure::NeedsValue(*flag),
            ParseError::ForbiddenValue { flag } => ParseFailure::ForbiddenValue(*flag),
            ParseError::UnknownShortArgument { attempt } => ParseFailure::UnknownShortArgument(*attempt),
            ParseError::UnknownArgument { attempt } => ParseFailure::UnknownArgument(attempt@),
        }
    }
}

impl Args {
    /// The option with the given short name.
    pub fn lookup_short(&self, short: u8) -> (r: Result<Arg, ParseError>)
        ensures
            match find_short(self.0@, short, 0) {
                Some(i) => r == Ok::<Arg, ParseError>(self.0@[i]),
                None => r == Err::<Arg, ParseError>(ParseError::UnknownShortArgument { attempt: short }),
            },
    {
        let mut i: usize = 0;
        while i < self.0.len()
            invariant
                0 <= i <= self.0@.len(),
                find_short(self.0@, short, 0) == find_short(self.0@, short, i as int),
            decreases self.0@.len() - i,
        {
            let a = self.0[i];
            if a.short == Some(short) {
                return Ok(a);
            }
            i = i + 1;
        }
        Err(ParseError::UnknownShortArgument { attempt: short })
    }

    /// The option with the given long name.
    pub fn lookup_long(&self, long: &[u8]) -> (r: Result<Arg, ParseError>)
        ensures
            match find_long(self.0@, long@, 0) {
                Some(i) => r == Ok::<Arg, ParseError>(self.0@[i]),
                None => r is Err && r->Err_0@ == ParseFailure::UnknownArgument(long@),
            },
    {
        let mut i: usize = 0;
        while i < self.0.len()
            invariant
                0 <= i <= self.0@.len(),
                find_long(self.0@, long@, 0) == find_long(self.0@, long@, i as int),
            decreases self.0@.len() - i,
        {
            let a = self.0[i];
            if bytes_eq(a.long.as_bytes(), long) {
                return Ok(a);
            }
            i = i + 1;
        }
        let attempt = sub_bytes(long, 0, long.len());
        assert(attempt@ =~= long@);
        Err(ParseError::UnknownArgument { attempt })
    }
}

/// The index of the first `=` in `s` at or after `i`.
pub open spec fn equals_index(s: Seq<u8>, i: int) -> Option<int>
    decreases s.len() - i,
{
    if i < 0 || i >= s.len() {
        None
    } else if s[i] == EQUALS {
        Some(i)
    } else {
        equals_index(s, i + 1)
    }
}

/// The two sides of the first `=` in `s`, when both are non-empty.
pub open spec fn spec_split_on_equals(s: Seq<u8>) -> Option<(Seq<u8>, Seq<u8>)> {
    match equals_index(s, 0) {
        Some(i) => if i >= 1 && s.len() - i >= 2 {
            Some((s.subrange(0, i), s.subrange(i + 1, s.len() as int)))
        } else {
            None
        },
        None => None,
    }
}

/// Splits a string on its first `=` character, returning the two substrings
/// on either side. Returns `None` if there is no `=`, or if either side of
/// it is empty.
pub fn split_on_equals(input: &[u8]) -> (r: Option<(Vec<u8>, Vec<u8>)>)
    ensures
        match spec_split_on_equals(input@) {
            Some((before, after)) => r is Some && r.unwrap().0@ == before && r.unwrap().1@ == after,
            None => r is None,
        },
{
    let mut i: usize = 0;
    while i < input.len()
        invariant
            0 <= i <= input@.len(),
            equals_index(input@, 0) == equals_index(input@, i as int),
        decreases input@.len() - i,
    {
        if input[i] == EQUALS {
            if i >= 1 && input.len() - i >= 2 {
                return Some((sub_bytes(input, 0, i), sub_bytes(input, i + 1, input.len())));
            }
            return None;
        }
        i = i + 1;
    }
    None
}

/// The flags found on a command line, each with the value given to it, if any.
pub type FlagsView = Seq<(Flag, Option<Seq<u8>>)>;

/// A flag's value as a byte sequence.
pub open spec fn value_view(v: Option<Vec<u8>>) -> Option<Seq<u8>> {
    match v {
        Some(x) => Some(x@),
        None => None,
    }
}

/// The flags of a list of matches, with their values as byte sequences.
pub open spec fn flags_view(fs: Seq<(Flag, Option<Vec<u8>>)>) -> FlagsView {
    fs.map_values(|p: (Flag, Option<Vec<u8>>)| (p.0, value_view(p.1)))
}

/// A list of byte strings as a sequence of byte sequences.
pub open spec fn strings_view(fs: Seq<Vec<u8>>) -> Seq<Seq<u8>> {
    fs.map_values(|v: Vec<u8>| v@)
}

/// The result of parsing a command line: the flags, in the order they were
/// given, and the free arguments (usually file names).
#[derive(PartialEq, Eq, Debug, Clone)]
pub struct Matches {
    /// Long and short flags are kept in the same vector, because the one
    /// nearest the end usually wins.
    pub flags: Vec<(Flag, Option<Vec<u8>>)>,
    /// The arguments that are not flags.
    pub frees: Vec<Vec<u8>>,
}

impl View for Matches {
    type V = (FlagsView, Seq<Seq<u8>>);

    open spec fn view(&self) -> (FlagsView, Seq<Seq<u8>>) {
        (flags_view(self.flags@), strings_view(self.frees@))
    }
}

/// The argument `--`, after which nothing is parsed as a flag.
pub open spec fn double_dash() -> Seq<u8> {
    seq![DASH, DASH]
}

/// Whether an argument is a long flag: it starts with `--`.
pub open spec fn is_long(a: Seq<u8>) -> bool {
    a.len() >= 2 && a[0] == DASH && a[1] == DASH
}

/// Whether an argument is a short flag (or a cluster of them): it starts
/// with `-`, and is not just `-`.
pub open spec fn is_short(a: Seq<u8>) -> bool {
    a.len() >= 2 && a[0] == DASH
}

/// Parsing the long flag at `inputs[i]`: the index of the next argument to
/// look at, and the flags found so far.
pub open spec fn long_step(args: Seq<Arg>, inputs: Seq<Seq<u8>>, i: int, flags: FlagsView)
    -> Result<(int, FlagsView), ParseFailure>
{
    let name = inputs[i].subrange(2, inputs[i].len() as int);
    match spec_split_on_equals(name) {
        Some((before, after)) => match find_long(args, before, 0) {
            None => Err(ParseFailure::UnknownArgument(before)),
            Some(k) => {
                let flag = Flag::Long(args[k].long);
                match args[k].takes_value {
                    TakesValue::Necessary => Ok((i + 1, flags.push((flag, Some(after))))),
                    TakesValue::Forbidden => Err(ParseFailure::ForbiddenValue(flag)),
                }
            },
        },
        None => match find_long(args, name, 0) {
            None => Err(ParseFailure::UnknownArgument(name)),
            Some(k) => {
                let flag = Flag::Long(args[k].long);
                match args[k].takes_value {
                    TakesValue::Forbidden => Ok((i + 1, flags.push((flag, None)))),
                    TakesValue::Necessary => if i + 1 < inputs.len() {
                        Ok((i + 2, flags.push((flag, Some(inputs[i + 1])))))
                    } else {
                        Err(ParseFailure::NeedsValue(flag))
                    },
                }
            },
        },
    }
}

/// Parsing the short flags `cluster[k..]` that come before an `=`: every one
/// of them must be an option that takes no value.
pub open spec fn short_prefix(args: Seq<Arg>, cluster: Seq<u8>, k: int, flags: FlagsView)
    -> Result<FlagsView, ParseFailure>
    decreases cluster.len() - k,
{
    if k < 0 || k >= cluster.len() {
        Ok(flags)
    } else {
        let c = cluster[k];
        match find_short(args, c, 0) {
            None => Err(ParseFailure::UnknownShortArgument(c)),
            Some(x) => match args[x].takes_value {
                TakesValue::Forbidden => short_prefix(args, cluster, k + 1, flags.push((Flag::Short(c), None))),
                TakesValue::Necessary => Err(ParseFailure::NeedsValue(Flag::Short(c))),
            },
        }
    }
}

/// Parsing the short flags `inputs[i][k..]` of a cluster with no `=`.
pub open spec fn short_run(args: Seq<Arg>, inputs: Seq<Seq<u8>>, i: int, k: int, flags: FlagsView)
    -> Result<(int, FlagsView), ParseFailure>
    decreases inputs[i].len() - k,
{
    let bytes = inputs[i];
    if k < 0 || k >= bytes.len() {
        Ok((i + 1, flags))
    } else {
        let c = bytes[k];
        match find_short(args, c, 0) {
            None => Err(ParseFailure::UnknownShortArgument(c)),
            Some(x) => match args[x].takes_value {
                TakesValue::Forbidden => short_run(args, inputs, i, k + 1, flags.push((Flag::Short(c), None))),
                TakesValue::Necessary => if k < bytes.len() - 1 {
                    Ok((i + 1, flags.push((Flag::Short(c), Some(bytes.subrange(k + 1, bytes.len() as int))))))
                } else if i + 1 < inputs.len() {
                    Ok((i + 2, flags.push((Flag::Short(c), Some(inputs[i + 1])))))
                } else {
                    Err(ParseFailure::NeedsValue(Flag::Short(c)))
                },
            },
        }
    }
}

/// Parsing the short flag cluster at `inputs[i]`.
pub open spec fn short_step(args: Seq<Arg>, inputs: Seq<Seq<u8>>, i: int, flags: FlagsView)
    -> Result<(int, FlagsView), ParseFailure>
{
    let rest = inputs[i].subrange(1, inputs[i].len() as int);
    match spec_split_on_equals(rest) {
        Some((before, after)) => match short_prefix(args, before.subrange(0, before.len() - 1), 0, flags) {
            Err(e) => Err(e),
            Ok(fl) => {
                let c = before[before.len() - 1];
                match find_short(args, c, 0) {
                    None => Err(ParseFailure::UnknownShortArgument(c)),
                    Some(x) => match args[x].takes_value {
                        TakesValue::Necessary => Ok((i + 1, fl.push((Flag::Short(c), Some(after))))),
                        TakesValue::Forbidden => Err(ParseFailure::ForbiddenValue(Flag::Short(c))),
                    },
                }
            },
        },
        None => short_run(args, inputs, i, 1, flags),
    }
}

/// Parsing `inputs[i..]`, given whether flags are still being parsed and
/// the flags and free arguments found so far.
pub open spec fn parse_rest(
    args: Seq<Arg>,
    inputs: Seq<Seq<u8>>,
    i: int,
    parsing: bool,
    flags: FlagsView,
    frees: Seq<Seq<u8>>,
) -> Result<(FlagsView, Seq<Seq<u8>>), ParseFailure>
    decreases inputs.len() - i,
{
    if i < 0 || i >= inputs.len() {
        Ok((flags, frees))
    } else {
        let a = inputs[i];
        if !parsing {
            parse_rest(args, inputs, i + 1, false, flags, frees.push(a))
        } else if a == double_dash() {
            parse_rest(args, inputs, i + 1, false, flags, frees)
        } else if is_long(a) || is_short(a) {
            let step = if is_long(a) { long_step(args, inputs, i, flags) } else { short_step(args, inputs, i, flags) };
            match step {
                Err(e) => Err(e),
                Ok((j, fl)) => if i < j && j <= inputs.len() {
                    parse_rest(args, inputs, j, true, fl, frees)
                } else {
                    Ok((fl, frees))
                },
            }
        } else {
            parse_rest(args, inputs, i + 1, true, flags, frees.push(a))
        }
    }
}

/// What parsing the whole command line gives.
pub open spec fn spec_parse(args: Seq<Arg>, inputs: Seq<Seq<u8>>) -> Result<(FlagsView, Seq<Seq<u8>>), ParseFailure> {
    parse_rest(args, inputs, 0, true, Seq::empty(), Seq::empty())
}

proof fn lemma_short_run_moves_on(args: Seq<Arg>, inputs: Seq<Seq<u8>>, i: int, k: int, flags: FlagsView)
    requires
        0 <= i < inputs.len(),
    ensures
        short_run(args, inputs, i, k, flags) matches Ok((j, _)) ==> i < j <= inputs.len(),
    decreases inputs[i].len() - k,
{
    if 0 <= k < inputs[i].len() {
        lemma_short_run_moves_on(args, inputs, i, k + 1, flags.push((Flag::Short(inputs[i][k]), None)));
    }
}

/// Every step of the parse moves on by one or two arguments, and never past
/// the end.
proof fn lemma_step_moves_on(args: Seq<Arg>, inputs: Seq<Seq<u8>>, i: int, flags: FlagsView)
    requires
        0 <= i < inputs.len(),
    ensures
        long_step(args, inputs, i, flags) matches Ok((j, _)) ==> i < j <= inputs.len(),
        short_step(args, inputs, i, flags) matches Ok((j, _)) ==> i < j <= inputs.len(),
{
    lemma_short_run_moves_on(args, inputs, i, 1, flags);
}

/// Whether an executable step result agrees with a step of the model.
pub open spec fn step_agrees(r: Result<usize, ParseError>, s: Result<(int, FlagsView), ParseFailure>, after: FlagsView) -> bool {
    match r {
        Ok(j) => s == Ok::<(int, FlagsView), ParseFailure>((j as int, after)),
        Err(e) => s == Err::<(int, FlagsView), ParseFailure>(e@),
    }
}

fn push_flag(flags: &mut Vec<(Flag, Option<Vec<u8>>)>, flag: Flag, value: Option<Vec<u8>>)
    ensures
        flags_view(final(flags)@) == flags_view(old(flags)@).push((flag, value_view(value))),
{
    flags.push((flag, value));
    assert(flags_view(flags@) =~= flags_view(old(flags)@).push((flag, value_view(value))));
}

fn copy_bytes(v: &Vec<u8>) -> (r: Vec<u8>)
    ensures
        r@ == v@,
{
    let r = sub_bytes(v.as_slice(), 0, v.len());
    assert(r@ =~= v@);
    r
}

/// Parses the long flag at `inputs[i]`.
fn parse_long(args: &Args, inputs: &Vec<Vec<u8>>, i: usize, flags: &mut Vec<(Flag, Option<Vec<u8>>)>)
    -> (r: Result<usize, ParseError>)
    requires
        i < inputs@.len(),
        is_long(inputs@[i as int]@),
    ensures
        step_agrees(r, long_step(args.0@, strings_view(inputs@), i as int, flags_view(old(flags)@)), flags_view(final(flags)@)),
{
    let ghost iv = strings_view(inputs@);
    let n = inputs.len();
    let bytes = inputs[i].as_slice();
    assert(bytes@ == iv[i as int]);
    let name = sub_bytes(bytes, 2, bytes.len());
    match split_on_equals(name.as_slice()) {
        Some((before, after)) => {
            let arg = args.lookup_long(before.as_slice())?;
            let flag = Flag::Long(arg.long);
            match arg.takes_value {
                TakesValue::Necessary => {
                    push_flag(flags, flag, Some(after));
                    Ok(i + 1)
                },
                TakesValue::Forbidden => Err(ParseError::ForbiddenValue { flag }),
            }
        },
        None => {
            let arg = args.lookup_long(name.as_slice())?;
            let flag = Flag::Long(arg.long);
            match arg.takes_value {
                TakesValue::Forbidden => {
                    push_flag(flags, flag, None);
                    Ok(i + 1)
                },
                TakesValue::Necessary => {
                    if i + 1 < inputs.len() {
                        let value = copy_bytes(&inputs[i + 1]);
                        push_flag(flags, flag, Some(value));
                        Ok(i + 2)
                    } else {
                        Err(ParseError::NeedsValue { flag })
                    }
                },
            }
        },
    }
}

/// Parses the short flag cluster at `inputs[i]`.
#[verifier::loop_isolation(false)]
fn parse_short(args: &Args, inputs: &Vec<Vec<u8>>, i: usize, flags: &mut Vec<(Flag, Option<Vec<u8>>)>)
    -> (r: Result<usize, ParseError>)
    requires
        i < inputs@.len(),
        is_short(inputs@[i as int]@),
    ensures
        step_agrees(r, short_step(args.0@, strings_view(inputs@), i as int, flags_view(old(flags)@)), flags_view(final(flags)@)),
{
    let ghost iv = strings_view(inputs@);
    let ghost f0 = flags_view(flags@);
    let n = inputs.len();
    let bytes = inputs[i].as_slice();
    assert(bytes@ == iv[i as int]);
    let rest = sub_bytes(bytes, 1, bytes.len());
    match split_on_equals(rest.as_slice()) {
        Some((before, after)) => {
            let last = before.len() - 1;
            let ghost prefix = before@.subrange(0, last as int);
            let mut k: usize = 0;
            while k < last
                invariant
                    last + 1 == before@.len(),
                    prefix == before@.subrange(0, last as int),
                    0 <= k <= last,
                    short_prefix(args.0@, prefix, 0, f0) == short_prefix(args.0@, prefix, k as int, flags_view(flags@)),
                decreases last - k,
            {
                let c = before[k];
                assert(prefix[k as int] == c);
                let arg = args.lookup_short(c)?;
                match arg.takes_value {
                    TakesValue::Forbidden => {
                        push_flag(flags, Flag::Short(c), None);
                    },
                    TakesValue::Necessary => {
                        return Err(ParseError::NeedsValue { flag: Flag::Short(c) });
                    },
                }
                k = k + 1;
            }
            let c = before[last];
            let arg = args.lookup_short(c)?;
            match arg.takes_value {
                TakesValue::Necessary => {
                    push_flag(flags, Flag::Short(c), Some(after));
                    Ok(i + 1)
                },
                TakesValue::Forbidden => Err(ParseError::ForbiddenValue { flag: Flag::Short(c) }),
            }
        },
        None => {
            let mut k: usize = 1;
            while k < bytes.len()
                invariant
                    bytes@ == iv[i as int],
                    i < n == iv.len(),
                    1 <= k <= bytes@.len(),
                    short_run(args.0@, iv, i as int, 1, f0) == short_run(args.0@, iv, i as int, k as int, flags_view(flags@)),
                decreases bytes@.len() - k,
            {
                let c = bytes[k];
                let arg = args.lookup_short(c)?;
                match arg.takes_value {
                    TakesValue::Forbidden => {
                        push_flag(flags, Flag::Short(c), None);
                    },
                    TakesValue::Necessary => {
                        if k < bytes.len() - 1 {
                            let value = sub_bytes(bytes, k + 1, bytes.len());
                            push_flag(flags, Flag::Short(c), Some(value));
                            return Ok(i + 1);
                        } else if i + 1 < inputs.len() {
                            let value = copy_bytes(&inputs[i + 1]);
                            push_flag(flags, Flag::Short(c), Some(value));
                            return Ok(i + 2);
                        } else {
                            return Err(ParseError::NeedsValue { flag: Flag::Short(c) });
                        }
                    },
                }
                k = k + 1;
            }
            Ok(i + 1)
        },
    }
}

/// Parses the command line `inputs` against the known options `args`.
///
/// Once `--` is seen, every later argument is free. A lone `-` is free too.
pub fn parse(args: &Args, inputs: &Vec<Vec<u8>>) -> (r: Result<Matches, ParseError>)
    ensures
        match spec_parse(args.0@, strings_view(inputs@)) {
            Ok(m) => r is Ok && r->Ok_0@ == m,
            Err(e) => r is Err && r->Err_0@ == e,
        },
{
    let ghost iv = strings_view(inputs@);
    let mut parsing = true;
    let mut flags: Vec<(Flag, Option<Vec<u8>>)> = Vec::new();
    let mut frees: Vec<Vec<u8>> = Vec::new();
    let mut i: usize = 0;
    assert(flags_view(flags@) =~= Seq::empty());
    assert(strings_view(frees@) =~= Seq::empty());
    while i < inputs.len()
        invariant
            iv == strings_view(inputs@),
            0 <= i <= iv.len(),
            spec_parse(args.0@, iv) == parse_rest(args.0@, iv, i as int, parsing, flags_view(flags@), strings_view(frees@)),
        decreases iv.len() - i,
    {
        let a = inputs[i].as_slice();
        assert(a@ == iv[i as int]);
        if !parsing {
            let ghost old_frees = frees@;
            frees.push(copy_bytes(&inputs[i]));
            assert(strings_view(frees@) =~= strings_view(old_frees).push(a@));
            i = i + 1;
        } else if a.len() == 2 && a[0] == DASH && a[1] == DASH {
            assert(a@ =~= double_dash());
            parsing = false;
            i = i + 1;
        } else if a.len() >= 2 && a[0] == DASH && a[1] == DASH {
            assert(a@ != double_dash());
            let ghost fl0 = flags_view(flags@);
            proof { lemma_step_moves_on(args.0@, iv, i as int, fl0); }
            match parse_long(args, inputs, i, &mut flags) {
                Ok(j) => {
                    i = j;
                },
                Err(e) => {
                    return Err(e);
                },
            }
        } else if a.len() >= 2 && a[0] == DASH {
            assert(a@ != double_dash());
            let ghost fl0 = flags_view(flags@);
            proof { lemma_step_moves_on(args.0@, iv, i as int, fl0); }
            match parse_short(args, inputs, i, &mut flags) {
                Ok(j) => {
                    i = j;
                },
                Err(e) => {
                    return Err(e);
                },
            }
        } else {
            assert(a@ != double_dash());
            let ghost old_frees = frees@;
            frees.push(copy_bytes(&inputs[i]));
            assert(strings_view(frees@) =~= strings_view(old_frees).push(a@));
            i = i + 1;
        }
    }
    Ok(Matches { flags, frees })
}

/// Whether a flag names any of the given options.
pub open spec fn matches_any(f: Flag, args: Seq<Arg>) -> bool {
    exists|j: int| 0 <= j < args.len() && f.spec_matches(args[j])
}

/// The flags without values among `fl[..n]` that name any of `args`, in order.
pub open spec fn plain_hits(fl: FlagsView, args: Seq<Arg>, n: int) -> Seq<Flag>
    decreases n,
{
    if n <= 0 {
        Seq::empty()
    } else {
        let prev = plain_hits(fl, args, n - 1);
        let t = fl[n - 1];
        if t.1 is None && matches_any(t.0, args) {
            prev.push(t.0)
        } else {
            prev
        }
    }
}

/// The flags with values among `fl[..n]` that name any of `args`, in order,
/// each with its value.
pub open spec fn value_hits(fl: FlagsView, args: Seq<Arg>, n: int) -> Seq<(Flag, Seq<u8>)>
    decreases n,
{
    if n <= 0 {
        Seq::empty()
    } else {
        let prev = value_hits(fl, args, n - 1);
        let t = fl[n - 1];
        if t.1 is Some && matches_any(t.0, args) {
            prev.push((t.0, t.1->0))
        } else {
            prev
        }
    }
}

/// How many of `fl[..n]` name `arg`, with or without a value.
pub open spec fn count_hits(fl: FlagsView, arg: Arg, n: int) -> nat
    decreases n,
{
    if n <= 0 {
        0
    } else if fl[n - 1].0.spec_matches(arg) {
        count_hits(fl, arg, n - 1) + 1
    } else {
        count_hits(fl, arg, n - 1)
    }
}

/// The flags of a parsed command line, together with how strictly to treat
/// flags that were given more than once.
#[derive(PartialEq, Eq, Debug, Clone)]
pub struct MatchedFlags {
    /// The flags, in the order they were given, each with its value, if any.
    pub flags: Vec<(Flag, Option<Vec<u8>>)>,
    /// Whether to complain about redundant flags.
    pub strictness: Strictness,
}

/// Whether a result computed with misfires agrees with one of the model.
pub open spec fn agrees<T>(r: Result<T, Misfire>, s: Result<T, MisfireView>) -> bool {
    match (r, s) {
        (Ok(a), Ok(b)) => a == b,
        (Err(a), Err(b)) => a@ == b,
        _ => false,
    }
}

/// The flags of a parsed command line and the strictness, as a model.
pub struct FlagsModel {
    /// The flags, in order, each with its value, if any.
    pub flags: FlagsView,
    /// How strictly to treat flags that were given more than once.
    pub strictness: Strictness,
}

impl FlagsModel {
    /// Whether redundant flags are complained about.
    pub open spec fn spec_is_strict(self) -> bool {
        self.strictness == Strictness::ComplainAboutRedundantArguments
    }

    /// The last flag without a value that names any of `args`.
    pub open spec fn spec_has_where_any(self, args: Seq<Arg>) -> Option<Flag> {
        let h = plain_hits(self.flags, args, self.flags.len() as int);
        if h.len() == 0 { None } else { Some(h.last()) }
    }

    /// The flag without a value that names any of `args`: in strict mode it
    /// must be the only one, otherwise the last one counts.
    pub open spec fn spec_has_where(self, args: Seq<Arg>) -> Result<Option<Flag>, MisfireView> {
        let h = plain_hits(self.flags, args, self.flags.len() as int);
        if self.spec_is_strict() {
            if h.len() < 2 {
                Ok(if h.len() == 0 { None } else { Some(h[0]) })
            } else {
                Err(MisfireView::Duplicate(h[0], h[1]))
            }
        } else {
            Ok(self.spec_has_where_any(args))
        }
    }

    /// Whether the option `arg` was given without a value.
    pub open spec fn spec_has(self, arg: Arg) -> Result<bool, MisfireView> {
        match self.spec_has_where(seq![arg]) {
            Ok(o) => Ok(o is Some),
            Err(e) => Err(e),
        }
    }

    /// The value given to any of `args`: in strict mode only one may be
    /// given, otherwise the last one counts.
    pub open spec fn spec_get_where(self, args: Seq<Arg>) -> Result<Option<Seq<u8>>, MisfireView> {
        let h = value_hits(self.flags, args, self.flags.len() as int);
        if self.spec_is_strict() && h.len() >= 2 {
            Err(MisfireView::Duplicate(h[0].0, h[1].0))
        } else if h.len() == 0 {
            Ok(None)
        } else if self.spec_is_strict() {
            Ok(Some(h[0].1))
        } else {
            Ok(Some(h.last().1))
        }
    }

    /// The value given to the option `arg`.
    pub open spec fn spec_get(self, arg: Arg) -> Result<Option<Seq<u8>>, MisfireView> {
        self.spec_get_where(seq![arg])
    }

    /// How many times the option `arg` was given, with or without a value.
    pub open spec fn spec_count(self, arg: Arg) -> nat {
        count_hits(self.flags, arg, self.flags.len() as int)
    }

}

impl MatchedFlags {
    /// The flags, with their values as sequences.
    pub open spec fn fl(&self) -> FlagsView {
        flags_view(self.flags@)
    }

    /// The model of these matched flags.
    pub open spec fn model(&self) -> FlagsModel {
        FlagsModel { flags: flags_view(self.flags@), strictness: self.strictness }
    }

    /// Whether redundant flags are complained about.
    pub fn is_strict(&self) -> (r: bool)
        ensures
            r == self.model().spec_is_strict(),
    {
        match self.strictness {
            Strictness::ComplainAboutRedundantArguments => true,
            Strictness::UseLastArguments => false,
        }
    }

    fn plain_hit_list(&self, args: &Vec<Arg>) -> (h: Vec<Flag>)
        ensures
            h@ == plain_hits(self.fl(), args@, self.fl().len() as int),
    {
        let mut h: Vec<Flag> = Vec::new();
        let mut i: usize = 0;
        while i < self.flags.len()
            invariant
                0 <= i <= self.flags@.len(),
                h@ == plain_hits(self.fl(), args@, i as int),
            decreases self.flags@.len() - i,
        {
            let f = self.flags[i].0;
            let plain = self.flags[i].1.is_none();
            if plain && matches_any_exec(&f, args) {
                h.push(f);
            }
            i = i + 1;
        }
        h
    }

    /// The last flag without a value that names any of `args`, whatever the
    /// strictness.
    pub fn has_where_any(&self, args: &Vec<Arg>) -> (r: Option<Flag>)
        ensures
            r == self.model().spec_has_where_any(args@),
    {
        let h = self.plain_hit_list(args);
        if h.len() == 0 {
            None
        } else {
            Some(h[h.len() - 1])
        }
    }

    /// The flag without a value that names any of `args`. In strict mode,
    /// two such flags are a `Duplicate` misfire; otherwise the last counts.
    pub fn has_where(&self, args: &Vec<Arg>) -> (r: Result<Option<Flag>, Misfire>)
        ensures
            agrees(r, self.model().spec_has_where(args@)),
    {
        if self.is_strict() {
            let h = self.plain_hit_list(args);
            if h.len() < 2 {
                if h.len() == 0 { Ok(None) } else { Ok(Some(h[0])) }
            } else {
                Err(Misfire::Duplicate(h[0], h[1]))
            }
        } else {
            Ok(self.has_where_any(args))
        }
    }

    /// Whether the option `arg` was given without a value.
    pub fn has(&self, arg: &Arg) -> (r: Result<bool, Misfire>)
        ensures
            agrees(r, self.model().spec_has(*arg)),
    {
        let args = vec![*arg];
        assert(args@ =~= seq![*arg]);
        match self.has_where(&args) {
            Ok(o) => Ok(o.is_some()),
            Err(e) => Err(e),
        }
    }

    /// The value given to any of `args`. In strict mode, two such values are
    /// a `Duplicate` misfire; otherwise the last counts.
    pub fn get_where(&self, args: &Vec<Arg>) -> (r: Result<Option<Vec<u8>>, Misfire>)
        ensures
            match self.model().spec_get_where(args@) {
                Ok(v) => r is Ok && value_view(r->Ok_0) == v,
                Err(e) => r is Err && r->Err_0@ == e,
            },
    {
        let ghost fl = self.fl();
        let mut idx: Vec<usize> = Vec::new();
        let mut i: usize = 0;
        while i < self.flags.len()
            invariant
                fl == self.fl(),
                0 <= i <= self.flags@.len(),
                idx@.len() == value_hits(fl, args@, i as int).len(),
                forall|k: int| 0 <= k < idx@.len() ==> {
                    &&& 0 <= #[trigger] idx@[k] < i
                    &&& fl[idx@[k] as int].0 == value_hits(fl, args@, i as int)[k].0
                    &&& fl[idx@[k] as int].1 == Some(value_hits(fl, args@, i as int)[k].1)
                },
            decreases self.flags@.len() - i,
        {
            let f = self.flags[i].0;
            let valued = self.flags[i].1.is_some();
            if valued && matches_any_exec(&f, args) {
                idx.push(i);
            }
            i = i + 1;
        }
        let n = idx.len();
        if self.is_strict() && n >= 2 {
            return Err(Misfire::Duplicate(self.flags[idx[0]].0, self.flags[idx[1]].0));
        }
        if n == 0 {
            return Ok(None);
        }
        let k = if self.is_strict() { idx[0] } else { idx[n - 1] };
        match &self.flags[k].1 {
            Some(v) => Ok(Some(copy_bytes(v))),
            None => Ok(None),
        }
    }

    /// The value given to the option `arg`.
    pub fn get(&self, arg: &Arg) -> (r: Result<Option<Vec<u8>>, Misfire>)
        ensures
            match self.model().spec_get(*arg) {
                Ok(v) => r is Ok && value_view(r->Ok_0) == v,
                Err(e) => r is Err && r->Err_0@ == e,
            },
    {
        let args = vec![*arg];
        assert(args@ =~= seq![*arg]);
        self.get_where(&args)
    }

    /// How many times the option `arg` was given, with or without a value.
    pub fn count(&self, arg: &Arg) -> (r: usize)
        ensures
            r == self.model().spec_count(*arg),
    {
        let mut c: usize = 0;
        let mut i: usize = 0;
        while i < self.flags.len()
            invariant
                0 <= i <= self.flags@.len(),
                c == count_hits(self.fl(), *arg, i as int),
                c <= i,
            decreases self.flags@.len() - i,
        {
            if self.flags[i].0.matches(arg) {
                c = c + 1;
            }
            i = i + 1;
        }
        c
    }
}

/// Whether a flag names any of the given options.
pub fn matches_any_exec(f: &Flag, args: &Vec<Arg>) -> (r: bool)
    ensures
        r == matches_any(*f, args@),
{
    let mut j: usize = 0;
    while j < args.len()
        invariant
            0 <= j <= args@.len(),
            forall|k: int| 0 <= k < j ==> !f.spec_matches(args@[k]),
        decreases args@.len() - j,
    {
        if f.matches(&args[j]) {
            return true;
        }
        j = j + 1;
    }
    false
}


proof fn lemma_rest_is_free(
    args: Seq<Arg>,
    inputs: Seq<Seq<u8>>,
    i: int,
    flags: FlagsView,
    frees: Seq<Seq<u8>>,
)
    requires
        0 <= i <= inputs.len(),
    ensures
        parse_rest(args, inputs, i, false, flags, frees) == Ok::<(FlagsView, Seq<Seq<u8>>), ParseFailure>(
            (flags, frees + inputs.subrange(i, inputs.len() as int)),
        ),
    decreases inputs.len() - i,
{
    if i < inputs.len() {
        lemma_rest_is_free(args, inputs, i + 1, flags, frees.push(inputs[i]));
        assert(frees.push(inputs[i]) + inputs.subrange(i + 1, inputs.len() as int) =~= frees
            + inputs.subrange(i, inputs.len() as int));
    } else {
        assert(frees + inputs.subrange(i, inputs.len() as int) =~= frees);
    }
}

proof fn lemma_plain_rest(args: Seq<Arg>, inputs: Seq<Seq<u8>>, i: int, frees: Seq<Seq<u8>>)
    requires
        0 <= i <= inputs.len(),
        forall|j: int| 0 <= j < inputs.len() ==> !is_long(#[trigger] inputs[j]) && !is_short(inputs[j]),
    ensures
        parse_rest(args, inputs, i, true, Seq::empty(), frees) == Ok::<(FlagsView, Seq<Seq<u8>>), ParseFailure>(
            (Seq::empty(), frees + inputs.subrange(i, inputs.len() as int)),
        ),
    decreases inputs.len() - i,
{
    if i < inputs.len() {
        assert(!is_long(inputs[i]));
        assert(inputs[i] != double_dash());
        lemma_plain_rest(args, inputs, i + 1, frees.push(inputs[i]));
        assert(frees.push(inputs[i]) + inputs.subrange(i + 1, inputs.len() as int) =~= frees
            + inputs.subrange(i, inputs.len() as int));
    } else {
        assert(frees + inputs.subrange(i, inputs.len() as int) =~= frees);
    }
}

/// Arguments that do not start with a dash (and a lone `-`) are free
/// arguments, kept in the order they were given.
pub proof fn law_plain_arguments_are_free(args: Seq<Arg>, inputs: Seq<Seq<u8>>)
    requires
        forall|j: int| 0 <= j < inputs.len() ==> !is_long(#[trigger] inputs[j]) && !is_short(inputs[j]),
    ensures
        spec_parse(args, inputs) == Ok::<(FlagsView, Seq<Seq<u8>>), ParseFailure>((Seq::empty(), inputs)),
{
    lemma_plain_rest(args, inputs, 0, Seq::empty());
    assert(Seq::<Seq<u8>>::empty() + inputs.subrange(0, inputs.len() as int) =~= inputs);
}

/// When redundant flags are allowed, the last value given to an option is
/// the one that counts.
pub proof fn law_last_value_wins(m: FlagsModel, arg: Arg, value: Seq<u8>)
    requires
        !m.spec_is_strict(),
    ensures
        (FlagsModel { flags: m.flags.push((Flag::Long(arg.long), Some(value))), ..m }).spec_get(arg)
            == Ok::<Option<Seq<u8>>, MisfireView>(Some(value)),
{
    let fl = m.flags.push((Flag::Long(arg.long), Some(value)));
    assert(Flag::Long(arg.long).spec_matches(arg));
    assert(matches_any(Flag::Long(arg.long), seq![arg])) by {
        assert(seq![arg][0] == arg);
    }
    assert(fl[fl.len() - 1] == (Flag::Long(arg.long), Some(value)));
}

/// When redundant flags are allowed, an option counts as given if its flag
/// appears last, whatever came before.
pub proof fn law_last_flag_counts(m: FlagsModel, arg: Arg)
    requires
        !m.spec_is_strict(),
    ensures
        (FlagsModel { flags: m.flags.push((Flag::Long(arg.long), None)), ..m }).spec_has(arg)
            == Ok::<bool, MisfireView>(true),
{
    let fl = m.flags.push((Flag::Long(arg.long), None));
    assert(Flag::Long(arg.long).spec_matches(arg));
    assert(matches_any(Flag::Long(arg.long), seq![arg])) by {
        assert(seq![arg][0] == arg);
    }
    assert(fl[fl.len() - 1] == (Flag::Long(arg.long), None::<Seq<u8>>));
}

/// When redundant flags are complained about, an option given twice is
/// refused, naming both flags.
pub proof fn law_strict_refuses_repeats(arg: Arg)
    ensures
        (FlagsModel {
            flags: seq![(Flag::Long(arg.long), None), (Flag::Long(arg.long), None)],
            strictness: Strictness::ComplainAboutRedundantArguments,
        }).spec_has(arg) == Err::<bool, MisfireView>(
            MisfireView::Duplicate(Flag::Long(arg.long), Flag::Long(arg.long)),
        ),
{
    let fl: FlagsView = seq![(Flag::Long(arg.long), None), (Flag::Long(arg.long), None)];
    assert(Flag::Long(arg.long).spec_matches(arg));
    assert(matches_any(Flag::Long(arg.long), seq![arg])) by {
        assert(seq![arg][0] == arg);
    }
    reveal_with_fuel(plain_hits, 3);
    assert(plain_hits(fl, seq![arg], 0) =~= Seq::<Flag>::empty());
    assert(plain_hits(fl, seq![arg], 1) =~= seq![Flag::Long(arg.long)]);
    assert(plain_hits(fl, seq![arg], 2) =~= seq![Flag::Long(arg.long), Flag::Long(arg.long)]);
}

/// Each flag that names an option adds one to its count, whether or not it
/// has a value; other flags add nothing.
pub proof fn law_count_adds_up(m: FlagsModel, arg: Arg, f: (Flag, Option<Seq<u8>>))
    ensures
        (FlagsModel { flags: m.flags.push(f), ..m }).spec_count(arg) == m.spec_count(arg) + if f.0.spec_matches(arg) {
            1nat
        } else {
            0nat
        },
{
    let fl = m.flags.push(f);
    let n = m.flags.len() as int;
    lemma_count_prefix(fl, m.flags, arg, n);
    assert(fl[n] == f);
    assert(fl.len() == n + 1);
    assert(count_hits(fl, arg, n + 1) == count_hits(fl, arg, n) + if f.0.spec_matches(arg) {
        1nat
    } else {
        0nat
    });
}

proof fn lemma_count_prefix(a: FlagsView, b: FlagsView, arg: Arg, n: int)
    requires
        0 <= n <= b.len(),
        n <= a.len(),
        forall|k: int| 0 <= k < n ==> a[k] == b[k],
    ensures
        count_hits(a, arg, n) == count_hits(b, arg, n),
    decreases n,
{
    if n > 0 {
        lemma_count_prefix(a, b, arg, n - 1);
    }
}


/// A change of result that moves every returned index back by `d`.
pub open spec fn shifted(r: Result<(int, FlagsView), ParseFailure>, d: int) -> Result<(int, FlagsView), ParseFailure> {
    match r {
        Ok((j, fl)) => Ok((j - d, fl)),
        Err(e) => Err(e),
    }
}

proof fn lemma_short_run_shift(args: Seq<Arg>, inputs: Seq<Seq<u8>>, d: int, i: int, k: int, flags: FlagsView)
    requires
        0 <= d <= i < inputs.len(),
    ensures
        short_run(args, inputs.subrange(d, inputs.len() as int), i - d, k, flags) == shifted(
            short_run(args, inputs, i, k, flags),
            d,
        ),
    decreases inputs[i].len() - k,
{
    let s = inputs.subrange(d, inputs.len() as int);
    assert(s[i - d] == inputs[i]);
    if i + 1 < inputs.len() {
        assert(s[i - d + 1] == inputs[i + 1]);
    }
    if 0 <= k < inputs[i].len() {
        lemma_short_run_shift(args, inputs, d, i, k + 1, flags.push((Flag::Short(inputs[i][k]), None)));
    }
}

proof fn lemma_step_shift(args: Seq<Arg>, inputs: Seq<Seq<u8>>, d: int, i: int, flags: FlagsView)
    requires
        0 <= d <= i < inputs.len(),
    ensures
        long_step(args, inputs.subrange(d, inputs.len() as int), i - d, flags) == shifted(
            long_step(args, inputs, i, flags),
            d,
        ),
        short_step(args, inputs.subrange(d, inputs.len() as int), i - d, flags) == shifted(
            short_step(args, inputs, i, flags),
            d,
        ),
{
    let s = inputs.subrange(d, inputs.len() as int);
    assert(s[i - d] == inputs[i]);
    if i + 1 < inputs.len() {
        assert(s[i - d + 1] == inputs[i + 1]);
    }
    lemma_short_run_shift(args, inputs, d, i, 1, flags);
}

/// Parsing the rest of a command line depends only on the rest.
proof fn lemma_rest_shift(
    args: Seq<Arg>,
    inputs: Seq<Seq<u8>>,
    d: int,
    i: int,
    parsing: bool,
    flags: FlagsView,
    frees: Seq<Seq<u8>>,
)
    requires
        0 <= d <= i <= inputs.len(),
    ensures
        parse_rest(args, inputs.subrange(d, inputs.len() as int), i - d, parsing, flags, frees) == parse_rest(
            args,
            inputs,
            i,
            parsing,
            flags,
            frees,
        ),
    decreases inputs.len() - i,
{
    let s = inputs.subrange(d, inputs.len() as int);
    if i < inputs.len() {
        let a = inputs[i];
        assert(s[i - d] == a);
        if !parsing {
            lemma_rest_shift(args, inputs, d, i + 1, false, flags, frees.push(a));
        } else if a == double_dash() {
            lemma_rest_shift(args, inputs, d, i + 1, false, flags, frees);
        } else if is_long(a) || is_short(a) {
            lemma_step_shift(args, inputs, d, i, flags);
            let step = if is_long(a) { long_step(args, inputs, i, flags) } else { short_step(args, inputs, i, flags) };
            match step {
                Err(e) => {},
                Ok((j, fl)) => {
                    if i < j && j <= inputs.len() {
                        lemma_rest_shift(args, inputs, d, j, true, fl, frees);
                    }
                },
            }
        } else {
            lemma_rest_shift(args, inputs, d, i + 1, true, flags, frees.push(a));
        }
    }
}

/// Parsing from a long option with its value after an `=` is parsing
/// from the option followed by its value, whatever was found before.
proof fn lemma_long_forms_first(
    args: Seq<Arg>,
    name: Seq<u8>,
    value: Seq<u8>,
    rest: Seq<Seq<u8>>,
    flags: FlagsView,
    frees: Seq<Seq<u8>>,
)
    requires
        name.len() > 0,
        value.len() > 0,
        forall|k: int| 0 <= k < name.len() ==> name[k] != EQUALS,
        match find_long(args, name, 0) {
            Some(k) => args[k].takes_value == TakesValue::Necessary,
            None => true,
        },
    ensures
        parse_rest(args, seq![seq![DASH, DASH] + name + seq![EQUALS] + value] + rest, 0, true, flags, frees)
            == parse_rest(args, seq![seq![DASH, DASH] + name, value] + rest, 0, true, flags, frees),
{
    let a = seq![DASH, DASH] + name + seq![EQUALS] + value;
    let b = seq![DASH, DASH] + name;
    let in1 = seq![a] + rest;
    let in2 = seq![b, value] + rest;
    assert(in1[0] == a);
    assert(in2[0] == b && in2[1] == value);
    assert(a != double_dash()) by {
        assert(a.len() != 2);
    }
    assert(b != double_dash()) by {
        assert(b.len() != 2);
    }
    assert(is_long(a) && is_long(b));
    let na = a.subrange(2, a.len() as int);
    assert(na =~= name + seq![EQUALS] + value);
    assert forall|k: int| 0 <= k <= name.len() implies equals_index(na, k) == Some(name.len() as int) by {
        lemma_equals_at(na, name.len() as int, k);
    }
    assert(na.subrange(0, name.len() as int) =~= name);
    assert(na.subrange(name.len() as int + 1, na.len() as int) =~= value);
    let nb = b.subrange(2, b.len() as int);
    assert(nb =~= name);
    assert(equals_index(nb, 0) is None) by {
        lemma_no_equals(nb, 0);
    }
    assert(in1.subrange(1, in1.len() as int) =~= rest);
    assert(in2.subrange(2, in2.len() as int) =~= rest);
    match find_long(args, name, 0) {
        Some(k) => {
            let fl = flags.push((Flag::Long(args[k].long), Some(value)));
            lemma_rest_shift(args, in1, 1, 1, true, fl, frees);
            lemma_rest_shift(args, in2, 2, 2, true, fl, frees);
        },
        None => {},
    }
}

proof fn lemma_equals_at(s: Seq<u8>, at: int, k: int)
    requires
        0 <= k <= at < s.len(),
        s[at] == EQUALS,
        forall|j: int| 0 <= j < at ==> s[j] != EQUALS,
    ensures
        equals_index(s, k) == Some(at),
    decreases at - k,
{
    if k < at {
        lemma_equals_at(s, at, k + 1);
    }
}

proof fn lemma_no_equals(s: Seq<u8>, k: int)
    requires
        0 <= k,
        forall|j: int| 0 <= j < s.len() ==> s[j] != EQUALS,
    ensures
        equals_index(s, k) is None,
    decreases s.len() - k,
{
    if k < s.len() {
        lemma_no_equals(s, k + 1);
    }
}


/// Parsing from a short option with its value joined to it, or after an
/// `=`, is parsing from the option followed by its value, whatever was
/// found before.
proof fn lemma_short_forms_first(
    args: Seq<Arg>,
    c: u8,
    value: Seq<u8>,
    rest: Seq<Seq<u8>>,
    flags: FlagsView,
    frees: Seq<Seq<u8>>,
)
    requires
        c != EQUALS,
        c != DASH,
        value.len() > 0,
        forall|k: int| 0 <= k < value.len() ==> value[k] != EQUALS,
        match find_short(args, c, 0) {
            Some(x) => args[x].takes_value == TakesValue::Necessary,
            None => true,
        },
    ensures
        parse_rest(args, seq![seq![DASH, c] + value] + rest, 0, true, flags, frees)
            == parse_rest(args, seq![seq![DASH, c], value] + rest, 0, true, flags, frees),
        parse_rest(args, seq![seq![DASH, c, EQUALS] + value] + rest, 0, true, flags, frees)
            == parse_rest(args, seq![seq![DASH, c], value] + rest, 0, true, flags, frees),
{
    let a = seq![DASH, c] + value;
    let b = seq![DASH, c];
    let e = seq![DASH, c, EQUALS] + value;
    let in1 = seq![a] + rest;
    let in2 = seq![b, value] + rest;
    let in3 = seq![e] + rest;
    assert(in1[0] == a && in3[0] == e);
    assert(in2[0] == b && in2[1] == value);
    assert(a != double_dash() && b != double_dash() && e != double_dash()) by {
        assert(a.len() != 2 && e.len() != 2);
        assert(b[1] == c);
    }
    assert(!is_long(a) && !is_long(b) && !is_long(e));
    let ra = a.subrange(1, a.len() as int);
    assert(ra =~= seq![c] + value);
    assert(equals_index(ra, 0) is None) by {
        lemma_no_equals(ra, 0);
    }
    let rb = b.subrange(1, b.len() as int);
    assert(rb =~= seq![c]);
    assert(equals_index(rb, 0) is None) by {
        lemma_no_equals(rb, 0);
    }
    let re = e.subrange(1, e.len() as int);
    assert(re =~= seq![c, EQUALS] + value);
    assert(equals_index(re, 0) == Some(1int)) by {
        lemma_equals_at(re, 1, 0);
    }
    assert(re.subrange(0, 1) =~= seq![c]);
    assert(re.subrange(2, re.len() as int) =~= value);
    assert(seq![c].subrange(0, 0) =~= Seq::<u8>::empty());
    assert(a[1] == c && b[1] == c);
    assert(a.subrange(2, a.len() as int) =~= value);
    assert(in1.subrange(1, in1.len() as int) =~= rest);
    assert(in2.subrange(2, in2.len() as int) =~= rest);
    assert(in3.subrange(1, in3.len() as int) =~= rest);
    match find_short(args, c, 0) {
        Some(x) => {
            let fl = flags.push((Flag::Short(c), Some(value)));
            lemma_rest_shift(args, in1, 1, 1, true, fl, frees);
            lemma_rest_shift(args, in2, 2, 2, true, fl, frees);
            lemma_rest_shift(args, in3, 1, 1, true, fl, frees);
        },
        None => {},
    }
}

/// Whether a command line holds no `--`.
pub open spec fn no_double_dash(xs: Seq<Seq<u8>>) -> bool {
    forall|j: int| 0 <= j < xs.len() ==> xs[j] != double_dash()
}

proof fn lemma_short_run_extend(args: Seq<Arg>, xs: Seq<Seq<u8>>, zs: Seq<Seq<u8>>, i: int, k: int, flags: FlagsView)
    requires
        0 <= i < xs.len(),
        short_run(args, xs, i, k, flags) is Ok,
    ensures
        short_run(args, xs + zs, i, k, flags) == short_run(args, xs, i, k, flags),
    decreases xs[i].len() - k,
{
    let ys = xs + zs;
    assert(ys[i] == xs[i]);
    if i + 1 < xs.len() {
        assert(ys[i + 1] == xs[i + 1]);
    }
    if 0 <= k < xs[i].len() {
        let c = xs[i][k];
        match find_short(args, c, 0) {
            Some(x) => if args[x].takes_value == TakesValue::Forbidden {
                lemma_short_run_extend(args, xs, zs, i, k + 1, flags.push((Flag::Short(c), None)));
            },
            None => {},
        }
    }
}

/// A step that succeeds on a command line does the same with more after it.
proof fn lemma_step_extend(args: Seq<Arg>, xs: Seq<Seq<u8>>, zs: Seq<Seq<u8>>, i: int, flags: FlagsView)
    requires
        0 <= i < xs.len(),
    ensures
        long_step(args, xs, i, flags) is Ok ==> long_step(args, xs + zs, i, flags) == long_step(args, xs, i, flags),
        short_step(args, xs, i, flags) is Ok ==> short_step(args, xs + zs, i, flags) == short_step(args, xs, i, flags),
{
    let ys = xs + zs;
    assert(ys[i] == xs[i]);
    if i + 1 < xs.len() {
        assert(ys[i + 1] == xs[i + 1]);
    }
    if short_run(args, xs, i, 1, flags) is Ok {
        lemma_short_run_extend(args, xs, zs, i, 1, flags);
    }
}

/// A command line whose parse succeeds, with no `--` in it, leaves the
/// parse of a longer one in the state it ends in.
proof fn lemma_rest_extend(
    args: Seq<Arg>,
    xs: Seq<Seq<u8>>,
    zs: Seq<Seq<u8>>,
    i: int,
    flags: FlagsView,
    frees: Seq<Seq<u8>>,
)
    requires
        0 <= i <= xs.len(),
        no_double_dash(xs),
        parse_rest(args, xs, i, true, flags, frees) is Ok,
    ensures
        ({
            let (fl, fr) = parse_rest(args, xs, i, true, flags, frees)->Ok_0;
            parse_rest(args, xs + zs, i, true, flags, frees) == parse_rest(args, xs + zs, xs.len() as int, true, fl, fr)
        }),
    decreases xs.len() - i,
{
    let ys = xs + zs;
    if i < xs.len() {
        let a = xs[i];
        assert(ys[i] == a);
        assert(a != double_dash());
        if is_long(a) || is_short(a) {
            lemma_step_moves_on(args, xs, i, flags);
            lemma_step_extend(args, xs, zs, i, flags);
            let step = if is_long(a) { long_step(args, xs, i, flags) } else { short_step(args, xs, i, flags) };
            match step {
                Ok((j, fl)) => {
                    lemma_rest_extend(args, xs, zs, j, fl, frees);
                },
                Err(e) => {},
            }
        } else {
            lemma_rest_extend(args, xs, zs, i + 1, flags, frees.push(a));
        }
    }
}

/// `--` ends the flags wherever it stands: after a command line that parses
/// and holds no `--`, the `--` is dropped and everything after it is a free
/// argument, whatever it looks like, in order.
pub proof fn law_double_dash_ends_flags(args: Seq<Arg>, xs: Seq<Seq<u8>>, ys: Seq<Seq<u8>>)
    requires
        no_double_dash(xs),
        spec_parse(args, xs) is Ok,
    ensures
        ({
            let (flags, frees) = spec_parse(args, xs)->Ok_0;
            spec_parse(args, xs + seq![double_dash()] + ys) == Ok::<(FlagsView, Seq<Seq<u8>>), ParseFailure>(
                (flags, frees + ys),
            )
        }),
{
    let zs = seq![double_dash()] + ys;
    let (flags, frees) = spec_parse(args, xs)->Ok_0;
    lemma_rest_extend(args, xs, zs, 0, Seq::empty(), Seq::empty());
    let inputs = xs + zs;
    assert(xs + seq![double_dash()] + ys =~= inputs);
    let n = xs.len() as int;
    assert(inputs[n] == double_dash());
    lemma_rest_is_free(args, inputs, n + 1, flags, frees);
    assert(inputs.subrange(n + 1, inputs.len() as int) =~= ys);
}

/// A long option's value can be given after an `=` or as the next
/// argument, after any command line that parses and holds no `--`:
/// `--sort=size` and `--sort size` mean the same, whatever comes before and
/// after them. (The name must hold no `=` and the value must not be empty,
/// or the `=` form reads differently; the option must take a value, or be
/// unknown, or the `=` form is refused.)
pub proof fn law_long_value_forms_agree(
    args: Seq<Arg>,
    xs: Seq<Seq<u8>>,
    name: Seq<u8>,
    value: Seq<u8>,
    rest: Seq<Seq<u8>>,
)
    requires
        no_double_dash(xs),
        spec_parse(args, xs) is Ok,
        name.len() > 0,
        value.len() > 0,
        forall|k: int| 0 <= k < name.len() ==> name[k] != EQUALS,
        match find_long(args, name, 0) {
            Some(k) => args[k].takes_value == TakesValue::Necessary,
            None => true,
        },
    ensures
        spec_parse(args, xs + seq![seq![DASH, DASH] + name + seq![EQUALS] + value] + rest) == spec_parse(
            args,
            xs + seq![seq![DASH, DASH] + name, value] + rest,
        ),
{
    let z1 = seq![seq![DASH, DASH] + name + seq![EQUALS] + value] + rest;
    let z2 = seq![seq![DASH, DASH] + name, value] + rest;
    let (flags, frees) = spec_parse(args, xs)->Ok_0;
    let n = xs.len() as int;
    lemma_rest_extend(args, xs, z1, 0, Seq::empty(), Seq::empty());
    lemma_rest_extend(args, xs, z2, 0, Seq::empty(), Seq::empty());
    lemma_rest_shift(args, xs + z1, n, n, true, flags, frees);
    lemma_rest_shift(args, xs + z2, n, n, true, flags, frees);
    assert((xs + z1).subrange(n, (xs + z1).len() as int) =~= z1);
    assert((xs + z2).subrange(n, (xs + z2).len() as int) =~= z2);
    assert(xs + seq![seq![DASH, DASH] + name + seq![EQUALS] + value] + rest =~= xs + z1);
    assert(xs + seq![seq![DASH, DASH] + name, value] + rest =~= xs + z2);
    lemma_long_forms_first(args, name, value, rest, flags, frees);
}

/// A short option's value can follow its letter straight away, after an
/// `=`, or as the next argument, after any command line that parses and
/// holds no `--`: `-ssize`, `-s=size` and `-s size` mean the same, whatever
/// comes before and after them. (The letter must not be `-` or `=`, the
/// value must hold no `=` and must not be empty; the option must take a
/// value, or be unknown.)
pub proof fn law_short_value_forms_agree(args: Seq<Arg>, xs: Seq<Seq<u8>>, c: u8, value: Seq<u8>, rest: Seq<Seq<u8>>)
    requires
        no_double_dash(xs),
        spec_parse(args, xs) is Ok,
        c != EQUALS,
        c != DASH,
        value.len() > 0,
        forall|k: int| 0 <= k < value.len() ==> value[k] != EQUALS,
        match find_short(args, c, 0) {
            Some(x) => args[x].takes_value == TakesValue::Necessary,
            None => true,
        },
    ensures
        spec_parse(args, xs + seq![seq![DASH, c] + value] + rest) == spec_parse(args, xs + seq![seq![DASH, c], value] + rest),
        spec_parse(args, xs + seq![seq![DASH, c, EQUALS] + value] + rest) == spec_parse(args, xs + seq![seq![DASH, c], value] + rest),
{
    let z1 = seq![seq![DASH, c] + value] + rest;
    let z2 = seq![seq![DASH, c], value] + rest;
    let z3 = seq![seq![DASH, c, EQUALS] + value] + rest;
    let (flags, frees) = spec_parse(args, xs)->Ok_0;
    let n = xs.len() as int;
    lemma_rest_extend(args, xs, z1, 0, Seq::empty(), Seq::empty());
    lemma_rest_extend(args, xs, z2, 0, Seq::empty(), Seq::empty());
    lemma_rest_extend(args, xs, z3, 0, Seq::empty(), Seq::empty());
    lemma_rest_shift(args, xs + z1, n, n, true, flags, frees);
    lemma_rest_shift(args, xs + z2, n, n, true, flags, frees);
    lemma_rest_shift(args, xs + z3, n, n, true, flags, frees);
    assert((xs + z1).subrange(n, (xs + z1).len() as int) =~= z1);
    assert((xs + z2).subrange(n, (xs + z2).len() as int) =~= z2);
    assert((xs + z3).subrange(n, (xs + z3).len() as int) =~= z3);
    assert(xs + seq![seq![DASH, c] + value] + rest =~= xs + z1);
    assert(xs + seq![seq![DASH, c], value] + rest =~= xs + z2);
    assert(xs + seq![seq![DASH, c, EQUALS] + value] + rest =~= xs + z3);
    lemma_short_forms_first(args, c, value, rest, flags, frees);
}

} // verus!
