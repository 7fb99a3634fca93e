use exa::options::parser::{parse, split_on_equals, Arg, Args, Flag, MatchedFlags, Matches, ParseError, Strictness, TakesValue};
use exa::options::error::Misfire;

fn os(s: &str) -> Vec<u8> {
    s.as_bytes().to_vec()
}

fn test_args() -> Args {
    Args(vec![
        Arg { short: Some(b'l'), long: "long", takes_value: TakesValue::Forbidden },
        Arg { short: Some(b'v'), long: "verbose", takes_value: TakesValue::Forbidden },
        Arg { short: Some(b'c'), long: "count", takes_value: TakesValue::Necessary },
    ])
}

fn run(inputs: &[&str]) -> Result<Matches, ParseError> {
    let bits: Vec<Vec<u8>> = inputs.iter().map(|s| os(s)).collect();
    parse(&test_args(), &bits)
}

fn ok(frees: &[&str], flags: Vec<(Flag, Option<&str>)>) -> Result<Matches, ParseError> {
    Ok(Matches {
        frees: frees.iter().map(|s| os(s)).collect(),
        flags: flags.into_iter().map(|(f, v)| (f, v.map(os))).collect(),
    })
}

#[test] fn split_empty() { assert_eq!(split_on_equals(b""), None); }
#[test] fn split_letter() { assert_eq!(split_on_equals(b"a"), None); }
#[test] fn split_just() { assert_eq!(split_on_equals(b"="), None); }
#[test] fn split_intro() { assert_eq!(split_on_equals(b"=bbb"), None); }
#[test] fn split_denou() { assert_eq!(split_on_equals(b"aaa="), None); }
#[test] fn split_equals() { assert_eq!(split_on_equals(b"aaa=bbb"), Some((os("aaa"), os("bbb")))); }
#[test] fn split_sort() { assert_eq!(split_on_equals(b"--sort=size"), Some((os("--sort"), os("size")))); }
#[test] fn split_more() { assert_eq!(split_on_equals(b"this=that=other"), Some((os("this"), os("that=other")))); }

#[test] fn parse_empty() { assert_eq!(run(&[]), ok(&[], vec![])); }
#[test] fn parse_one_arg() { assert_eq!(run(&["exa"]), ok(&["exa"], vec![])); }
#[test] fn parse_one_dash() { assert_eq!(run(&["-"]), ok(&["-"], vec![])); }
#[test] fn parse_two_dashes() { assert_eq!(run(&["--"]), ok(&[], vec![])); }
#[test] fn parse_two_file() { assert_eq!(run(&["--", "file"]), ok(&["file"], vec![])); }
#[test] fn parse_two_arg_l() { assert_eq!(run(&["--", "--long"]), ok(&["--long"], vec![])); }
#[test] fn parse_two_arg_s() { assert_eq!(run(&["--", "-l"]), ok(&["-l"], vec![])); }
#[test] fn parse_long() { assert_eq!(run(&["--long"]), ok(&[], vec![(Flag::Long("long"), None)])); }
#[test] fn parse_long_then() { assert_eq!(run(&["--long", "4"]), ok(&["4"], vec![(Flag::Long("long"), None)])); }
#[test] fn parse_long_two() { assert_eq!(run(&["--long", "--verbose"]), ok(&[], vec![(Flag::Long("long"), None), (Flag::Long("verbose"), None)])); }
#[test] fn parse_bad_equals() { assert_eq!(run(&["--long=equals"]), Err(ParseError::ForbiddenValue { flag: Flag::Long("long") })); }
#[test] fn parse_no_arg() { assert_eq!(run(&["--count"]), Err(ParseError::NeedsValue { flag: Flag::Long("count") })); }
#[test] fn parse_arg_equals() { assert_eq!(run(&["--count=4"]), ok(&[], vec![(Flag::Long("count"), Some("4"))])); }
#[test] fn parse_arg_then() { assert_eq!(run(&["--count", "4"]), ok(&[], vec![(Flag::Long("count"), Some("4"))])); }
#[test] fn parse_short() { assert_eq!(run(&["-l"]), ok(&[], vec![(Flag::Short(b'l'), None)])); }
#[test] fn parse_short_then() { assert_eq!(run(&["-l", "4"]), ok(&["4"], vec![(Flag::Short(b'l'), None)])); }
#[test] fn parse_short_two() { assert_eq!(run(&["-lv"]), ok(&[], vec![(Flag::Short(b'l'), None), (Flag::Short(b'v'), None)])); }
#[test] fn parse_mixed() { assert_eq!(run(&["-v", "--long"]), ok(&[], vec![(Flag::Short(b'v'), None), (Flag::Long("long"), None)])); }
#[test] fn parse_bad_short() { assert_eq!(run(&["-l=equals"]), Err(ParseError::ForbiddenValue { flag: Flag::Short(b'l') })); }
#[test] fn parse_short_none() { assert_eq!(run(&["-c"]), Err(ParseError::NeedsValue { flag: Flag::Short(b'c') })); }
#[test] fn parse_short_arg_eq() { assert_eq!(run(&["-c=4"]), ok(&[], vec![(Flag::Short(b'c'), Some("4"))])); }
#[test] fn parse_short_arg_then() { assert_eq!(run(&["-c", "4"]), ok(&[], vec![(Flag::Short(b'c'), Some("4"))])); }
#[test] fn parse_short_two_together() { assert_eq!(run(&["-lctwo"]), ok(&[], vec![(Flag::Short(b'l'), None), (Flag::Short(b'c'), Some("two"))])); }
#[test] fn parse_short_two_equals() { assert_eq!(run(&["-lc=two"]), ok(&[], vec![(Flag::Short(b'l'), None), (Flag::Short(b'c'), Some("two"))])); }
#[test] fn parse_short_two_next() { assert_eq!(run(&["-lc", "two"]), ok(&[], vec![(Flag::Short(b'l'), None), (Flag::Short(b'c'), Some("two"))])); }
#[test] fn parse_unknown_long() { assert_eq!(run(&["--quiet"]), Err(ParseError::UnknownArgument { attempt: os("quiet") })); }
#[test] fn parse_unknown_long_eq() { assert_eq!(run(&["--quiet=shhh"]), Err(ParseError::UnknownArgument { attempt: os("quiet") })); }
#[test] fn parse_unknown_short() { assert_eq!(run(&["-q"]), Err(ParseError::UnknownShortArgument { attempt: b'q' })); }
#[test] fn parse_unknown_short_2nd() { assert_eq!(run(&["-lq"]), Err(ParseError::UnknownShortArgument { attempt: b'q' })); }
#[test] fn parse_unknown_short_eq() { assert_eq!(run(&["-q=shhh"]), Err(ParseError::UnknownShortArgument { attempt: b'q' })); }
#[test] fn parse_unknown_short_2nd_eq() { assert_eq!(run(&["-lq=shhh"]), Err(ParseError::UnknownShortArgument { attempt: b'q' })); }

fn verbose() -> Arg { Arg { short: Some(b'v'), long: "verbose", takes_value: TakesValue::Forbidden } }
fn count() -> Arg { Arg { short: Some(b'c'), long: "count", takes_value: TakesValue::Necessary } }

fn matched(flags: Vec<(Flag, Option<Vec<u8>>)>) -> MatchedFlags {
    MatchedFlags { flags, strictness: Strictness::UseLastArguments }
}

#[test] fn short_never() { assert_eq!(matched(vec![]).has(&verbose()), Ok(false)); }
#[test] fn short_once() { assert_eq!(matched(vec![(Flag::Short(b'v'), None)]).has(&verbose()), Ok(true)); }
#[test] fn short_twice() { assert_eq!(matched(vec![(Flag::Short(b'v'), None), (Flag::Short(b'v'), None)]).has(&verbose()), Ok(true)); }
#[test] fn long_once() { assert_eq!(matched(vec![(Flag::Long("verbose"), None)]).has(&verbose()), Ok(true)); }
#[test] fn long_twice() { assert_eq!(matched(vec![(Flag::Long("verbose"), None), (Flag::Long("verbose"), None)]).has(&verbose()), Ok(true)); }
#[test] fn long_mixed() { assert_eq!(matched(vec![(Flag::Long("verbose"), None), (Flag::Short(b'v'), None)]).has(&verbose()), Ok(true)); }

#[test]
fn only_count() {
    let everything = os("everything");
    let flags = vec![(Flag::Short(b'c'), Some(everything.clone()))];
    assert_eq!(matched(flags).get(&count()), Ok(Some(everything)));
}

#[test]
fn rightmost_count() {
    let everything = os("everything");
    let nothing = os("nothing");
    let flags = vec![(Flag::Short(b'c'), Some(everything)), (Flag::Short(b'c'), Some(nothing.clone()))];
    assert_eq!(matched(flags).get(&count()), Ok(Some(nothing)));
}

#[test]
fn no_count() {
    let flags = Vec::new();
    assert!(!matched(flags).has(&count()).unwrap());
}

#[test]
fn strict_twice_is_duplicate() {
    let m = MatchedFlags { flags: vec![(Flag::Short(b'v'), None), (Flag::Long("verbose"), None)], strictness: Strictness::ComplainAboutRedundantArguments };
    assert_eq!(m.has(&verbose()), Err(Misfire::Duplicate(Flag::Short(b'v'), Flag::Long("verbose"))));
}

#[test]
fn strict_values_first_two_duplicate() {
    let m = MatchedFlags {
        flags: vec![(Flag::Short(b'c'), Some(os("1"))), (Flag::Short(b'c'), Some(os("2"))), (Flag::Long("count"), Some(os("3")))],
        strictness: Strictness::ComplainAboutRedundantArguments,
    };
    assert_eq!(m.get(&count()), Err(Misfire::Duplicate(Flag::Short(b'c'), Flag::Short(b'c'))));
    assert_eq!(m.count(&count()), 3);
}

#[test]
fn long_value_forms_agree() {
    assert_eq!(run(&["--count=5", "x"]), run(&["--count", "5", "x"]));
    assert_eq!(run(&["--count=5", "x"]), ok(&["x"], vec![(Flag::Long("count"), Some("5"))]));
    assert_eq!(run(&["--nope=5"]), run(&["--nope", "5"]));
}

#[test]
fn short_value_forms_agree() {
    let expected = ok(&["x"], vec![(Flag::Short(b'c'), Some("5"))]);
    assert_eq!(run(&["-c5", "x"]), expected);
    assert_eq!(run(&["-c=5", "x"]), expected);
    assert_eq!(run(&["-c", "5", "x"]), expected);
}

#[test]
fn double_dash_makes_the_rest_free() {
    assert_eq!(run(&["--", "-l", "--count"]), ok(&["-l", "--count"], vec![]));
    assert_eq!(run(&["a", "-", "b"]), ok(&["a", "-", "b"], vec![]));
}
