use exa::options::error::{HelpString, Misfire, NumberError, NumberSource, VersionString};
use exa::options::flags;
use exa::options::message::Choices;
use exa::options::parser::{Flag, ParseError};

fn msg(m: Misfire) -> String {
    m.message().unwrap()
}

#[test]
fn option_names() {
    assert_eq!(flags::long().text(), "--long (-l)");
    assert_eq!(flags::dirs_first().text(), "--group-directories-first");
    assert_eq!(Flag::Short(b'l').text(), "-l");
    assert_eq!(Flag::Long("long").text(), "--long");
}

#[test]
fn duplicates() {
    assert_eq!(msg(Misfire::Duplicate(Flag::Long("sort"), Flag::Long("sort"))), "Flag --sort was given twice");
    assert_eq!(msg(Misfire::Duplicate(Flag::Short(b's'), Flag::Long("sort"))), "Flag -s conflicts with flag --sort");
}

#[test]
fn conflicts_and_useless_options() {
    assert_eq!(
        msg(Misfire::Conflict(flags::all(), flags::all())),
        "Option --all (-a) conflicts with option --all (-a)"
    );
    assert_eq!(
        msg(Misfire::Useless(flags::across(), true, flags::long())),
        "Option --across (-x) is useless given option --long (-l)"
    );
    assert_eq!(
        msg(Misfire::Useless(flags::binary(), false, flags::long())),
        "Option --binary (-b) is useless without option --long (-l)"
    );
    assert_eq!(
        msg(Misfire::Useless2(flags::level(), flags::recurse(), flags::tree())),
        "Option --level (-L) is useless without options --recurse (-R) or --tree (-T)"
    );
    assert_eq!(msg(Misfire::TreeAllAll), "Option --tree is useless given --all --all");
}

#[test]
fn bad_arguments_are_quoted() {
    assert_eq!(
        msg(Misfire::BadArgument(flags::sort(), b"colour".to_vec())),
        "Option --sort (-s) has no \"colour\" setting"
    );
    assert_eq!(
        msg(Misfire::BadArgument(flags::sort(), b"it's".to_vec())),
        "Option --sort (-s) has no \"it\\'s\" setting"
    );
    assert_eq!(
        msg(Misfire::BadArgument(flags::sort(), vec![b'a', 0xff, b'\n'])),
        "Option --sort (-s) has no \"a\\xFF\\n\" setting"
    );
}

#[test]
fn failed_numbers() {
    assert_eq!(
        msg(Misfire::FailedParse("abc".to_string(), NumberSource::Env("COLUMNS"), NumberError::InvalidDigit)),
        "Value \"abc\" not valid for environment variable COLUMNS: invalid digit found in string"
    );
    assert_eq!(
        msg(Misfire::FailedParse("".to_string(), NumberSource::Arg(flags::level()), NumberError::Empty)),
        "Value \"\" not valid for option --level (-L): cannot parse integer from empty string"
    );
    assert_eq!(NumberError::Overflow.text(), "number too large to fit in target type");
}

#[test]
fn parse_errors() {
    assert_eq!(ParseError::NeedsValue { flag: Flag::Short(b't') }.message(), "Flag -t needs a value");
    assert_eq!(ParseError::ForbiddenValue { flag: Flag::Long("all") }.message(), "Flag --all cannot take a value");
    assert_eq!(ParseError::UnknownShortArgument { attempt: b'q' }.message(), "Unknown argument -q");
    assert_eq!(ParseError::UnknownArgument { attempt: b"foo".to_vec() }.message(), "Unknown argument --foo");
    assert_eq!(
        msg(Misfire::InvalidOptions(ParseError::UnknownArgument { attempt: b"foo".to_vec() })),
        "Unknown argument --foo"
    );
}

#[test]
fn help_and_version() {
    let help = msg(Misfire::Help(HelpString));
    assert!(help.starts_with("Usage:\n  exa [options] [files...]\n"));
    assert!(help.contains("\n  --git-ignore "));
    assert!(help.contains("\n  Valid sort fields:"));
    assert!(help.ends_with("sizes\n"));
    assert_eq!(Misfire::Version(VersionString).message(), None);
}

#[test]
fn choices() {
    assert_eq!(Choices(vec!["always", "auto", "never"]).text(), "choices: always, auto, never");
    assert_eq!(Choices(vec![]).text(), "choices: ");
}
