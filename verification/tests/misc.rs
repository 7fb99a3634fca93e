use exa::fs::dir::{DotFilter, DotsNext};
use exa::fs::dir_action::{DirAction, RecurseOptions};
use exa::options::error::{Misfire, NumberError, NumberSource};
use exa::options::flags;
use exa::options::number::parse_usize;
use exa::options::parser::{parse, MatchedFlags, Strictness};
use exa::options::style::TerminalColours;
use exa::options::vars::Vars;
use exa::output::grid_details::RowThreshold;
use exa::output::TerminalWidth;
use exa::sort::SortPart;
use exa::xattr::{attribute_names, combine_flags, follow_flag, list_attrs, Attribute, FollowSymlinks, ListError, ListFlags, Lister};

fn vars(columns: Option<&[u8]>, rows: Option<&[u8]>) -> Vars {
    Vars {
        columns: columns.map(|c| c.to_vec()),
        time_style: None,
        exa_strict: None,
        exa_grid_rows: rows.map(|r| r.to_vec()),
    }
}

#[test]
fn natural_sort_parts() {
    assert_eq!(
        SortPart::split_into_parts("File10.TXT"),
        vec![SortPart::Stringular("file".to_string()), SortPart::Numeric(10), SortPart::Stringular(".txt".to_string())]
    );
    assert_eq!(SortPart::split_into_parts(""), vec![]);
    assert_eq!(SortPart::split_into_parts("007"), vec![SortPart::Numeric(7)]);
    assert!(SortPart::split_into_parts("file9") < SortPart::split_into_parts("file10"));
}

#[test]
fn numbers() {
    assert_eq!(parse_usize(b"0118"), Ok(118));
    assert_eq!(parse_usize(b"+5"), Ok(5));
    assert_eq!(parse_usize(b""), Err(NumberError::Empty));
    assert_eq!(parse_usize(b"12a"), Err(NumberError::InvalidDigit));
    assert_eq!(parse_usize(b"-1"), Err(NumberError::InvalidDigit));
    assert_eq!(parse_usize(b"99999999999999999999999"), Err(NumberError::Overflow));
}

#[test]
fn terminal_width_and_rows() {
    assert_eq!(TerminalWidth::deduce(&vars(None, None)), Ok(TerminalWidth::Automatic));
    assert_eq!(TerminalWidth::deduce(&vars(Some(b"120"), None)), Ok(TerminalWidth::Given(120)));
    assert_eq!(
        TerminalWidth::deduce(&vars(Some(b"wide"), None)),
        Err(Misfire::FailedParse("wide".to_string(), NumberSource::Env("COLUMNS"), NumberError::InvalidDigit))
    );
    assert_eq!(RowThreshold::deduce(&vars(None, Some(b"4"))), Ok(RowThreshold::MinimumRows(4)));
    assert_eq!(RowThreshold::deduce(&vars(None, None)), Ok(RowThreshold::AlwaysGrid));
}

fn colours(inputs: &[&str]) -> Result<TerminalColours, Misfire> {
    let bits: Vec<Vec<u8>> = inputs.iter().map(|s| s.as_bytes().to_vec()).collect();
    let m = parse(&flags::all_args(), &bits).unwrap();
    TerminalColours::deduce(&MatchedFlags { flags: m.flags, strictness: Strictness::UseLastArguments })
}

#[test]
fn terminal_colours() {
    assert_eq!(colours(&[]), Ok(TerminalColours::Automatic));
    assert_eq!(colours(&["--colour=always"]), Ok(TerminalColours::Always));
    assert_eq!(colours(&["--color", "never"]), Ok(TerminalColours::Never));
    assert_eq!(colours(&["--color=never", "--colour=always"]), Ok(TerminalColours::Always));
    assert_eq!(colours(&["--colour=sometimes"]), Err(Misfire::BadArgument(flags::color(), b"sometimes".to_vec())));
}

#[test]
fn directory_actions() {
    assert!(DirAction::AsFile.treat_dirs_as_files());
    assert!(!DirAction::List.treat_dirs_as_files());
    let limited = RecurseOptions { tree: false, max_depth: Some(2) };
    assert!(!limited.is_too_deep(1));
    assert!(limited.is_too_deep(2));
    assert!(!RecurseOptions { tree: true, max_depth: None }.is_too_deep(100));
    assert_eq!(DirAction::Recurse(limited).recurse_options(), Some(limited));
    assert_eq!(DotFilter::DotfilesAndDots.dots(), DotsNext::Dot);
    assert_eq!(DotFilter::Dotfiles.dots(), DotsNext::Files);
    assert!(DotFilter::Dotfiles.shows_dotfiles());
    assert!(!DotFilter::JustFiles.shows_dotfiles());
}

#[test]
fn extended_attributes() {
    let buf = b"user.a\0user.b\0tail".to_vec();
    assert_eq!(attribute_names(&buf), vec![b"user.a".to_vec(), b"user.b".to_vec()]);
    assert_eq!(
        list_attrs(18, 18, &buf, &vec![3, 0]),
        Ok(vec![Attribute { name: "user.a".to_string(), size: 3 }])
    );
    assert_eq!(list_attrs(-1, 0, &vec![], &vec![]), Err(ListError));
    assert_eq!(list_attrs(0, 0, &vec![], &vec![]), Ok(vec![]));
    assert_eq!(list_attrs(6, -1, &buf, &vec![]), Err(ListError));
    let bad = vec![0xff, b'x', 0];
    assert_eq!(
        list_attrs(3, 3, &bad, &vec![1]),
        Ok(vec![Attribute { name: "\u{fffd}x".to_string(), size: 1 }])
    );
}

#[test]
fn listing_flags() {
    assert_eq!(combine_flags(&vec![]), 0);
    assert_eq!(combine_flags(&vec![ListFlags::NoFollow]), 1);
    assert_eq!(combine_flags(&vec![ListFlags::NoFollow, ListFlags::ShowCompression, ListFlags::NoFollow]), 33);
}

#[test]
fn following_links_leaves_the_no_follow_bit_clear() {
    assert_eq!(follow_flag(FollowSymlinks::Yes), 0);
    assert_eq!(follow_flag(FollowSymlinks::No), 1);
    assert_eq!(Lister::new(FollowSymlinks::Yes).c_flags, 0);
    assert_eq!(Lister::new(FollowSymlinks::No).c_flags, 1);
}
