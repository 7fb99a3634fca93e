use exa::fs::dir_action::{DirAction, RecurseOptions};
use exa::fs::dir::DotFilter;
use exa::fs::filter::{GitIgnore, IgnorePatterns, SortCase, SortField};
use exa::options::error::Misfire;
use exa::options::flags;
use exa::options::parser::{parse, Flag, MatchedFlags, Strictness};
use exa::options::vars::Vars;
use exa::options::Options;

fn os(s: &str) -> Vec<u8> {
    s.as_bytes().to_vec()
}

fn strict_vars() -> Vars {
    Vars { columns: None, time_style: None, exa_strict: Some(os("1")), exa_grid_rows: None }
}

/// Parses the inputs with every strictness asked for, and applies `get`.
fn both<T, F: Fn(&MatchedFlags) -> T>(inputs: &[&str], strictnesses: &[Strictness], get: F) -> Vec<T> {
    let bits: Vec<Vec<u8>> = inputs.iter().map(|s| os(s)).collect();
    let mut out = Vec::new();
    for s in strictnesses {
        let m = parse(&flags::all_args(), &bits).unwrap();
        let flags = MatchedFlags { flags: m.flags, strictness: s.clone() };
        out.push(get(&flags));
    }
    out
}

const LAST: &[Strictness] = &[Strictness::UseLastArguments];
const COMPLAIN: &[Strictness] = &[Strictness::ComplainAboutRedundantArguments];
const BOTH: &[Strictness] = &[Strictness::UseLastArguments, Strictness::ComplainAboutRedundantArguments];

fn sort(inputs: &[&str], s: &[Strictness], expected: Result<SortField, Misfire>) {
    for r in both(inputs, s, SortField::deduce) {
        assert_eq!(r, expected, "{:?}", inputs);
    }
}

fn dots(inputs: &[&str], s: &[Strictness], expected: Result<DotFilter, Misfire>) {
    for r in both(inputs, s, DotFilter::deduce) {
        assert_eq!(r, expected, "{:?}", inputs);
    }
}

fn dir_action(inputs: &[&str], s: &[Strictness], expected: Result<DirAction, Misfire>) {
    for r in both(inputs, s, |m| DirAction::deduce(m, true)) {
        assert_eq!(r, expected, "{:?}", inputs);
    }
}

fn recurse(tree: bool, max_depth: Option<usize>) -> DirAction {
    DirAction::Recurse(RecurseOptions { tree, max_depth })
}

#[test]
fn mod_files() {
    let args = vec![os("this file"), os("that file")];
    let outs = Options::parse(&args, &Vars::empty()).unwrap().1;
    assert_eq!(outs, vec![os("this file"), os("that file")])
}

#[test]
fn options_no_args() {
    let nothing: Vec<Vec<u8>> = Vec::new();
    let outs = Options::parse(&nothing, &Vars::empty()).unwrap().1;
    assert!(outs.is_empty());
}

// The older option tests expect `--long --across` and `--oneline --across`
// to be refused even without strict mode; the view deduction they sit beside
// only refuses them in strict mode, and that is what is followed here.
#[test]
fn long_across_uses_the_last_arguments() {
    let args = vec![os("--long"), os("--across")];
    let opts = Options::parse(&args, &Vars::empty()).unwrap().0;
    assert!(matches!(opts.view.mode, exa::output::Mode::Details(_)));
}

#[test]
fn long_across_complains_when_strict() {
    let args = vec![os("--long"), os("--across")];
    let opts = Options::parse(&args, &strict_vars());
    assert_eq!(opts.unwrap_err(), Misfire::Useless(flags::across(), true, flags::long()))
}

#[test]
fn long_oneline_complains_when_strict() {
    let args = vec![os("--oneline"), os("--long")];
    let opts = Options::parse(&args, &strict_vars());
    assert_eq!(opts.unwrap_err(), Misfire::Useless(flags::one_line(), true, flags::long()))
}

#[test]
fn oneline_across_gives_lines() {
    let args = vec![os("--oneline"), os("--across")];
    let opts = Options::parse(&args, &strict_vars()).unwrap().0;
    assert!(matches!(opts.view.mode, exa::output::Mode::Lines));
}

#[test]
fn options_help() {
    let opts = Options::parse(&vec![os("--help")], &Vars::empty());
    assert!(matches!(opts, Err(Misfire::Help(_))));
}

#[test]
fn options_help_with_file() {
    let opts = Options::parse(&vec![os("--help"), os("me")], &Vars::empty());
    assert!(matches!(opts, Err(Misfire::Help(_))));
}

#[test]
fn unhelpful() {
    let opts = Options::parse(&vec![], &Vars::empty());
    assert!(!matches!(opts, Err(Misfire::Help(_))));
}

#[test]
fn version() {
    let opts = Options::parse(&vec![os("--version")], &Vars::empty());
    assert!(matches!(opts, Err(Misfire::Version(_))));
}

#[test]
fn version_with_file() {
    let opts = Options::parse(&vec![os("--version"), os("me")], &Vars::empty());
    assert!(matches!(opts, Err(Misfire::Version(_))));
}

#[test]
fn help_wins_over_bad_options() {
    let opts = Options::parse(&vec![os("--sort=colour"), os("--help")], &Vars::empty());
    assert!(matches!(opts, Err(Misfire::Help(_))));
}

#[test]
fn strict_just_binary() {
    let opts = Options::parse(&vec![os("--binary")], &strict_vars());
    assert_eq!(opts.unwrap_err(), Misfire::Useless(flags::binary(), false, flags::long()));
}

#[test]
fn strict_level_without_recurse_or_tree() {
    let opts = Options::parse(&vec![os("--level"), os("69105")], &strict_vars());
    assert_eq!(opts.unwrap_err(), Misfire::Useless2(flags::level(), flags::recurse(), flags::tree()));
}

#[test]
fn everything_after_double_dash_is_a_file() {
    let args = vec![os("--"), os("--long"), os("-x")];
    let outs = Options::parse(&args, &Vars::empty()).unwrap().1;
    assert_eq!(outs, vec![os("--long"), os("-x")]);
}

#[test]
fn sort_fields() {
    sort(&[], BOTH, Ok(SortField::default()));
    sort(&["--sort=cr"], BOTH, Ok(SortField::CreatedDate));
    sort(&["--sort=size"], BOTH, Ok(SortField::Size));
    sort(&["-saccessed"], BOTH, Ok(SortField::AccessedDate));
    sort(&["--sort", "name"], BOTH, Ok(SortField::Name(SortCase::AaBbCc)));
    sort(&["--sort", "Name"], BOTH, Ok(SortField::Name(SortCase::ABCabc)));
    sort(&["--sort", "new"], BOTH, Ok(SortField::ModifiedDate));
    sort(&["--sort=newest"], BOTH, Ok(SortField::ModifiedDate));
    sort(&["--sort", "old"], BOTH, Ok(SortField::ModifiedAge));
    sort(&["--sort=oldest"], BOTH, Ok(SortField::ModifiedAge));
    sort(&["-sage"], BOTH, Ok(SortField::ModifiedAge));
    sort(&["--sort", ".name"], BOTH, Ok(SortField::NameMixHidden(SortCase::AaBbCc)));
    sort(&["--sort", ".Name"], BOTH, Ok(SortField::NameMixHidden(SortCase::ABCabc)));
    sort(&["--sort=colour"], BOTH, Err(Misfire::BadArgument(flags::sort(), os("colour"))));
    sort(&["--sort=changed"], BOTH, Ok(SortField::ChangedDate));
    sort(&["--sort=ch"], BOTH, Err(Misfire::BadArgument(flags::sort(), os("ch"))));
}

#[test]
fn sort_fields_overridden() {
    sort(&["--sort=cr", "--sort", "mod"], LAST, Ok(SortField::ModifiedDate));
    sort(&["--sort", "none", "--sort=Extension"], LAST, Ok(SortField::Extension(SortCase::ABCabc)));
    sort(&["--sort=cr", "--sort", "mod"], COMPLAIN, Err(Misfire::Duplicate(Flag::Long("sort"), Flag::Long("sort"))));
    sort(&["--sort", "none", "--sort=Extension"], COMPLAIN, Err(Misfire::Duplicate(Flag::Long("sort"), Flag::Long("sort"))));
}

#[test]
fn dot_filters() {
    dots(&[], BOTH, Ok(DotFilter::JustFiles));
    dots(&["--all"], BOTH, Ok(DotFilter::Dotfiles));
    dots(&["--all", "-a"], BOTH, Ok(DotFilter::DotfilesAndDots));
    dots(&["-aa"], BOTH, Ok(DotFilter::DotfilesAndDots));
    dots(&["-aaa"], LAST, Ok(DotFilter::DotfilesAndDots));
    dots(&["-aaa"], COMPLAIN, Err(Misfire::Conflict(flags::all(), flags::all())));
    dots(&["-Ta"], BOTH, Ok(DotFilter::Dotfiles));
    dots(&["-Taa"], BOTH, Err(Misfire::TreeAllAll));
    dots(&["-Taaa"], BOTH, Err(Misfire::TreeAllAll));
}

#[test]
fn ignore_globs() {
    let deduce = |inputs: &[&str]| both(inputs, BOTH, IgnorePatterns::deduce);
    for r in deduce(&[]) {
        assert_eq!(r, Ok(IgnorePatterns::empty()));
    }
    let pats = |globs: &[&str]| IgnorePatterns::parse_from_iter(&globs.iter().map(|g| g.to_string()).collect()).0;
    for r in deduce(&["--ignore-glob", "*.ogg"]) {
        assert_eq!(r, Ok(pats(&["*.ogg"])));
    }
    for r in deduce(&["--ignore-glob=*.ogg|*.MP3"]) {
        assert_eq!(r, Ok(pats(&["*.ogg", "*.MP3"])));
    }
    for r in deduce(&["-I*|?|.|*"]) {
        assert_eq!(r, Ok(pats(&["*", "?", ".", "*"])));
    }
    for r in both(&["-I=*.ogg", "-I", "*.mp3"], COMPLAIN, IgnorePatterns::deduce) {
        assert_eq!(r, Err(Misfire::Duplicate(Flag::Short(b'I'), Flag::Short(b'I'))));
    }
    for r in both(&["-I=*.ogg", "-I", "*.mp3"], LAST, IgnorePatterns::deduce) {
        assert_eq!(r, Ok(pats(&["*.mp3"])));
    }
}

#[test]
fn git_ignore() {
    for r in both(&[], BOTH, GitIgnore::deduce) {
        assert_eq!(r, Ok(GitIgnore::Off));
    }
    for r in both(&["--git-ignore"], BOTH, GitIgnore::deduce) {
        assert_eq!(r, Ok(GitIgnore::CheckAndIgnore));
    }
}

#[test]
fn dir_actions() {
    dir_action(&[], BOTH, Ok(DirAction::List));
    dir_action(&["-d"], BOTH, Ok(DirAction::AsFile));
    dir_action(&["--list-dirs"], BOTH, Ok(DirAction::AsFile));
    dir_action(&["-R"], BOTH, Ok(recurse(false, None)));
    dir_action(&["--recurse"], BOTH, Ok(recurse(false, None)));
    dir_action(&["-RL4"], BOTH, Ok(recurse(false, Some(4))));
    dir_action(&["-RL=5"], BOTH, Ok(recurse(false, Some(5))));
    dir_action(&["--recurse", "--level", "666"], BOTH, Ok(recurse(false, Some(666))));
    dir_action(&["--recurse", "--level=0118"], BOTH, Ok(recurse(false, Some(118))));
    dir_action(&["--tree"], BOTH, Ok(recurse(true, None)));
    dir_action(&["--recurse", "--tree"], BOTH, Ok(recurse(true, None)));
    dir_action(&["-TR"], BOTH, Ok(recurse(true, None)));
    dir_action(&["--list-dirs", "--recurse"], LAST, Ok(recurse(false, None)));
    dir_action(&["--list-dirs", "--tree"], LAST, Ok(recurse(true, None)));
    dir_action(&["--level=4"], LAST, Ok(DirAction::List));
    dir_action(&["--list-dirs", "--recurse"], COMPLAIN, Err(Misfire::Conflict(flags::recurse(), flags::list_dirs())));
    dir_action(&["--list-dirs", "--tree"], COMPLAIN, Err(Misfire::Conflict(flags::tree(), flags::list_dirs())));
    dir_action(&["--level=4"], COMPLAIN, Err(Misfire::Useless2(flags::level(), flags::recurse(), flags::tree())));
    dir_action(&["-RL=6", "-L=7"], LAST, Ok(recurse(false, Some(7))));
    dir_action(&["-RL=6", "-L=7"], COMPLAIN, Err(Misfire::Duplicate(Flag::Short(b'L'), Flag::Short(b'L'))));
}

#[test]
fn help_help() {
    let opts = Options::parse(&vec![os("--help")], &Vars::empty());
    assert!(matches!(opts, Err(Misfire::Help(_))));
}

#[test]
fn help_help_with_file() {
    let opts = Options::parse(&vec![os("--help"), os("me")], &Vars::empty());
    assert!(matches!(opts, Err(Misfire::Help(_))));
}

#[test]
fn mod_no_args() {
    let nothing: Vec<Vec<u8>> = Vec::new();
    let outs = Options::parse(&nothing, &Vars::empty()).unwrap().1;
    assert!(outs.is_empty());
}

fn strict_useless(flag: &str, arg: exa::options::parser::Arg) {
    let opts = Options::parse(&vec![os(flag)], &strict_vars());
    assert_eq!(opts.unwrap_err(), Misfire::Useless(arg, false, flags::long()), "{}", flag);
}

#[test]
fn strict_just_bytes() {
    strict_useless("--bytes", flags::bytes());
}

#[test]
fn strict_just_header() {
    strict_useless("--header", flags::header());
}

#[test]
fn strict_just_group() {
    strict_useless("--group", flags::group());
}

#[test]
fn strict_just_inode() {
    strict_useless("--inode", flags::inode());
}

#[test]
fn strict_just_links() {
    strict_useless("--links", flags::links());
}

#[test]
fn strict_just_blocks() {
    strict_useless("--blocks", flags::blocks());
}

#[test]
fn strict_just_git() {
    strict_useless("--git", flags::git());
}

#[test]
fn last_view_flag_wins() {
    let lines = Options::parse(&vec![os("--long"), os("--grid"), os("--oneline")], &Vars::empty()).unwrap().0;
    assert!(matches!(lines.view.mode, exa::output::Mode::Lines));
    let long = Options::parse(&vec![os("--oneline"), os("--long")], &Vars::empty()).unwrap().0;
    assert!(matches!(long.view.mode, exa::output::Mode::Details(_)));
}
