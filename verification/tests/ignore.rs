use exa::fs::filter::IgnorePatterns;
use exa::fs::ignore::{file_lines_to_patterns, IgnoreCache};

fn strings(v: &[&str]) -> Vec<String> {
    v.iter().map(|s| s.to_string()).collect()
}

#[test]
fn empty_matches_nothing() {
    let pats = IgnorePatterns::empty();
    assert_eq!(false, pats.is_ignored("nothing"));
    assert_eq!(false, pats.is_ignored("test.mp3"));
}

#[test]
fn ignores_a_glob() {
    let (pats, fails) = IgnorePatterns::parse_from_iter(&strings(&["*.mp3"]));
    assert!(fails.is_empty());
    assert_eq!(false, pats.is_ignored("nothing"));
    assert_eq!(true, pats.is_ignored("test.mp3"));
}

#[test]
fn ignores_an_exact_filename() {
    let (pats, fails) = IgnorePatterns::parse_from_iter(&strings(&["nothing"]));
    assert!(fails.is_empty());
    assert_eq!(true, pats.is_ignored("nothing"));
    assert_eq!(false, pats.is_ignored("test.mp3"));
}

#[test]
fn ignores_both() {
    let (pats, fails) = IgnorePatterns::parse_from_iter(&strings(&["nothing", "*.mp3"]));
    assert!(fails.is_empty());
    assert_eq!(true, pats.is_ignored("nothing"));
    assert_eq!(true, pats.is_ignored("test.mp3"));
}

#[test]
fn bad_globs_are_reported() {
    let (pats, fails) = IgnorePatterns::parse_from_iter(&strings(&["[", "*.mp3"]));
    assert_eq!(fails.len(), 1);
    assert_eq!(true, pats.is_ignored("test.mp3"));
}

#[test]
fn parse_nothing() {
    let (patterns, _) = IgnorePatterns::parse_from_iter(&vec![]);
    assert_eq!(patterns, file_lines_to_patterns(&vec![]));
}

#[test]
fn parse_some_globs() {
    let stuff = strings(&["*.mp3", "README.md"]);
    let reals = strings(&["*.mp3", "README.md"]);
    let (patterns, _) = IgnorePatterns::parse_from_iter(&reals);
    assert_eq!(patterns, file_lines_to_patterns(&stuff));
}

#[test]
fn parse_some_comments() {
    let stuff = strings(&["*.mp3", "# I am a comment!", "#", "README.md"]);
    let reals = strings(&["*.mp3", "README.md"]);
    let (patterns, _) = IgnorePatterns::parse_from_iter(&reals);
    assert_eq!(patterns, file_lines_to_patterns(&stuff));
}

#[test]
fn parse_some_blank_lines() {
    let stuff = strings(&["*.mp3", "", "", "README.md"]);
    let reals = strings(&["*.mp3", "README.md"]);
    let (patterns, _) = IgnorePatterns::parse_from_iter(&reals);
    assert_eq!(patterns, file_lines_to_patterns(&stuff));
}

#[test]
fn parse_some_whitespacey_lines() {
    let stuff = strings(&[" *.mp3", "  ", "  a  ", "README.md   "]);
    let reals = strings(&[" *.mp3", "  ", "  a  ", "README.md   "]);
    let (patterns, _) = IgnorePatterns::parse_from_iter(&reals);
    assert_eq!(patterns, file_lines_to_patterns(&stuff));
}

fn path(s: &str) -> Vec<Vec<u8>> {
    let mut out: Vec<Vec<u8>> = Vec::new();
    if s.starts_with('/') {
        out.push(b"/".to_vec());
    }
    for c in s.split('/').filter(|c| !c.is_empty()) {
        out.push(c.as_bytes().to_vec());
    }
    out
}

fn test_cache(dir: &str, pats: Vec<&str>) -> IgnoreCache {
    let pats: Vec<String> = pats.into_iter().map(|p| p.to_string()).collect();
    IgnoreCache { entries: vec![(path(dir), IgnorePatterns::parse_from_iter(&pats).0)] }
}

#[test]
fn an_empty_cache_ignores_nothing() {
    let ignores = IgnoreCache::new();
    assert_eq!(false, ignores.is_ignored(&path("/usr/bin/drinking")));
    assert_eq!(false, ignores.is_ignored(&path("target/debug/exa")));
}

#[test]
fn a_nonempty_cache_ignores_some_things() {
    let ignores = test_cache("/vagrant", vec!["target"]);
    assert_eq!(false, ignores.is_ignored(&path("/vagrant/src")));
    assert_eq!(true, ignores.is_ignored(&path("/vagrant/target")));
}

#[test]
fn ignore_some_globs() {
    let ignores = test_cache("/vagrant", vec!["*.ipr", "*.iws", ".docker"]);
    assert_eq!(true, ignores.is_ignored(&path("/vagrant/exa.ipr")));
    assert_eq!(true, ignores.is_ignored(&path("/vagrant/exa.iws")));
    assert_eq!(false, ignores.is_ignored(&path("/vagrant/exa.iwiwal")));
    assert_eq!(true, ignores.is_ignored(&path("/vagrant/.docker")));
    assert_eq!(false, ignores.is_ignored(&path("/vagrant/exa.docker")));

    assert_eq!(false, ignores.is_ignored(&path("/srcode/exa.ipr")));
    assert_eq!(false, ignores.is_ignored(&path("/srcode/exa.iws")));
}

#[test]
fn ignore_files_are_looked_for_upwards() {
    let dirs = IgnoreCache::search_dirs(&path("/home/ben/exa"));
    assert_eq!(dirs, vec![path("/home/ben/exa"), path("/home/ben"), path("/home"), path("/")]);
    assert!(IgnoreCache::search_dirs(&Vec::new()).is_empty());
}

#[test]
fn added_ignore_files_apply_under_their_directory() {
    let mut cache = IgnoreCache::new();
    let lines: Vec<String> = vec!["# build output".to_string(), "".to_string(), "target".to_string()];
    cache.add_ignore_file(path("/home/ben/exa"), &lines);
    assert!(cache.is_ignored(&path("/home/ben/exa/target")));
    assert!(!cache.is_ignored(&path("/home/ben/target")));
    assert!(cache.is_ignored(&path("/home/ben/exa/src/target")) == false);
}
