use exa::fs::dir::{dirs_to_recurse, Dir, DirEntry, DotFilter, Listed};
use exa::fs::dir_action::{DirAction, RecurseOptions};
use exa::fs::fields::Type;
use exa::options::style::TerminalColours;
use exa::fs::git::{Git, GitCache, GitRepo, Status};

fn path(s: &str) -> Vec<Vec<u8>> {
    let mut out: Vec<Vec<u8>> = Vec::new();
    if s.starts_with('/') {
        out.push(b"/".to_vec());
    }
    for c in s.split('/').filter(|c| !c.is_empty()) {
        out.push(c.as_bytes().to_vec());
    }
    out
}

fn dir(names: &[&str]) -> Dir {
    let contents = names
        .iter()
        .map(|n| DirEntry { path: path(&format!("src/{}", n)), absolute: path(&format!("/repo/src/{}", n)) })
        .collect();
    Dir { contents, path: path("src") }
}

fn listing(d: &Dir, dots: DotFilter, git: Option<&GitCache>, git_ignoring: bool) -> Vec<Listed> {
    let mut files = d.files(dots, git, git_ignoring);
    let mut out = Vec::new();
    while let Some(l) = files.next() {
        out.push(l);
    }
    out
}

#[test]
fn just_files_hides_dotfiles() {
    let d = dir(&["a.rs", ".hidden", "b.rs"]);
    assert_eq!(listing(&d, DotFilter::JustFiles, None, false), vec![Listed::Entry(0), Listed::Entry(2)]);
}

#[test]
fn dotfiles_are_shown_without_dots() {
    let d = dir(&["a.rs", ".hidden"]);
    assert_eq!(listing(&d, DotFilter::Dotfiles, None, false), vec![Listed::Entry(0), Listed::Entry(1)]);
}

#[test]
fn dots_come_first() {
    let d = dir(&[".hidden", "b.rs"]);
    assert_eq!(
        listing(&d, DotFilter::DotfilesAndDots, None, false),
        vec![Listed::Current, Listed::Parent(path("src/..")), Listed::Entry(0), Listed::Entry(1)]
    );
}

#[test]
fn git_ignored_files_can_be_hidden() {
    let d = dir(&["a.rs", "target"]);
    let mut cache = GitCache::new();
    cache.add_discovered(Ok(GitRepo {
        statuses: Git { statuses: vec![(path("/repo/src/target"), Status::ignored_only())] },
        workdir: path("/repo"),
        original_path: path("src"),
        extra_paths: Vec::new(),
    }));
    assert_eq!(listing(&d, DotFilter::JustFiles, Some(&cache), true), vec![Listed::Entry(0)]);
    assert_eq!(listing(&d, DotFilter::JustFiles, Some(&cache), false), vec![Listed::Entry(0), Listed::Entry(1)]);
    assert_eq!(listing(&d, DotFilter::JustFiles, None, true), vec![Listed::Entry(0), Listed::Entry(1)]);
}

#[test]
fn contains_and_join() {
    let d = dir(&["a.rs"]);
    assert!(d.contains(&path("src/a.rs")));
    assert!(!d.contains(&path("src/b.rs")));
    assert_eq!(d.join(&path("a.rs")), path("src/a.rs"));
    assert_eq!(d.join(&path("/etc")), path("/etc"));
}

fn key(name: &str, kind: exa::fs::fields::Type) -> exa::fs::order::SortKey {
    let t = exa::fs::fields::Time { seconds: 0, nanoseconds: 0 };
    exa::fs::order::SortKey {
        name: name.to_string(),
        ext: None,
        size: 0,
        inode: 0,
        modified: t,
        accessed: t,
        changed: t,
        created: t,
        kind,
        points_to_directory: false,
    }
}

#[test]
fn recursion_goes_into_child_directories_only() {
    let children = vec![
        key(".", Type::Directory),
        key("..", Type::Directory),
        key("src", Type::Directory),
        key("a.rs", Type::File),
        key("docs", Type::Directory),
    ];
    let recurse = DirAction::Recurse(RecurseOptions { tree: false, max_depth: None });
    assert_eq!(dirs_to_recurse(recurse, &path("."), &children), vec![2, 4]);
    let tree = DirAction::Recurse(RecurseOptions { tree: true, max_depth: None });
    assert!(dirs_to_recurse(tree, &path("."), &children).is_empty());
    assert!(dirs_to_recurse(DirAction::List, &path("."), &children).is_empty());
    let shallow = DirAction::Recurse(RecurseOptions { tree: false, max_depth: Some(3) });
    assert_eq!(dirs_to_recurse(shallow, &path("./a"), &children), vec![2, 4]);
    assert!(dirs_to_recurse(shallow, &path("a/b"), &children).is_empty());
}

#[test]
fn painting_follows_the_colour_option() {
    assert!(TerminalColours::Always.should_paint(false));
    assert!(!TerminalColours::Never.should_paint(true));
    assert!(TerminalColours::Automatic.should_paint(true));
    assert!(!TerminalColours::Automatic.should_paint(false));
}
