use std::cmp::Ordering;

use exa::fs::dir::DotFilter;
use exa::fs::fields::{Time, Type};
use exa::fs::filter::{FileFilter, GitIgnore, IgnorePatterns, SortCase, SortField};
use exa::fs::order::SortKey;

fn key(name: &str, ext: Option<&str>, size: u64, modified: i64, kind: Type) -> SortKey {
    let t = Time { seconds: modified, nanoseconds: 0 };
    SortKey {
        name: name.to_string(),
        ext: ext.map(|e| e.to_string()),
        size,
        inode: size + 1,
        modified: t,
        accessed: t,
        changed: t,
        created: t,
        kind,
        points_to_directory: kind == Type::Directory,
    }
}

fn file(name: &str) -> SortKey {
    key(name, None, 0, 0, Type::File)
}

#[test]
fn names_in_natural_order() {
    let f = SortField::Name(SortCase::ABCabc);
    assert_eq!(f.compare_files(&file("file9"), &file("file10")), Ordering::Less);
    assert_eq!(f.compare_files(&file("B"), &file("a")), Ordering::Less);
    let g = SortField::Name(SortCase::AaBbCc);
    assert_eq!(g.compare_files(&file("B"), &file("a")), Ordering::Greater);
    assert_eq!(SortField::Unsorted.compare_files(&file("b"), &file("a")), Ordering::Equal);
}

#[test]
fn hidden_names_mixed_in() {
    let f = SortField::NameMixHidden(SortCase::ABCabc);
    assert_eq!(f.compare_files(&file(".b"), &file("a")), Ordering::Greater);
    assert_eq!(f.compare_files(&file(".a"), &file("b")), Ordering::Less);
}

#[test]
fn sizes_times_and_inodes() {
    let small = key("z", None, 1, 100, Type::File);
    let big = key("a", None, 2, 50, Type::File);
    assert_eq!(SortField::Size.compare_files(&small, &big), Ordering::Less);
    assert_eq!(SortField::FileInode.compare_files(&small, &big), Ordering::Less);
    assert_eq!(SortField::ModifiedDate.compare_files(&small, &big), Ordering::Greater);
    assert_eq!(SortField::ModifiedAge.compare_files(&small, &big), Ordering::Less);
}

#[test]
fn types_then_names() {
    let dir = key("b", None, 0, 0, Type::Directory);
    let f = key("a", None, 0, 0, Type::File);
    assert_eq!(SortField::FileType.compare_files(&dir, &f), Ordering::Less);
    assert_eq!(SortField::FileType.compare_files(&file("a2"), &file("a10")), Ordering::Less);
}

#[test]
fn extensions_then_names() {
    let e = SortField::Extension(SortCase::ABCabc);
    assert_eq!(e.compare_files(&key("z", None, 0, 0, Type::File), &key("a.c", Some("c"), 0, 0, Type::File)), Ordering::Less);
    assert_eq!(e.compare_files(&key("a.rs", Some("rs"), 0, 0, Type::File), &key("b.c", Some("c"), 0, 0, Type::File)), Ordering::Greater);
    assert_eq!(e.compare_files(&key("b.c", Some("c"), 0, 0, Type::File), &key("a.c", Some("c"), 0, 0, Type::File)), Ordering::Greater);
}

fn filter(globs: &[&str], only_dirs: bool) -> FileFilter {
    FileFilter {
        list_dirs_first: false,
        sort_field: SortField::default(),
        reverse: false,
        only_dirs,
        dot_filter: DotFilter::JustFiles,
        ignore_patterns: IgnorePatterns::parse_from_iter(&globs.iter().map(|g| g.to_string()).collect()).0,
        git_ignore: GitIgnore::Off,
    }
}

fn names(files: &[SortKey]) -> Vec<String> {
    files.iter().map(|f| f.name.clone()).collect()
}

#[test]
fn child_files_are_filtered() {
    let mut files = vec![file("a.mp3"), key("music", None, 0, 0, Type::Directory), file("b.txt")];
    filter(&["*.mp3"], false).filter_child_files(&mut files);
    assert_eq!(names(&files), vec!["music", "b.txt"]);

    let mut files = vec![file("a.mp3"), key("music", None, 0, 0, Type::Directory), file("b.txt")];
    filter(&[], true).filter_child_files(&mut files);
    assert_eq!(names(&files), vec!["music"]);
}

#[test]
fn argument_files_keep_everything_not_ignored() {
    let mut files = vec![file("a.mp3"), file("b.txt")];
    filter(&["*.mp3"], true).filter_argument_files(&mut files);
    assert_eq!(names(&files), vec!["b.txt"]);
}

fn sorter(field: SortField, reverse: bool, dirs_first: bool) -> FileFilter {
    let mut f = filter(&[], false);
    f.sort_field = field;
    f.reverse = reverse;
    f.list_dirs_first = dirs_first;
    f
}

#[test]
fn sorts_by_size_stably() {
    let mut files = vec![
        key("c", None, 3, 0, Type::File),
        key("a", None, 1, 0, Type::File),
        key("b", None, 3, 0, Type::File),
        key("d", None, 2, 0, Type::File),
    ];
    sorter(SortField::Size, false, false).sort_files(&mut files);
    assert_eq!(names(&files), vec!["a", "d", "c", "b"]);
}

#[test]
fn sorts_names_naturally_and_reverses() {
    let mut files = vec![file("file10"), file("file9"), file("file1")];
    sorter(SortField::Name(SortCase::AaBbCc), false, false).sort_files(&mut files);
    assert_eq!(names(&files), vec!["file1", "file9", "file10"]);
    sorter(SortField::Name(SortCase::AaBbCc), true, false).sort_files(&mut files);
    assert_eq!(names(&files), vec!["file10", "file9", "file1"]);
}

#[test]
fn directories_go_first() {
    let mut files = vec![
        file("b"),
        key("z", None, 0, 0, Type::Directory),
        file("a"),
        key("y", None, 0, 0, Type::Directory),
    ];
    sorter(SortField::Name(SortCase::ABCabc), false, true).sort_files(&mut files);
    assert_eq!(names(&files), vec!["y", "z", "a", "b"]);
}

#[test]
fn unsorted_keeps_the_order() {
    let mut files = vec![file("b"), file("c"), file("a")];
    sorter(SortField::Unsorted, false, false).sort_files(&mut files);
    assert_eq!(names(&files), vec!["b", "c", "a"]);
}
