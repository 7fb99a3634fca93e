use exa::fs::fields::{Git as FileGit, GitStatus, SubdirGitRepo, SubdirGitRepoStatus};
use exa::fs::git::{index_status, working_tree_status, Git, GitCache, GitRepo, Status};

fn path(s: &str) -> Vec<Vec<u8>> {
    s.split('/').filter(|c| !c.is_empty()).map(|c| c.as_bytes().to_vec()).collect()
}

fn modified() -> Status {
    Status { wt_modified: true, ..Status::empty() }
}

fn staged_new() -> Status {
    Status { index_new: true, ..Status::empty() }
}

fn repo_statuses() -> Git {
    Git {
        statuses: vec![
            (path("/repo/src/main.rs"), modified()),
            (path("/repo/src/lib.rs"), staged_new()),
            (path("/repo/target"), Status::ignored_only()),
        ],
    }
}

#[test]
fn status_priorities() {
    assert_eq!(working_tree_status(Status::empty()), GitStatus::NotModified);
    assert_eq!(working_tree_status(Status { wt_new: true, wt_modified: true, ..Status::empty() }), GitStatus::New);
    assert_eq!(working_tree_status(Status { wt_deleted: true, ignored: true, ..Status::empty() }), GitStatus::Deleted);
    assert_eq!(working_tree_status(Status { wt_renamed: true, ..Status::empty() }), GitStatus::Renamed);
    assert_eq!(working_tree_status(Status { wt_typechange: true, ..Status::empty() }), GitStatus::TypeChange);
    assert_eq!(working_tree_status(Status::ignored_only()), GitStatus::Ignored);
    assert_eq!(working_tree_status(Status { conflicted: true, ..Status::empty() }), GitStatus::Conflicted);
    assert_eq!(index_status(Status { index_modified: true, index_deleted: true, ..Status::empty() }), GitStatus::Modified);
    assert_eq!(index_status(Status { index_renamed: true, ..Status::empty() }), GitStatus::Renamed);
    assert_eq!(index_status(Status { index_typechange: true, ..Status::empty() }), GitStatus::TypeChange);
    assert_eq!(index_status(Status { wt_new: true, ..Status::empty() }), GitStatus::NotModified);
}

#[test]
fn a_file_has_its_own_status() {
    let git = repo_statuses();
    assert_eq!(
        git.status(&path("/repo/src/main.rs"), false),
        FileGit { staged: GitStatus::NotModified, unstaged: GitStatus::Modified }
    );
    assert_eq!(
        git.status(&path("/repo/src/lib.rs"), false),
        FileGit { staged: GitStatus::New, unstaged: GitStatus::NotModified }
    );
    assert_eq!(git.status(&path("/repo/README.md"), false), FileGit::empty());
}

#[test]
fn a_directory_gathers_the_statuses_under_it() {
    let git = repo_statuses();
    assert_eq!(
        git.status(&path("/repo/src"), true),
        FileGit { staged: GitStatus::New, unstaged: GitStatus::Modified }
    );
    assert_eq!(git.status(&path("/repo/sr"), true), FileGit::empty());
    assert_eq!(git.status(&path("/repo"), true).unstaged, GitStatus::Modified);
}

#[test]
fn ignored_passes_down_not_up() {
    let git = repo_statuses();
    assert_eq!(git.status(&path("/repo/target/debug/exa"), false).unstaged, GitStatus::Ignored);
    assert_eq!(git.status(&path("/repo/target/debug"), true).unstaged, GitStatus::Ignored);
    assert_eq!(git.status(&path("/repo/target"), true).unstaged, GitStatus::Ignored);
    assert_eq!(git.status(&path("/other"), true), FileGit::empty());
}

fn repo(workdir: &str, original: &str) -> GitRepo {
    GitRepo { statuses: repo_statuses(), workdir: path(workdir), original_path: path(original), extra_paths: Vec::new() }
}

#[test]
fn the_cache_finds_repositories_by_path() {
    let mut cache = GitCache::new();
    assert!(cache.needs_discovery(&path("/repo/src")));
    cache.add_discovered(Ok(repo("/repo", "/repo/src")));
    assert!(!cache.needs_discovery(&path("/repo/src/deep")));
    assert!(cache.needs_discovery(&path("/repo/docs")));
    cache.add_discovered(Ok(repo("/repo", "/repo/docs")));
    assert_eq!(cache.repos.len(), 1);
    assert_eq!(cache.repos[0].extra_paths, vec![path("/repo/docs")]);
    assert!(cache.has_anything_for(&path("/repo/docs/a.md")));
    cache.add_discovered(Err(path("/tmp")));
    assert!(!cache.needs_discovery(&path("/tmp")));
    assert!(!cache.has_anything_for(&path("/tmp")));
    assert_eq!(cache.get(&path("/tmp/x"), &path("/tmp/x"), false), FileGit::empty());
    assert_eq!(cache.get(&path("/repo/src/main.rs"), &path("/repo/src/main.rs"), false).unstaged, GitStatus::Modified);
}

#[test]
fn without_reading_repositories_no_directory_is_one() {
    assert_eq!(SubdirGitRepo::from_path(&b"/repo".to_vec()).status, SubdirGitRepoStatus::NotRepo);
}
