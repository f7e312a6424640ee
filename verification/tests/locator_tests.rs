use pm::locator::{first_vcs_subdir, ScanEntry};
use pm::model::Project;

fn worktree_project(branch: Option<&str>) -> Project {
    let mut p = Project::new(
        "widgets".to_string(),
        "github".to_string(),
        "/x".to_string(),
    );
    p.is_worktree = true;
    p.worktree_branch = branch.map(|b| b.to_string());
    p
}

#[test]
fn non_worktree_project_keeps_local_path() {
    let p = Project::new(
        "widgets".to_string(),
        "github".to_string(),
        "/x".to_string(),
    );
    assert_eq!(p.get_repo_path(None), "/x");
    assert_eq!(p.get_repo_path(Some(&"/x/ignored".to_string())), "/x");
}

#[test]
fn worktree_with_branch_appends_branch() {
    let p = worktree_project(Some("main"));
    assert_eq!(p.get_repo_path(None), "/x/main");
}

#[test]
fn legacy_worktree_uses_scanned_subdirectory() {
    let p = worktree_project(None);
    let found = "/x/feature".to_string();
    assert_eq!(p.get_repo_path(Some(&found)), "/x/feature");
}

#[test]
fn legacy_worktree_without_subdirectory_degrades_to_local_path() {
    let p = worktree_project(None);
    assert_eq!(p.get_repo_path(None), "/x");
}

fn entry(path: &str, is_dir: bool, has_vcs_marker: bool) -> ScanEntry {
    ScanEntry {
        path: path.to_string(),
        is_dir,
        has_vcs_marker,
    }
}

#[test]
fn scan_picks_the_first_marked_directory() {
    let entries = vec![
        entry("/x/README.md", false, false),
        entry("/x/docs", true, false),
        entry("/x/feature", true, true),
        entry("/x/main", true, true),
    ];
    assert_eq!(first_vcs_subdir(&entries).as_deref(), Some("/x/feature"));
}

#[test]
fn scan_ignores_marked_non_directories() {
    let entries = vec![entry("/x/oddity", false, true)];
    assert!(first_vcs_subdir(&entries).is_none());
    assert!(first_vcs_subdir(&vec![]).is_none());
}
