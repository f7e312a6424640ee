use pm::error::PmError;
use pm::gitsync::{
    classify_status_entries, get_repository_status, strip_refs_heads, update_decision,
    update_repository, StatusFlags, UpdateAction,
};

fn clean_entry() -> StatusFlags {
    StatusFlags {
        index_new: false,
        index_modified: false,
        index_deleted: false,
        index_renamed: false,
        index_typechange: false,
        wt_new: false,
        wt_modified: false,
        wt_deleted: false,
        wt_renamed: false,
        wt_typechange: false,
    }
}

#[test]
fn up_to_date_branch_is_left_alone() {
    assert_eq!(update_decision(true, false), UpdateAction::AlreadyUpToDate);
    assert_eq!(update_decision(true, true), UpdateAction::AlreadyUpToDate);
}

#[test]
fn strictly_behind_branch_fast_forwards() {
    assert_eq!(update_decision(false, true), UpdateAction::FastForward);
}

#[test]
fn diverged_histories_are_refused() {
    assert_eq!(update_decision(false, false), UpdateAction::Refuse);
}

#[test]
fn staged_addition_and_untracked_file_are_counted() {
    let staged_addition = StatusFlags {
        index_new: true,
        ..clean_entry()
    };
    let untracked = StatusFlags {
        wt_new: true,
        ..clean_entry()
    };
    let st = classify_status_entries(&vec![staged_addition, untracked]);
    assert_eq!(st.staged, 1);
    assert_eq!(st.modified, 0);
    assert_eq!(st.untracked, 1);
    assert!(st.has_changes);
}

#[test]
fn clean_repository_reports_no_changes() {
    let st = classify_status_entries(&vec![]);
    assert_eq!(st.staged, 0);
    assert_eq!(st.modified, 0);
    assert_eq!(st.untracked, 0);
    assert!(!st.has_changes);
}

#[test]
fn entry_with_index_and_worktree_changes_counts_twice() {
    let both = StatusFlags {
        index_modified: true,
        wt_modified: true,
        ..clean_entry()
    };
    let st = classify_status_entries(&vec![both]);
    assert_eq!(st.staged, 1);
    assert_eq!(st.modified, 1);
    assert_eq!(st.untracked, 0);
    assert!(st.has_changes);
}

#[test]
fn refs_heads_prefix_is_stripped() {
    assert_eq!(strip_refs_heads("refs/heads/main"), "main");
    assert_eq!(strip_refs_heads("refs/heads/feature/x"), "feature/x");
    assert_eq!(strip_refs_heads("main"), "main");
    assert_eq!(strip_refs_heads("refs/tags/v1"), "refs/tags/v1");
}

#[test]
fn statuses_of_a_real_repository_are_classified() {
    // A repository with one entry staged straight into the index and no
    // working-tree file: the entry is index-new (staged) and
    // worktree-deleted (modified). Re-running against a leftover directory
    // reaches the same state, since the same path is staged again.
    let dir = "/tmp/pm_gitsync_status_test_repo";
    let repo = git2::Repository::init(dir).unwrap();
    let mut index = repo.index().unwrap();
    let entry = git2::IndexEntry {
        ctime: git2::IndexTime::new(0, 0),
        mtime: git2::IndexTime::new(0, 0),
        dev: 0,
        ino: 0,
        mode: 0o100644,
        uid: 0,
        gid: 0,
        file_size: 5,
        id: git2::Oid::zero(),
        flags: 0,
        flags_extended: 0,
        path: b"hello.txt".to_vec(),
    };
    index.add_frombuffer(&entry, b"hello").unwrap();
    index.write().unwrap();

    let st = get_repository_status(dir).unwrap();
    assert_eq!(st.staged, 1);
    assert_eq!(st.modified, 1);
    assert_eq!(st.untracked, 0);
    assert!(st.has_changes);
}

#[test]
fn update_of_a_repository_without_origin_is_a_git_error() {
    let dir = "/tmp/pm_gitsync_update_test_repo";
    git2::Repository::init(dir).unwrap();
    let r = update_repository(dir);
    assert!(matches!(r, Err(PmError::Git(_))));
}

#[test]
fn status_of_a_non_repository_is_a_git_error() {
    let r = get_repository_status("/definitely/not/a/repository");
    assert!(matches!(r, Err(PmError::Git(_))));
}

#[test]
fn update_of_a_non_repository_is_a_git_error() {
    let r = update_repository("/definitely/not/a/repository");
    assert!(matches!(r, Err(PmError::Git(_))));
}
