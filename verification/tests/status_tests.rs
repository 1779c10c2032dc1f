use shtt::pull::{
    check_clean, merge_step, next_pull_step, pull_mode, MergeAnalysis, MergeStep, PullError,
    PullMode, PullStep,
};
use shtt::status::{
    format_status, has_uncommitted_changes, index_status_char, status_line, untracked_paths,
    worktree_status_char, FileStatus, StatusEntry,
};
use shtt::wipe::{dir_removable, is_git_dir_name, ChildOutcome};

fn clean() -> FileStatus {
    FileStatus {
        index_new: false,
        index_modified: false,
        index_deleted: false,
        index_renamed: false,
        index_typechange: false,
        wt_new: false,
        wt_modified: false,
        wt_deleted: false,
        wt_renamed: false,
        wt_typechange: false,
    }
}

#[test]
fn status_codes() {
    let mut s = clean();
    assert_eq!(format_status(&s), "  ");
    s.wt_new = true;
    assert_eq!(format_status(&s), "??");
    assert_eq!(index_status_char(&s), ' ');
    assert_eq!(worktree_status_char(&s), '?');
    s.index_new = true;
    assert_eq!(format_status(&s), "A?");
    let mut s = clean();
    s.index_new = true;
    s.wt_modified = true;
    assert_eq!(format_status(&s), "AM");
    assert_eq!(index_status_char(&s), 'A');
    assert_eq!(worktree_status_char(&s), 'M');
    let mut s = clean();
    s.index_deleted = true;
    s.index_renamed = true;
    s.wt_typechange = true;
    assert_eq!(format_status(&s), "DT");
    let mut s = clean();
    s.index_typechange = true;
    s.wt_renamed = true;
    s.wt_deleted = true;
    assert_eq!(format_status(&s), "TD");
}

#[test]
fn status_lines() {
    let mut s = clean();
    s.wt_modified = true;
    let e = StatusEntry { status: s, path: Some("src/main.rs".to_string()) };
    assert_eq!(status_line(&e, true), " M src/main.rs");
    assert_eq!(status_line(&e, false), " M  src/main.rs");
    let e = StatusEntry { status: s, path: None };
    assert_eq!(status_line(&e, true), " M <unknown>");
    let mut u = clean();
    u.wt_new = true;
    let e = StatusEntry { status: u, path: Some("untracked_file.txt".to_string()) };
    assert_eq!(status_line(&e, true), "?? untracked_file.txt");
    assert_eq!(status_line(&e, false), "??  untracked_file.txt");
}

#[test]
fn uncommitted_changes() {
    assert!(!has_uncommitted_changes(&[]));
    assert!(!has_uncommitted_changes(&[clean(), clean()]));
    let mut s = clean();
    s.index_renamed = true;
    assert!(has_uncommitted_changes(&[clean(), s]));
    assert_eq!(check_clean(&[clean(), s]), Err(PullError::UncommittedChanges));
    assert_eq!(check_clean(&[clean()]), Ok(()));
}

#[test]
fn untracked_paths_keep_order() {
    let mut new = clean();
    new.wt_new = true;
    let mut modified = clean();
    modified.wt_modified = true;
    let entries = vec![
        StatusEntry { status: new, path: Some("b.txt".to_string()) },
        StatusEntry { status: modified, path: Some("c.txt".to_string()) },
        StatusEntry { status: new, path: None },
        StatusEntry { status: new, path: Some("a/".to_string()) },
    ];
    assert_eq!(untracked_paths(&entries), vec!["b.txt".to_string(), "a/".to_string()]);
}

#[test]
fn pull_modes() {
    assert_eq!(pull_mode(true, None), Ok(PullMode::Pull));
    assert_eq!(pull_mode(true, Some("u".to_string())), Err(PullError::RemoteNotNeeded));
    assert_eq!(pull_mode(false, None), Err(PullError::MissingRemoteUrl));
    assert_eq!(
        pull_mode(false, Some("git@github.com:user/repo.git".to_string())),
        Ok(PullMode::Clone("git@github.com:user/repo.git".to_string()))
    );
}

#[test]
fn merge_steps() {
    let a = |f, u| MergeAnalysis { fast_forward: f, up_to_date: u };
    assert_eq!(merge_step(a(true, false)), Ok(MergeStep::FastForward));
    assert_eq!(merge_step(a(true, true)), Ok(MergeStep::FastForward));
    assert_eq!(merge_step(a(false, true)), Ok(MergeStep::UpToDate));
    assert_eq!(merge_step(a(false, false)), Err(PullError::ManualMergeRequired));
}

#[test]
fn empty_directory_removal() {
    assert!(is_git_dir_name(Some(".git")));
    assert!(!is_git_dir_name(Some(".github")));
    assert!(!is_git_dir_name(None));
    assert!(dir_removable(&[], false));
    assert!(!dir_removable(&[], true));
    assert!(dir_removable(&[ChildOutcome::RemovedDir, ChildOutcome::RemovedDir], false));
    assert!(!dir_removable(&[ChildOutcome::RemovedDir, ChildOutcome::KeptDir], false));
    assert!(!dir_removable(&[ChildOutcome::File], false));
    assert!(!dir_removable(&[ChildOutcome::GitDir], false));
}

#[test]
fn pull_steps_follow_the_decision_order() {
    let a = |f, u| MergeAnalysis { fast_forward: f, up_to_date: u };
    let mut dirty = clean();
    dirty.wt_modified = true;
    // Equal commits end the pull before anything else is read.
    assert_eq!(next_pull_step(true, None, None), Ok(PullStep::UpToDate));
    assert_eq!(next_pull_step(true, Some(&[dirty]), Some(a(false, false))), Ok(PullStep::UpToDate));
    assert_eq!(next_pull_step(false, None, None), Ok(PullStep::ReadStatuses));
    assert_eq!(
        next_pull_step(false, Some(&[clean(), dirty]), None),
        Err(PullError::UncommittedChanges)
    );
    assert_eq!(
        next_pull_step(false, Some(&[dirty]), Some(a(true, false))),
        Err(PullError::UncommittedChanges)
    );
    assert_eq!(next_pull_step(false, Some(&[clean()]), None), Ok(PullStep::AnalyseMerge));
    assert_eq!(next_pull_step(false, Some(&[]), Some(a(true, false))), Ok(PullStep::FastForward));
    assert_eq!(next_pull_step(false, Some(&[]), Some(a(false, true))), Ok(PullStep::UpToDate));
    assert_eq!(
        next_pull_step(false, Some(&[]), Some(a(false, false))),
        Err(PullError::ManualMergeRequired)
    );
}
