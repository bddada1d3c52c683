use swagit::{BranchObservation, BranchStatus, GitError, GitManager, SyncObservations};

fn manager() -> GitManager {
    GitManager::new(true).unwrap()
}

fn clean_run(current: &str) -> SyncObservations {
    SyncObservations {
        status_output: String::new(),
        current_branch: current.to_string(),
        remote_output: "origin\n".to_string(),
        current_has_upstream: false,
        default_branch: "main".to_string(),
        merged_output: String::new(),
        delete_ok: Vec::new(),
        branch_obs: Vec::new(),
    }
}

fn observed(name: &str, counts: &str) -> BranchObservation {
    BranchObservation {
        name: name.to_string(),
        has_remote_ref: true,
        counts_output: Some(counts.to_string()),
        remote_ref_confirmed: true,
        local_tip: Some("abc123\n".to_string()),
        remote_tip: Some("def456\n".to_string()),
    }
}

#[test]
fn test_dirty_tree_reports_only_modified() {
    let git = manager();
    let mut obs = clean_run("feature");
    obs.status_output = " M src/lib.rs\n?? notes.txt\n".to_string();
    obs.current_has_upstream = true;
    obs.merged_output = "  old-topic\n".to_string();
    obs.delete_ok = vec![true];
    obs.branch_obs = vec![observed("topic", "0 3\n")];
    let out = git.sync_branches(&obs).unwrap();
    assert_eq!(out.statuses, vec![BranchStatus::Modified("feature".to_string())]);
    assert!(out.advances.is_empty());
}

#[test]
fn test_sync_with_no_remote() {
    let git = manager();
    let mut obs = clean_run("main");
    obs.remote_output = " \n".to_string();
    let r = git.sync_branches(&obs);
    assert!(matches!(r, Err(GitError::NoRemoteConfigured)));
}

#[test]
fn test_sync_deletes_merged_branch() {
    // Branches `main` (default) and `feature`, `feature` fully merged,
    // user on `main`: the sweep deletes `feature` and reports it merged.
    let git = manager();
    let mut obs = clean_run("main");
    obs.merged_output = "* main\n  feature\n".to_string();
    obs.delete_ok = vec![true];
    obs.branch_obs = vec![observed("feature", "0 0\n")];
    let out = git.sync_branches(&obs).unwrap();
    assert_eq!(out.statuses, vec![BranchStatus::Merged("feature".to_string())]);
    assert!(out.advances.is_empty());
}

#[test]
fn test_sync_does_not_delete_current_branch() {
    // User on `feature`, `feature` fully merged into `main`: the sweep
    // excludes it and step six does not classify it either.
    let git = manager();
    let mut obs = clean_run("feature");
    obs.merged_output = "  main\n* feature\n".to_string();
    obs.branch_obs = vec![observed("main", "0 0\n")];
    let out = git.sync_branches(&obs).unwrap();
    assert_eq!(out.statuses, vec![BranchStatus::UpToDate]);
    assert!(out.advances.is_empty());
}

#[test]
fn test_sweep_excludes_protected_and_current_names() {
    let git = manager();
    let raw = "  main\n  master\n  dev\n  topic\n  keep\n\n";
    let candidates = git.merged_candidates(raw, "dev", "topic");
    assert_eq!(candidates, vec!["keep".to_string()]);
}

#[test]
fn test_failed_deletion_is_not_reported_merged() {
    let git = manager();
    let mut obs = clean_run("main");
    obs.merged_output = "  alpha\n  beta\n  gamma\n".to_string();
    // The attempt on `beta` failed; the one on `gamma` was never made.
    obs.delete_ok = vec![true, false];
    let out = git.sync_branches(&obs).unwrap();
    assert_eq!(out.statuses, vec![BranchStatus::Merged("alpha".to_string())]);
}

#[test]
fn test_deleted_branches_are_not_classified_again() {
    let git = manager();
    let mut obs = clean_run("main");
    obs.merged_output = "  feature\n".to_string();
    obs.delete_ok = vec![true];
    // The observation for the deleted branch would classify as diverged;
    // it must be skipped, the other branch still classified.
    obs.branch_obs = vec![observed("feature", "5 0\n"), observed("topic", "0 0\n")];
    let out = git.sync_branches(&obs).unwrap();
    assert_eq!(
        out.statuses,
        vec![
            BranchStatus::Merged("feature".to_string()),
            BranchStatus::UpToDate,
        ]
    );
}

#[test]
fn test_pull_attempt_is_reported_first() {
    let git = manager();
    let mut obs = clean_run("main");
    obs.current_has_upstream = true;
    obs.merged_output = "  old\n".to_string();
    obs.delete_ok = vec![true];
    obs.branch_obs = vec![observed("topic", "1 0\n")];
    let out = git.sync_branches(&obs).unwrap();
    assert_eq!(
        out.statuses,
        vec![
            BranchStatus::Updated("main".to_string()),
            BranchStatus::Merged("old".to_string()),
            BranchStatus::Diverged("topic".to_string()),
        ]
    );
}

#[test]
fn test_sync_collects_refs_to_advance() {
    let git = manager();
    let mut obs = clean_run("main");
    obs.branch_obs = vec![
        observed("one", "0 2\n"),
        observed("two", "0 0\n"),
        observed("three", "0 7\n"),
    ];
    let out = git.sync_branches(&obs).unwrap();
    assert_eq!(
        out.statuses,
        vec![
            BranchStatus::Updated("one".to_string()),
            BranchStatus::UpToDate,
            BranchStatus::Updated("three".to_string()),
        ]
    );
    assert_eq!(out.advances, vec!["one".to_string(), "three".to_string()]);
}

#[test]
fn test_sync_propagates_the_first_query_failure() {
    let git = manager();
    let mut obs = clean_run("main");
    let mut broken = observed("bad", "0 1\n");
    broken.counts_output = None;
    obs.branch_obs = vec![observed("fine", "0 0\n"), broken];
    let r = git.sync_branches(&obs);
    assert!(matches!(r, Err(GitError::QueryFailed)));
}
