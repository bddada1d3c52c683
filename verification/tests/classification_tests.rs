use swagit::{BranchObservation, BranchStatus, ClassifyAction, GitError, GitManager};

fn manager() -> GitManager {
    GitManager::new(true).unwrap()
}

fn observed(name: &str, counts: &str) -> BranchObservation {
    BranchObservation {
        name: name.to_string(),
        has_remote_ref: true,
        counts_output: Some(counts.to_string()),
        remote_ref_confirmed: true,
        local_tip: Some("abc123\n".to_string()),
        remote_tip: Some("def456\n".to_string()),
    }
}

#[test]
fn test_in_sync_branch_is_up_to_date() {
    let git = manager();
    let (status, action) = git.check_branch_status(&observed("topic", "0 0\n")).unwrap();
    assert_eq!(status, BranchStatus::UpToDate);
    assert_eq!(action, ClassifyAction::Nothing);
}

#[test]
fn test_ahead_branch_is_diverged() {
    let git = manager();
    let (status, action) = git.check_branch_status(&observed("topic", "3 0\n")).unwrap();
    assert_eq!(status, BranchStatus::Diverged("topic".to_string()));
    assert_eq!(action, ClassifyAction::Nothing);
}

#[test]
fn test_ahead_and_behind_branch_is_diverged() {
    let git = manager();
    let (status, action) = git.check_branch_status(&observed("topic", "2 5\n")).unwrap();
    assert_eq!(status, BranchStatus::Diverged("topic".to_string()));
    assert_eq!(action, ClassifyAction::Nothing);
}

#[test]
fn test_topic_two_ahead_is_diverged() {
    // Local branch `topic`, 2 unpushed commits ahead, 0 behind.
    let git = manager();
    let (status, _) = git.check_branch_status(&observed("topic", "2 0\n")).unwrap();
    assert_eq!(status, BranchStatus::Diverged("topic".to_string()));
}

#[test]
fn test_behind_branch_is_advanced() {
    let git = manager();
    let (status, action) = git.check_branch_status(&observed("topic", "0 4\n")).unwrap();
    assert_eq!(status, BranchStatus::Updated("topic".to_string()));
    assert_eq!(action, ClassifyAction::AdvanceToRemote);
}

#[test]
fn test_behind_branch_already_at_remote_tip_is_up_to_date() {
    // Right after an advance the tips agree: a second classification run
    // reports `UpToDate` and moves nothing.
    let git = manager();
    let mut obs = observed("topic", "0 4\n");
    obs.remote_tip = Some("abc123\n".to_string());
    let (status, action) = git.check_branch_status(&obs).unwrap();
    assert_eq!(status, BranchStatus::UpToDate);
    assert_eq!(action, ClassifyAction::Nothing);
}

#[test]
fn test_behind_branch_with_unconfirmed_remote_is_gone() {
    let git = manager();
    let mut obs = observed("topic", "0 4\n");
    obs.remote_ref_confirmed = false;
    let (status, action) = git.check_branch_status(&obs).unwrap();
    assert_eq!(status, BranchStatus::RemoteGone("topic".to_string()));
    assert_eq!(action, ClassifyAction::Nothing);
}

#[test]
fn test_never_pushed_branch_is_local_only() {
    let git = manager();
    let obs = BranchObservation {
        name: "scratch".to_string(),
        has_remote_ref: false,
        counts_output: None,
        remote_ref_confirmed: false,
        local_tip: None,
        remote_tip: None,
    };
    let (status, action) = git.check_branch_status(&obs).unwrap();
    assert_eq!(status, BranchStatus::LocalOnly("scratch".to_string()));
    assert_eq!(action, ClassifyAction::Nothing);
}

#[test]
fn test_malformed_count_shape_reads_as_remote_gone() {
    let git = manager();
    let (status, _) = git.check_branch_status(&observed("topic", "nonsense\n")).unwrap();
    assert_eq!(status, BranchStatus::RemoteGone("topic".to_string()));
    let (status, _) = git.check_branch_status(&observed("topic", "1 2 3\n")).unwrap();
    assert_eq!(status, BranchStatus::RemoteGone("topic".to_string()));
    let (status, _) = git.check_branch_status(&observed("topic", "\n")).unwrap();
    assert_eq!(status, BranchStatus::RemoteGone("topic".to_string()));
}

#[test]
fn test_malformed_count_numbers_read_as_zero() {
    let git = manager();
    let (status, _) = git.check_branch_status(&observed("topic", "x y\n")).unwrap();
    assert_eq!(status, BranchStatus::UpToDate);
    // A value past the counter's range also reads as zero.
    let (status, _) = git
        .check_branch_status(&observed("topic", "99999999999999999999999999 0\n"))
        .unwrap();
    assert_eq!(status, BranchStatus::UpToDate);
}

#[test]
fn test_count_fields_tolerate_extra_whitespace() {
    let git = manager();
    let (status, _) = git.check_branch_status(&observed("topic", "  0 \t 0 \r\n")).unwrap();
    assert_eq!(status, BranchStatus::UpToDate);
}

#[test]
fn test_failed_count_query_fails_classification() {
    let git = manager();
    let obs = BranchObservation {
        name: "topic".to_string(),
        has_remote_ref: true,
        counts_output: None,
        remote_ref_confirmed: true,
        local_tip: None,
        remote_tip: None,
    };
    let r = git.check_branch_status(&obs);
    assert!(matches!(r, Err(GitError::QueryFailed)));
}

#[test]
fn test_missing_tip_answer_fails_classification() {
    let git = manager();
    let mut obs = observed("topic", "0 1\n");
    obs.local_tip = None;
    let r = git.check_branch_status(&obs);
    assert!(matches!(r, Err(GitError::QueryFailed)));
}
