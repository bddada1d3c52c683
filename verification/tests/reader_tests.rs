use swagit::{BranchInfo, GitError, GitManager};

fn manager() -> GitManager {
    GitManager::new(true).unwrap()
}

#[test]
fn test_not_git_repo() {
    let r = GitManager::new(false);
    assert!(matches!(r, Err(GitError::NotARepository)));
}

#[test]
fn test_current_branch() {
    let git = manager();
    assert_eq!(git.get_current_branch("main\n"), "main");
    assert_eq!(git.get_current_branch("  feature/x \n"), "feature/x");
    assert_eq!(git.get_current_branch(""), "");
    assert_eq!(git.get_current_branch(" \t\r\n"), "");
}

#[test]
fn test_local_branches_excludes_current() {
    let git = manager();
    let raw = "main abc1234\nfeature def5678\ntopic 9abcdef\n";
    let branches: Vec<BranchInfo> = git.get_local_branches(raw, "main", &Vec::new());
    let names: Vec<&str> = branches.iter().map(|b| b.name.as_str()).collect();
    assert_eq!(names, vec!["feature", "topic"]);
    assert_eq!(branches[0].commit_id, "def5678");
    assert!(branches[0].worktree_path.is_none());
}

#[test]
fn test_local_branches_ignores_malformed_lines() {
    let git = manager();
    let raw = "justonename\nfeature def5678\nthree part line\n\n";
    let branches = git.get_local_branches(raw, "main", &Vec::new());
    assert_eq!(branches.len(), 1);
    assert_eq!(branches[0].name, "feature");
}

#[test]
fn test_local_branches_annotates_worktrees() {
    let git = manager();
    let worktrees = vec![("feature".to_string(), "/work/feature".to_string())];
    let raw = "feature def5678\ntopic 9abcdef\n";
    let branches = git.get_local_branches(raw, "main", &worktrees);
    assert_eq!(branches[0].worktree_path.as_deref(), Some("/work/feature"));
    assert!(branches[1].worktree_path.is_none());
}

#[test]
fn test_worktrees_pairs_paths_with_branches() {
    let git = manager();
    let raw = "worktree /repo\nHEAD abc123\nbranch refs/heads/main\n\nworktree /repo/wt\nHEAD def456\nbranch refs/heads/feature\n";
    let map = git.get_worktrees(Some(raw));
    assert_eq!(
        map,
        vec![
            ("main".to_string(), "/repo".to_string()),
            ("feature".to_string(), "/repo/wt".to_string()),
        ]
    );
}

#[test]
fn test_worktrees_detached_entry_has_no_branch() {
    let git = manager();
    // The middle worktree is detached: no branch line, so no pair for it.
    let raw = "worktree /a\nbranch refs/heads/one\n\nworktree /b\nHEAD abc\n\nworktree /c\nbranch refs/heads/two\n";
    let map = git.get_worktrees(Some(raw));
    assert_eq!(
        map,
        vec![
            ("one".to_string(), "/a".to_string()),
            ("two".to_string(), "/c".to_string()),
        ]
    );
}

#[test]
fn test_worktrees_absent_listing_degrades_to_empty() {
    let git = manager();
    assert!(git.get_worktrees(None).is_empty());
    assert!(git.get_worktrees(Some("")).is_empty());
}

#[test]
fn test_default_branch_from_symbolic_head() {
    let git = manager();
    let r = git.get_default_branch(Some("origin/main\n"), false, false);
    assert_eq!(r.unwrap(), "main");
}

#[test]
fn test_default_branch_probes_conventional_names() {
    let git = manager();
    assert_eq!(git.get_default_branch(None, true, true).unwrap(), "main");
    assert_eq!(git.get_default_branch(None, false, true).unwrap(), "master");
    assert_eq!(git.get_default_branch(Some("  \n"), true, false).unwrap(), "main");
}

#[test]
fn test_default_branch_strips_every_remote_prefix() {
    let git = manager();
    let r = git.get_default_branch(Some("origin/origin/dev\n"), false, false);
    assert_eq!(r.unwrap(), "dev");
    let r = git.get_default_branch(Some("release/origin/2024\n"), false, false);
    assert_eq!(r.unwrap(), "release/2024");
}

#[test]
fn test_worktrees_latest_pair_wins() {
    let git = manager();
    let raw = "worktree /old\nbranch refs/heads/dev\n\nworktree /new\nbranch refs/heads/dev\n";
    let map = git.get_worktrees(Some(raw));
    let branches = git.get_local_branches("dev abc1234\n", "main", &map);
    assert_eq!(branches[0].worktree_path.as_deref(), Some("/new"));
}

#[test]
fn test_default_branch_missing_is_an_error() {
    let git = manager();
    let r = git.get_default_branch(None, false, false);
    assert!(matches!(r, Err(GitError::NoDefaultBranch)));
}

#[test]
fn test_working_tree_dirty() {
    let git = manager();
    assert!(!git.working_tree_dirty(""));
    assert!(git.working_tree_dirty(" M src/lib.rs\n"));
}

#[test]
fn test_remote_configured() {
    let git = manager();
    assert!(!git.remote_configured(""));
    assert!(!git.remote_configured(" \n"));
    assert!(git.remote_configured("origin\n"));
}
