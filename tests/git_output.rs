//! Branch reading, fed with what git prints in each situation.

use aristar_worktrees::git::{get_branches, get_current_branch, git_outcome};
use aristar_worktrees::types::BranchInfo;

fn current(success: bool, stdout: &str, stderr: &str) -> Result<String, String> {
    git_outcome(success, stdout.to_string(), stderr.to_string()).map(|o| get_current_branch(&o))
}

fn branches(listing: &str, head: &str) -> Result<Vec<BranchInfo>, String> {
    let out = git_outcome(true, listing.to_string(), String::new())?;
    let cur = current(true, head, "").ok();
    Ok(get_branches(&out, cur.as_deref()))
}

const NOT_A_REPO: &str = "fatal: not a git repository (or any of the parent directories): .git\n";

#[test]
fn worktree_unit_tests_test_get_current_branch_default() {
    let branch = current(true, "master\n", "");
    assert!(branch.is_ok());
    let branch_name = branch.unwrap();
    assert!(branch_name == "main" || branch_name == "master");
}

#[test]
fn worktree_unit_tests_test_get_current_branch_after_checkout() {
    let branch = current(true, "feature-branch\n", "");
    assert!(branch.is_ok());
    assert_eq!(branch.unwrap(), "feature-branch");
}

#[test]
fn worktree_unit_tests_test_get_current_branch_invalid_repo() {
    let result = current(false, "", NOT_A_REPO);
    assert!(result.is_err());
    assert_eq!(result.unwrap_err(), NOT_A_REPO);
}

#[test]
fn worktree_unit_tests_test_get_branches_default_repo() {
    let branches = branches("master\n", "master\n");
    assert!(branches.is_ok());
    let branches = branches.unwrap();
    assert!(!branches.is_empty());
    assert!(branches.iter().any(|b| b.name == "main" || b.name == "master"));
}

#[test]
fn worktree_unit_tests_test_get_branches_multiple_branches() {
    let branches = branches("bugfix\nfeature-1\nfeature-2\nmaster\n", "master\n");
    assert!(branches.is_ok());
    let branches = branches.unwrap();
    let names: Vec<&str> = branches.iter().map(|b| b.name.as_str()).collect();
    assert!(names.contains(&"feature-1"));
    assert!(names.contains(&"feature-2"));
    assert!(names.contains(&"bugfix"));
}

#[test]
fn worktree_unit_tests_test_get_branches_current_branch_marked() {
    let branches = branches("master\nother-branch\n", "master\n").unwrap();
    let current: Vec<_> = branches.iter().filter(|b| b.is_current).collect();
    assert_eq!(current.len(), 1);
}

#[test]
fn worktree_unit_tests_test_get_branches_local_branches_not_remote() {
    let branches = branches("local-branch\nmaster\n", "master\n").unwrap();
    let local = branches.iter().find(|b| b.name == "local-branch");
    assert!(local.is_some());
    assert!(!local.unwrap().is_remote);
}

#[test]
fn operations_tests_test_get_current_branch_default() {
    let branch = current(true, "main\n", "");
    assert!(branch.is_ok());
    let branch_name = branch.unwrap();
    assert!(branch_name == "main" || branch_name == "master");
}

#[test]
fn operations_tests_test_get_current_branch_after_checkout() {
    let branch = current(true, "feature-branch\n", "");
    assert!(branch.is_ok());
    assert_eq!(branch.unwrap(), "feature-branch");
}

#[test]
fn operations_tests_test_get_current_branch_invalid_repo() {
    let result = current(false, "", "fatal: cannot change to '/nonexistent/path': No such file or directory\n");
    assert!(result.is_err());
}

#[test]
fn operations_tests_test_get_branches_default_repo() {
    let branches = branches("main\n", "main\n");
    assert!(branches.is_ok());
    assert!(!branches.unwrap().is_empty());
}

#[test]
fn operations_tests_test_get_branches_multiple_branches() {
    let branches = branches("bugfix\nfeature-1\nfeature-2\nmain\n", "main\n");
    assert!(branches.is_ok());
    assert!(branches.unwrap().len() >= 4);
}

#[test]
fn operations_tests_test_get_branches_current_branch_marked() {
    let branches = branches("feature-branch\nmain\n", "feature-branch\n");
    assert!(branches.is_ok());
    let branches = branches.unwrap();
    let current = branches.iter().find(|b| b.is_current);
    assert!(current.is_some());
    assert_eq!(current.unwrap().name, "feature-branch");
}

#[test]
fn operations_tests_test_get_branches_local_branches_not_remote() {
    let branches = branches("main\n", "main\n");
    assert!(branches.is_ok());
    for branch in &branches.unwrap() {
        assert!(!branch.is_remote);
    }
}
