use aristar_worktrees::paths::{get_repository_name, join_str};

#[test]
fn worktree_unit_tests_test_get_repository_name_simple_path() {
    let name = get_repository_name("/Users/test/projects/my-repo");
    assert_eq!(name, "my-repo");
}

#[test]
fn worktree_unit_tests_test_get_repository_name_with_trailing_slash() {
    let name = get_repository_name("/Users/test/projects/my-repo/");
    assert!(!name.is_empty());
}

#[test]
fn worktree_unit_tests_test_get_repository_name_root_path() {
    let name = get_repository_name("/");
    assert_eq!(name, "Unknown");
}

#[test]
fn worktree_unit_tests_test_get_repository_name_nested_path() {
    let name = get_repository_name("/very/deeply/nested/path/to/repository");
    assert_eq!(name, "repository");
}

#[test]
fn worktree_unit_tests_test_get_repository_name_with_special_chars() {
    let name = get_repository_name("/path/to/my-awesome_repo.v2");
    assert_eq!(name, "my-awesome_repo.v2");
}

#[test]
fn operations_tests_test_get_repository_name_simple_path() {
    assert_eq!(get_repository_name("/path/to/my-repo"), "my-repo");
}

#[test]
fn operations_tests_test_get_repository_name_nested_path() {
    assert_eq!(
        get_repository_name("/home/user/projects/deep/nested/repo-name"),
        "repo-name"
    );
}

#[test]
fn operations_tests_test_get_repository_name_with_trailing_slash() {
    let result = get_repository_name("/path/to/repo/");
    assert!(!result.is_empty());
}

#[test]
fn operations_tests_test_get_repository_name_root_path() {
    let result = get_repository_name("/");
    assert!(!result.is_empty());
}

#[test]
fn operations_tests_test_get_repository_name_with_special_chars() {
    assert_eq!(
        get_repository_name("/path/to/repo-with_special.chars"),
        "repo-with_special.chars"
    );
}

#[test]
fn repository_name_ignores_trailing_slash_and_dot() {
    assert_eq!(get_repository_name("/path/to/repo/"), "repo");
    assert_eq!(get_repository_name("/path/to/repo/."), "repo");
    assert_eq!(get_repository_name("relative/name"), "name");
}

#[test]
fn repository_name_unknown_without_final_component() {
    assert_eq!(get_repository_name(""), "Unknown");
    assert_eq!(get_repository_name("/path/.."), "Unknown");
    assert_eq!(get_repository_name("."), "Unknown");
}

#[test]
fn join_follows_path_push() {
    assert_eq!(join_str("/a/b", "c"), "/a/b/c");
    assert_eq!(join_str("/a/b/", "c"), "/a/b/c");
    assert_eq!(join_str("/a/b", "/etc"), "/etc");
    assert_eq!(join_str("", "c"), "c");
}
