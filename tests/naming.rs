use aristar_worktrees::naming::{
    format_task_id, generate_task_id, get_aristar_worktrees_base, get_repo_hash, get_store_path,
    get_task_folder_path, get_tasks_base_path, get_tasks_store_path, get_worktree_base_for_repo,
    repo_hash_from_digest, slug_of_lowercase, slugify, slugify_model_id,
};

#[test]
fn test_slugify_basic() {
    assert_eq!(slugify("Hello World"), "hello-world");
}

#[test]
fn test_slugify_with_special_chars() {
    assert_eq!(slugify("Refactor Authentication!"), "refactor-authentication");
}

#[test]
fn test_slugify_multiple_spaces() {
    assert_eq!(slugify("Hello   World"), "hello-world");
}

#[test]
fn test_slugify_numbers() {
    assert_eq!(slugify("Version 2.0 Release"), "version-2-0-release");
}

#[test]
fn test_slugify_model_id_basic() {
    assert_eq!(slugify_model_id("mistral-large-4"), "mistral-large-4");
}

#[test]
fn test_slugify_model_id_with_dots() {
    assert_eq!(slugify_model_id("gpt-4.0-turbo"), "gpt-4-0-turbo");
}

#[test]
fn test_slugify_model_id_preserves_hyphens() {
    assert_eq!(
        slugify_model_id("llama-3-5-instruct-20241022"),
        "llama-3-5-instruct-20241022"
    );
}

#[test]
fn slug_edges() {
    assert_eq!(slugify(""), "");
    assert_eq!(slugify("--- !!! ---"), "");
    assert_eq!(slugify("  Leading and trailing  "), "leading-and-trailing");
    assert_eq!(slug_of_lowercase("a--b__c"), "a-b-c");
    assert_eq!(slugify_model_id("Model/Name"), "model-name");
}

#[test]
fn repo_hash_is_first_four_digest_bytes_in_hex() {
    assert_eq!(get_repo_hash("/Users/test/projects/my-repo"), "26ae0a9d");
    assert_eq!(get_repo_hash(""), "e3b0c442");
    assert_eq!(get_repo_hash("/any/other/path").len(), 8);
    assert_eq!(get_repo_hash("/a"), get_repo_hash("/a"));
    assert_ne!(get_repo_hash("/a"), get_repo_hash("/b"));
    assert_eq!(repo_hash_from_digest(&[0x00, 0x0f, 0xa0, 0xff, 0x12]), "000fa0ff");
}

#[test]
fn managed_layout_paths() {
    assert_eq!(get_aristar_worktrees_base("/home/u"), "/home/u/.aristar-worktrees");
    let root = "/home/u/.aristar-worktrees";
    assert_eq!(get_store_path(root), "/home/u/.aristar-worktrees/store.json");
    assert_eq!(get_tasks_base_path(root), "/home/u/.aristar-worktrees/tasks");
    assert_eq!(get_tasks_store_path(root), "/home/u/.aristar-worktrees/tasks.json");
    assert_eq!(
        get_task_folder_path(root, "a1b2c3d4"),
        "/home/u/.aristar-worktrees/tasks/a1b2c3d4"
    );
    assert_eq!(
        get_worktree_base_for_repo(root, "/Users/test/projects/my-repo"),
        "/home/u/.aristar-worktrees/26ae0a9d"
    );
}

#[test]
fn task_ids_are_eight_hex_digits() {
    assert_eq!(format_task_id(0), "00000000");
    assert_eq!(format_task_id(0x1234_5678_9abc_def0), "9abcdef0");
    assert_eq!(format_task_id(0xffff_ffff), "ffffffff");
    let id = generate_task_id("Test Task");
    assert_eq!(id.len(), 8);
    assert!(id.chars().all(|c| c.is_ascii_hexdigit()));
}
