use aristar_worktrees::security::{
    check_command_text, confine_to_bases, decide_path, get_allowed_worktree_bases, validate_custom_command,
    validate_path_within_bases,
};

fn text(p: &std::path::Path) -> String {
    p.to_string_lossy().to_string()
}

#[test]
fn test_validate_custom_command_rejects_relative_path() {
    let result = validate_custom_command("vim");
    assert!(result.is_err());
    assert!(result.unwrap_err().contains("absolute path"));
}

#[test]
fn test_validate_custom_command_rejects_dot_relative_path() {
    let result = validate_custom_command("./my-editor");
    assert!(result.is_err());
    assert!(result.unwrap_err().contains("absolute path"));
}

#[test]
fn test_validate_custom_command_rejects_unknown_location() {
    let result = validate_custom_command("/tmp/evil-script");
    assert!(result.is_err());
    assert!(result.unwrap_err().contains("must be in one of"));
}

#[test]
fn test_validate_custom_command_rejects_home_directory() {
    let result = validate_custom_command("/Users/attacker/evil");
    assert!(result.is_err());
}

#[test]
fn test_validate_custom_command_rejects_pipe_injection() {
    let result = validate_custom_command("/usr/bin/cat | rm -rf /");
    assert!(result.is_err());
    assert!(result.unwrap_err().contains("forbidden characters"));
}

#[test]
fn test_validate_custom_command_rejects_semicolon_injection() {
    let result = validate_custom_command("/usr/bin/echo; rm -rf /");
    assert!(result.is_err());
    assert!(result.unwrap_err().contains("forbidden characters"));
}

#[test]
fn test_validate_custom_command_rejects_ampersand_injection() {
    let result = validate_custom_command("/usr/bin/echo && rm -rf /");
    assert!(result.is_err());
    assert!(result.unwrap_err().contains("forbidden characters"));
}

#[test]
fn test_validate_custom_command_rejects_backtick_injection() {
    let result = validate_custom_command("/usr/bin/echo `rm -rf /`");
    assert!(result.is_err());
    assert!(result.unwrap_err().contains("forbidden characters"));
}

#[test]
fn test_validate_custom_command_rejects_dollar_injection() {
    let result = validate_custom_command("/usr/bin/echo $(rm -rf /)");
    assert!(result.is_err());
    assert!(result.unwrap_err().contains("forbidden characters"));
}

#[test]
fn test_validate_custom_command_rejects_newline_injection() {
    let result = validate_custom_command("/usr/bin/echo\nrm -rf /");
    assert!(result.is_err());
    assert!(result.unwrap_err().contains("forbidden characters"));
}

#[test]
fn test_validate_custom_command_rejects_redirect_injection() {
    let result = validate_custom_command("/usr/bin/echo > /etc/passwd");
    assert!(result.is_err());
    assert!(result.unwrap_err().contains("forbidden characters"));
}

#[test]
fn test_validate_custom_command_rejects_nonexistent_path() {
    let result = validate_custom_command("/usr/bin/nonexistent-binary-12345");
    assert!(result.is_err());
    assert!(result.unwrap_err().contains("not found"));
}

#[test]
fn test_validate_custom_command_accepts_valid_usr_bin() {
    let result = validate_custom_command("/usr/bin/env");
    assert!(result.is_ok(), "Expected Ok but got: {:?}", result);
}

#[test]
fn command_text_errors_are_exact() {
    assert_eq!(
        check_command_text("vim"),
        Err("Custom command must be an absolute path".to_string())
    );
    assert_eq!(
        check_command_text("/tmp/evil"),
        Err("Custom command must be in one of: [\"/usr/bin/\", \"/usr/local/bin/\", \"/opt/homebrew/bin/\", \"/Applications/\", \"/System/Applications/\"]".to_string())
    );
    assert_eq!(
        check_command_text("/usr/bin/echo; rm -rf /"),
        Err("Custom command contains forbidden characters".to_string())
    );
    assert_eq!(check_command_text("/Applications/Zed.app"), Ok(()));
    assert_eq!(
        validate_custom_command("/usr/bin/nonexistent-binary-12345"),
        Err("Custom command not found: /usr/bin/nonexistent-binary-12345".to_string())
    );
}

#[test]
fn command_checks_each_forbidden_character() {
    for c in ['|', ';', '&', '$', '`', '(', ')', '{', '}', '\n', '\r', '<', '>'] {
        let cmd = format!("/usr/bin/a{}b", c);
        assert_eq!(
            check_command_text(&cmd),
            Err("Custom command contains forbidden characters".to_string())
        );
    }
}

#[test]
fn test_validate_path_within_bases_allows_nonexistent_in_base() {
    let temp = tempfile::TempDir::new().unwrap();
    let base = text(temp.path());
    let new_file = format!("{}/new-file.txt", base);
    let result = validate_path_within_bases(&new_file, &vec![base]);
    assert!(result.is_ok(), "Expected Ok for new file in base: {:?}", result);
}

#[test]
fn test_validate_path_within_bases_allows_nonexistent_nested() {
    let temp = tempfile::TempDir::new().unwrap();
    let base = text(temp.path());
    let new_nested = format!("{}/new-dir/sub-dir/file.txt", base);
    let result = validate_path_within_bases(&new_nested, &vec![base]);
    assert!(result.is_ok(), "Expected Ok for new nested path: {:?}", result);
}

#[test]
fn test_validate_path_within_bases_allows_path_in_base() {
    let temp = tempfile::TempDir::new().unwrap();
    let base = text(temp.path());
    let file = tempfile::NamedTempFile::new_in(temp.path()).unwrap();
    let result = validate_path_within_bases(&text(file.path()), &vec![base]);
    assert!(result.is_ok(), "Expected Ok but got: {:?}", result);
}

#[test]
fn test_validate_path_within_bases_rejects_outside_path() {
    let allowed = tempfile::TempDir::new().unwrap();
    let outside = tempfile::TempDir::new().unwrap();
    let file = tempfile::NamedTempFile::new_in(outside.path()).unwrap();
    let result = validate_path_within_bases(&text(file.path()), &vec![text(allowed.path())]);
    assert!(result.is_err());
    assert!(result.unwrap_err().contains("traversal detected"));
}

#[test]
fn test_validate_path_within_bases_rejects_parent_traversal() {
    let temp = tempfile::TempDir::new().unwrap();
    let allowed = tempfile::Builder::new()
        .prefix("allowed")
        .rand_bytes(0)
        .tempdir_in(temp.path())
        .unwrap();
    let base = text(allowed.path());
    let traversal = format!("{}/../../etc/passwd", base);
    let result = validate_path_within_bases(&traversal, &vec![base]);
    assert!(result.is_err(), "Should reject parent traversal");
}

#[test]
fn test_validate_path_within_bases_with_multiple_bases() {
    let base1 = tempfile::TempDir::new().unwrap();
    let base2 = tempfile::TempDir::new().unwrap();
    let outside = tempfile::TempDir::new().unwrap();
    let file1 = tempfile::NamedTempFile::new_in(base1.path()).unwrap();
    let file2 = tempfile::NamedTempFile::new_in(base2.path()).unwrap();
    let file_outside = tempfile::NamedTempFile::new_in(outside.path()).unwrap();
    let bases = vec![text(base1.path()), text(base2.path())];
    assert!(validate_path_within_bases(&text(file1.path()), &bases).is_ok());
    assert!(validate_path_within_bases(&text(file2.path()), &bases).is_ok());
    assert!(validate_path_within_bases(&text(file_outside.path()), &bases).is_err());
}

#[test]
fn validate_path_resolves_missing_suffix_onto_ancestor() {
    let temp = tempfile::TempDir::new().unwrap();
    let allowed = tempfile::Builder::new()
        .prefix("allowed")
        .rand_bytes(0)
        .tempdir_in(temp.path())
        .unwrap();
    let _sub = tempfile::Builder::new()
        .prefix("sub")
        .rand_bytes(0)
        .tempdir_in(allowed.path())
        .unwrap();
    let canonical = std::path::Path::new(&text(allowed.path()))
        .canonicalize()
        .unwrap();
    let base = text(allowed.path());
    let result = validate_path_within_bases(&format!("{}/sub/new.txt", base), &vec![base.clone()]);
    assert_eq!(result, Ok(format!("{}/sub/new.txt", text(&canonical))));
    let escape = format!("{}/../../etc/passwd", base);
    assert_eq!(
        validate_path_within_bases(&escape, &vec![base]),
        Err(format!("Path traversal detected: {} is not within allowed directories", escape))
    );
}

#[test]
fn validate_path_without_bases_refuses_everything() {
    let temp = tempfile::TempDir::new().unwrap();
    let result = validate_path_within_bases(&format!("{}/x", text(temp.path())), &vec![]);
    assert!(result.unwrap_err().contains("traversal detected"));
    assert_eq!(
        validate_path_within_bases("", &vec!["/".to_string()]),
        Err("Path has no parent directory".to_string())
    );
    assert_eq!(
        validate_path_within_bases("relative-missing-file", &vec!["/".to_string()]),
        Err("Cannot find existing ancestor directory".to_string())
    );
}

#[test]
fn confinement_is_by_component() {
    let bases = vec![Some("/tmp/allowed".to_string()), None];
    assert_eq!(
        confine_to_bases("/tmp/allowed/sub/new.txt", &bases, "x"),
        Ok("/tmp/allowed/sub/new.txt".to_string())
    );
    assert_eq!(confine_to_bases("/tmp/allowed", &bases, "x"), Ok("/tmp/allowed".to_string()));
    assert_eq!(
        confine_to_bases("/tmp/allowedX/file", &bases, "x"),
        Err("Path traversal detected: x is not within allowed directories".to_string())
    );
    assert!(confine_to_bases("/etc/passwd", &bases, "x").is_err());
    assert!(confine_to_bases("/", &vec![Some("/".to_string())], "x").is_ok());
}

#[test]
fn test_get_allowed_worktree_bases_not_empty() {
    let bases = get_allowed_worktree_bases();
    assert!(!bases.is_empty(), "Should have at least one allowed base");
}

#[test]
fn test_get_allowed_worktree_bases_includes_aristar_dir() {
    let bases = get_allowed_worktree_bases();
    assert!(bases.iter().any(|p| p.contains("aristar-worktrees")));
}

#[test]
fn test_get_allowed_worktree_bases_includes_home() {
    let bases = get_allowed_worktree_bases();
    if let Some(home) = dirs::home_dir() {
        let home = home.to_string_lossy().to_string();
        assert!(bases.iter().any(|p| *p == home), "Should include home directory");
    }
}

#[test]
fn test_get_allowed_worktree_bases_all_absolute() {
    let bases = get_allowed_worktree_bases();
    for base in bases {
        assert!(std::path::Path::new(&base).is_absolute(), "All bases should be absolute paths: {:?}", base);
    }
}

#[test]
fn missing_suffix_with_dotdot_is_refused() {
    let temp = tempfile::TempDir::new().unwrap();
    let base_dir = tempfile::Builder::new()
        .prefix("base")
        .rand_bytes(0)
        .tempdir_in(temp.path())
        .unwrap();
    let base = text(base_dir.path());
    let escape = format!("{}/x/../../etc/passwd", base);
    assert_eq!(
        validate_path_within_bases(&escape, &vec![base.clone()]),
        Err(format!("Path traversal detected: {} is not within allowed directories", escape))
    );
    let inside = format!("{}/x/../y", base);
    assert!(validate_path_within_bases(&inside, &vec![base]).is_err());
}

#[test]
fn decisions_on_the_disk_answers() {
    let bases = vec![Some("/b".to_string())];
    assert_eq!(
        decide_path("/b/x/new.txt", Some(2), Ok("/b/x".to_string()), &bases),
        Ok("/b/x/new.txt".to_string())
    );
    assert_eq!(
        decide_path("/b/x/y/new.txt", Some(1), Ok("/b".to_string()), &bases),
        Ok("/b/x/y/new.txt".to_string())
    );
    assert_eq!(
        decide_path("/l/secret", Some(2), Ok("/o/secret".to_string()), &bases),
        Err("Path traversal detected: /l/secret is not within allowed directories".to_string())
    );
    assert_eq!(
        decide_path("/l/new/deep", Some(1), Ok("/o".to_string()), &bases),
        Err("Path traversal detected: /l/new/deep is not within allowed directories".to_string())
    );
    assert_eq!(
        decide_path("/b/x/../../etc/passwd", Some(1), Ok("/b".to_string()), &bases),
        Err("Path traversal detected: /b/x/../../etc/passwd is not within allowed directories".to_string())
    );
    assert_eq!(
        decide_path("/b/x/f", Some(2), Err("denied".to_string()), &bases),
        Err("Failed to resolve parent: denied".to_string())
    );
    assert_eq!(
        decide_path("/b/x/f", Some(1), Err("denied".to_string()), &bases),
        Err("Failed to resolve ancestor: denied".to_string())
    );
    assert_eq!(
        decide_path("/b/x/f", Some(3), Err("denied".to_string()), &bases),
        Err("Failed to resolve path: denied".to_string())
    );
    assert_eq!(
        decide_path("rel/f", None, Err(String::new()), &bases),
        Err("Cannot find existing ancestor directory".to_string())
    );
    assert_eq!(
        decide_path("/b/..", Some(1), Ok("/".to_string()), &bases),
        Err("Path has no filename".to_string())
    );
    assert_eq!(
        decide_path("", None, Err(String::new()), &bases),
        Err("Path has no parent directory".to_string())
    );
    assert!(decide_path("/b/f", Some(1), Ok("/b".to_string()), &vec![]).is_err());
}
