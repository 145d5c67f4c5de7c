use aristar_worktrees::inventory::{assemble_worktrees, list_worktrees};
use aristar_worktrees::porcelain::{parse_worktree_porcelain, PorcelainEntry};

fn entry(path: &str) -> PorcelainEntry {
    PorcelainEntry {
        path: path.to_string(),
        head: None,
        branch: None,
        locked: false,
        lock_reason: None,
        bare: false,
    }
}

#[test]
fn porcelain_blocks_become_entries() {
    let text = "worktree /repo\nHEAD abc\nbranch refs/heads/main\n\nworktree /wt/feature\nHEAD def\ndetached\nlocked busy here\n\nworktree /bare\nbare\n";
    let es = parse_worktree_porcelain(text);
    assert_eq!(es.len(), 3);
    assert_eq!(es[0].path, "/repo");
    assert_eq!(es[0].head, Some("abc".to_string()));
    assert_eq!(es[0].branch, Some("refs/heads/main".to_string()));
    assert!(!es[0].locked);
    assert_eq!(es[1].path, "/wt/feature");
    assert_eq!(es[1].branch, None);
    assert!(es[1].locked);
    assert_eq!(es[1].lock_reason, Some("busy here".to_string()));
    assert!(es[2].bare);
}

#[test]
fn porcelain_without_final_blank_line_and_bare_lock() {
    let es = parse_worktree_porcelain("worktree /a\nlocked\r\n\n\nworktree /b");
    assert_eq!(es.len(), 2);
    assert!(es[0].locked);
    assert_eq!(es[0].lock_reason, None);
    assert_eq!(es[1].path, "/b");
    assert!(parse_worktree_porcelain("").is_empty());
    assert!(parse_worktree_porcelain("HEAD abc\n\n").is_empty());
}

#[test]
fn assembled_inventory_marks_main_and_drops_stale_and_bare() {
    let mut feature = entry("/listed/feature");
    feature.branch = Some("refs/heads/feature".to_string());
    feature.head = Some("def".to_string());
    feature.locked = true;
    feature.lock_reason = Some("why".to_string());
    let mut bare = entry("/listed/bare");
    bare.bare = true;
    let entries = vec![entry("/listed/repo"), feature, entry("/listed/gone"), bare];
    let resolved = vec![
        Some("/real/repo".to_string()),
        Some("/real/feature".to_string()),
        None,
        Some("/real/bare".to_string()),
    ];
    let ids: Vec<String> = vec!["i0".into(), "i1".into(), "i2".into(), "i3".into()];
    let ws = assemble_worktrees(&entries, "/real/repo", &resolved, &ids);
    assert_eq!(ws.len(), 2);
    assert_eq!(ws[0].name, "main");
    assert!(ws[0].is_main);
    assert_eq!(ws[0].path, "/real/repo");
    assert_eq!(ws[0].id, "i0");
    assert_eq!(ws[1].name, "feature");
    assert!(!ws[1].is_main);
    assert_eq!(ws[1].branch, Some("feature".to_string()));
    assert_eq!(ws[1].commit, Some("def".to_string()));
    assert!(ws[1].is_locked);
    assert_eq!(ws[1].lock_reason, Some("why".to_string()));
    assert_eq!(ws[1].id, "i1");
    assert_eq!(ws.iter().filter(|w| w.is_main).count(), 1);
}

#[test]
fn listing_reads_the_disk() {
    let repo = tempfile::TempDir::new().unwrap();
    let other = tempfile::TempDir::new().unwrap();
    let repo_path = repo.path().to_string_lossy().to_string();
    let other_path = other.path().to_string_lossy().to_string();
    let text = format!(
        "worktree {}\nHEAD 1\nbranch refs/heads/master\n\nworktree {}\nHEAD 2\n\nworktree /no/such/dir/anywhere\nHEAD 3\n",
        repo_path, other_path
    );
    let ws = list_worktrees(&text, &repo_path).unwrap();
    assert_eq!(ws.len(), 2);
    let mains: Vec<_> = ws.iter().filter(|w| w.is_main).collect();
    assert_eq!(mains.len(), 1);
    assert_eq!(mains[0].name, "main");
    let canonical = repo.path().canonicalize().unwrap().to_string_lossy().to_string();
    assert_eq!(mains[0].path, canonical);
    assert_eq!(ws[0].branch, Some("master".to_string()));
    assert_ne!(ws[0].id, ws[1].id);
    assert_eq!(ws[0].id.len(), 36);
    assert!(list_worktrees(&text, "/no/such/repo/path").is_err());
}

#[test]
fn integration_tests_test_list_worktrees_single_main() {
    let repo = tempfile::TempDir::new().unwrap();
    let repo_path = repo.path().to_string_lossy().to_string();
    let porcelain = format!("worktree {}\nHEAD 0123456789abcdef\nbranch refs/heads/master\n\n", repo_path);
    let result = list_worktrees(&porcelain, &repo_path);
    assert!(result.is_ok());
    let ws = result.unwrap();
    assert_eq!(ws.len(), 1);
    assert!(ws[0].is_main);
    assert_eq!(ws[0].name, "main");
    assert!(ws[0].branch.is_some());
}
