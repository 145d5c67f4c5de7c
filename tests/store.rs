use aristar_worktrees::repositories::{
    add_repository, get_repositories, record_created_worktree, record_lock, record_removed_worktree,
    record_renamed_worktree, refresh_repository, remove_repository, repository_path,
};
use aristar_worktrees::types::{AppSettings, AppState, Repository, StoreData, WorktreeInfo};

fn repo(id: &str, path: &str) -> Repository {
    Repository {
        id: id.to_string(),
        path: path.to_string(),
        name: "r".to_string(),
        worktrees: vec![],
        last_scanned: 0,
    }
}

fn wt(path: &str) -> WorktreeInfo {
    WorktreeInfo {
        id: format!("id{}", path),
        name: "w".to_string(),
        path: path.to_string(),
        branch: None,
        commit: None,
        is_main: false,
        is_locked: false,
        lock_reason: None,
        startup_script: None,
        script_executed: false,
        created_at: 0,
    }
}

#[test]
fn default_store_is_empty_with_default_settings() {
    let s = StoreData::default();
    assert!(s.repositories.is_empty());
    assert_eq!(s.settings, AppSettings::default());
    assert_eq!(s.settings.theme_name, "aristar");
    assert_eq!(s.settings.color_scheme, "system");
    assert!(s.settings.auto_refresh);
}

#[test]
fn repositories_are_added_once_and_removed() {
    let mut state = AppState::new(StoreData::default());
    assert_eq!(add_repository(&mut state, repo("a", "/p/a")), Ok(()));
    assert_eq!(add_repository(&mut state, repo("b", "/p/b")), Ok(()));
    assert_eq!(
        add_repository(&mut state, repo("c", "/p/a")),
        Err("Repository already added".to_string())
    );
    assert_eq!(get_repositories(&state).len(), 2);
    assert_eq!(repository_path(&state, "b"), Some("/p/b".to_string()));
    remove_repository(&mut state, "a");
    let rs = get_repositories(&state);
    assert_eq!(rs.len(), 1);
    assert_eq!(rs[0].id, "b");
    assert_eq!(repository_path(&state, "a"), None);
}

#[test]
fn refresh_replaces_the_worktree_list() {
    let mut state = AppState::new(StoreData::default());
    add_repository(&mut state, repo("a", "/p/a")).unwrap();
    let r = refresh_repository(&mut state, "a", vec![wt("/p/a"), wt("/w/1")], 77).unwrap();
    assert_eq!(r.worktrees.len(), 2);
    assert_eq!(r.last_scanned, 77);
    assert_eq!(
        refresh_repository(&mut state, "zz", vec![], 1),
        Err("Repository not found".to_string())
    );
}

#[test]
fn worktree_records_follow_operations() {
    let mut state = AppState::new(StoreData::default());
    add_repository(&mut state, repo("a", "/p/a")).unwrap();
    add_repository(&mut state, repo("b", "/p/b")).unwrap();
    record_created_worktree(&mut state, "/p/a", wt("/w/1"));
    record_created_worktree(&mut state, "/p/a", wt("/w/1"));
    record_created_worktree(&mut state, "/p/b", wt("/w/2"));
    record_created_worktree(&mut state, "/p/none", wt("/w/3"));
    let rs = get_repositories(&state);
    assert_eq!(rs[0].worktrees.len(), 1);
    assert_eq!(rs[1].worktrees.len(), 1);
    record_lock(&mut state, "/w/1", true, Some("busy".to_string()));
    let w = &get_repositories(&state)[0].worktrees[0];
    assert!(w.is_locked);
    assert_eq!(w.lock_reason, Some("busy".to_string()));
    record_lock(&mut state, "/w/1", false, Some("ignored".to_string()));
    let w = &get_repositories(&state)[0].worktrees[0];
    assert!(!w.is_locked);
    assert_eq!(w.lock_reason, None);
    record_renamed_worktree(&mut state, "/w/2", wt("/w/2-renamed"));
    assert_eq!(get_repositories(&state)[1].worktrees[0].path, "/w/2-renamed");
    record_removed_worktree(&mut state, "/w/1");
    assert!(get_repositories(&state)[0].worktrees.is_empty());
    assert_eq!(get_repositories(&state)[1].worktrees.len(), 1);
}
