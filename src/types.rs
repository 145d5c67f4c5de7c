//! The records that describe repositories and their worktrees.

use vstd::prelude::*;

verus! {

/// One checkout of a repository.
#[derive(Debug, Clone, PartialEq, Eq)]
pub struct WorktreeInfo {
    /// Generated afresh each time the inventory is read: not stable.
    pub id: String,
    pub name: String,
    pub path: String,
    /// Absent when the worktree is detached.
    pub branch: Option<String>,
    pub commit: Option<String>,
    pub is_main: bool,
    pub is_locked: bool,
    pub lock_reason: Option<String>,
    pub startup_script: Option<String>,
    pub script_executed: bool,
    pub created_at: i64,
}

fn clone_opt(o: &Option<String>) -> (r: Option<String>)
    ensures
        r == *o,
{
    match o {
        Some(s) => Some(s.clone()),
        None => None,
    }
}

impl WorktreeInfo {
    /// This record again, field by field.
    pub fn copy(&self) -> (r: WorktreeInfo)
        ensures
            r == *self,
    {
        WorktreeInfo {
            id: self.id.clone(),
            name: self.name.clone(),
            path: self.path.clone(),
            branch: clone_opt(&self.branch),
            commit: clone_opt(&self.commit),
            is_main: self.is_main,
            is_locked: self.is_locked,
            lock_reason: clone_opt(&self.lock_reason),
            startup_script: clone_opt(&self.startup_script),
            script_executed: self.script_executed,
            created_at: self.created_at,
        }
    }
}

/// A registered repository with the worktrees last read from it.
#[derive(Debug, Clone, PartialEq, Eq)]
pub struct Repository {
    pub id: String,
    pub path: String,
    pub name: String,
    pub worktrees: Vec<WorktreeInfo>,
    pub last_scanned: i64,
}

/// A branch as the branch listing shows it.
#[derive(Debug, Clone, PartialEq, Eq)]
pub struct BranchInfo {
    pub name: String,
    pub is_current: bool,
    pub is_remote: bool,
}

/// A commit as the log shows it.
#[derive(Debug, Clone, PartialEq, Eq)]
pub struct CommitInfo {
    pub hash: String,
    pub short_hash: String,
    pub message: String,
    pub author: String,
    pub date: i64,
}

/// User preferences kept beside the repositories.
#[derive(Debug, Clone, PartialEq, Eq)]
pub struct AppSettings {
    pub theme_name: String,
    pub color_scheme: String,
    pub auto_refresh: bool,
}

impl Default for AppSettings {
    fn default() -> (r: Self)
        ensures
            r.theme_name@ == "aristar"@,
            r.color_scheme@ == "system"@,
            r.auto_refresh,
    {
        AppSettings {
            theme_name: "aristar".to_string(),
            color_scheme: "system".to_string(),
            auto_refresh: true,
        }
    }
}

/// Persisted worktree metadata of a repository.
#[derive(Debug, Clone, PartialEq, Eq)]
pub struct WorktreeMetadata {
    pub id: String,
    pub repository_id: String,
    pub name: String,
    pub path: String,
    pub branch: Option<String>,
    pub commit: Option<String>,
    pub is_main: bool,
    pub is_locked: bool,
    pub lock_reason: Option<String>,
    pub startup_script: Option<String>,
    pub script_executed: bool,
    pub created_at: i64,
}

/// Everything the repository store file holds.
#[derive(Debug, Clone, PartialEq, Eq)]
pub struct StoreData {
    pub repositories: Vec<Repository>,
    pub settings: AppSettings,
}

impl Default for StoreData {
    fn default() -> (r: Self)
        ensures
            r.repositories@.len() == 0,
            r.settings.auto_refresh,
    {
        StoreData { repositories: Vec::new(), settings: AppSettings::default() }
    }
}

/// The repository store held by the application. Callers that share it
/// between threads wrap it in a lock of their choice.
pub struct AppState {
    pub store: StoreData,
}

impl AppState {
    /// A state holding `store`.
    pub fn new(store: StoreData) -> (r: Self)
        ensures
            r.store == store,
    {
        AppState { store }
    }
}

} // verus!
