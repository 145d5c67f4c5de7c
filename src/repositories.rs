//! The repository store: registering and forgetting repositories, and
//! keeping each one's worktree list in step with what git did.

use vstd::prelude::*;
use crate::tasks::first_index;
use crate::text::{chars_of, slice_eq};
use crate::types::{AppState, Repository, WorktreeInfo};

verus! {

/// `a` and `b` hold the same values, worktrees compared by their sequences.
pub open spec fn same_repo(a: Repository, b: Repository) -> bool {
    (Repository { worktrees: a.worktrees, ..b }) == a && a.worktrees@ == b.worktrees@
}

pub open spec fn repo_paths(rs: Seq<Repository>) -> Seq<Seq<char>> {
    rs.map_values(|r: Repository| r.path@)
}

pub open spec fn repo_ids(rs: Seq<Repository>) -> Seq<Seq<char>> {
    rs.map_values(|r: Repository| r.id@)
}

pub open spec fn worktree_paths(ws: Seq<WorktreeInfo>) -> Seq<Seq<char>> {
    ws.map_values(|w: WorktreeInfo| w.path@)
}

/// Some worktree of `r` is at `path`.
pub open spec fn holds_path(r: Repository, path: Seq<char>) -> bool {
    first_index(worktree_paths(r.worktrees@), path) is Some
}

/// The first repository in `rs` with a worktree at `path`.
#[verifier::opaque]
pub open spec fn first_holding(rs: Seq<Repository>, path: Seq<char>) -> Option<int> {
    if exists|i: int| 0 <= i < rs.len() && holds_path(#[trigger] rs[i], path) {
        Some(choose|i: int| 0 <= i < rs.len() && holds_path(#[trigger] rs[i], path) && forall|j: int| 0 <= j < i ==> !holds_path(#[trigger] rs[j], path))
    } else {
        None
    }
}

fn same_text(a: &String, b: &str) -> (r: bool)
    ensures
        r == (a@ == b@),
{
    let ac = chars_of(a.as_str());
    let bc = chars_of(b);
    slice_eq(ac.as_slice(), bc.as_slice())
}

fn find_worktree(ws: &Vec<WorktreeInfo>, path: &str) -> (r: Option<usize>)
    ensures
        match (r, first_index(worktree_paths(ws@), path@)) {
            (Some(i), Some(j)) => i as int == j,
            (None, None) => true,
            _ => false,
        },
        r matches Some(i) ==> i < ws@.len(),
{
    let mut i: usize = 0;
    while i < ws.len()
        invariant
            i <= ws.len(),
            forall|j: int| 0 <= j < i ==> worktree_paths(ws@)[j] != path@,
        decreases ws.len() - i,
    {
        assert(worktree_paths(ws@)[i as int] == ws@[i as int].path@);
        if same_text(&ws[i].path, path) {
            proof {
                let ps = worktree_paths(ws@);
                let k = choose|k: int| 0 <= k < ps.len() && ps[k] == path@ && forall|j: int| 0 <= j < k ==> ps[j] != path@;
                assert(k == i);
            }
            return Some(i);
        }
        i = i + 1;
    }
    None
}

fn find_repo_by(rs: &Vec<Repository>, key: &str, by_id: bool) -> (r: Option<usize>)
    ensures
        match (r, first_index(if by_id { repo_ids(rs@) } else { repo_paths(rs@) }, key@)) {
            (Some(i), Some(j)) => i as int == j,
            (None, None) => true,
            _ => false,
        },
        r matches Some(i) ==> i < rs@.len(),
{
    let ghost keys = if by_id { repo_ids(rs@) } else { repo_paths(rs@) };
    let mut i: usize = 0;
    while i < rs.len()
        invariant
            i <= rs.len(),
            keys == if by_id { repo_ids(rs@) } else { repo_paths(rs@) },
            forall|j: int| 0 <= j < i ==> keys[j] != key@,
        decreases rs.len() - i,
    {
        let hit = if by_id { same_text(&rs[i].id, key) } else { same_text(&rs[i].path, key) };
        assert(hit == (keys[i as int] == key@));
        if hit {
            proof {
                let k = choose|k: int| 0 <= k < keys.len() && keys[k] == key@ && forall|j: int| 0 <= j < k ==> keys[j] != key@;
                assert(k == i);
            }
            return Some(i);
        }
        i = i + 1;
    }
    None
}

fn find_holding(rs: &Vec<Repository>, path: &str) -> (r: Option<(usize, usize)>)
    ensures
        match (r, first_holding(rs@, path@)) {
            (Some((i, k)), Some(j)) => i as int == j && first_index(worktree_paths(rs@[j].worktrees@), path@)
                == Some(k as int) && k < rs@[j].worktrees@.len(),
            (None, None) => true,
            _ => false,
        },
        r matches Some((i, k)) ==> i < rs@.len() && k < rs@[i as int].worktrees@.len()
            && first_index(worktree_paths(rs@[i as int].worktrees@), path@) == Some(k as int),
{
    let mut i: usize = 0;
    while i < rs.len()
        invariant
            i <= rs.len(),
            forall|j: int| 0 <= j < i ==> !holds_path(#[trigger] rs@[j], path@),
        decreases rs.len() - i,
    {
        match find_worktree(&rs[i].worktrees, path) {
            Some(k) => {
                proof {
                    reveal(first_holding);
                    assert(holds_path(rs@[i as int], path@));
                    let c = choose|c: int| 0 <= c < rs@.len() && holds_path(#[trigger] rs@[c], path@) && forall|j: int| 0 <= j < c ==> !holds_path(#[trigger] rs@[j], path@);
                    assert(c == i);
                }
                return Some((i, k));
            },
            None => {},
        }
        i = i + 1;
    }
    reveal(first_holding);
    None
}

impl Repository {
    /// Duplicates the repository, field by field.
    pub fn copy(&self) -> (r: Repository)
        ensures
            same_repo(r, *self),
    {
        let mut ws: Vec<WorktreeInfo> = Vec::new();
        let mut i: usize = 0;
        while i < self.worktrees.len()
            invariant
                i <= self.worktrees.len(),
                ws@ == self.worktrees@.subrange(0, i as int),
            decreases self.worktrees.len() - i,
        {
            ws.push(self.worktrees[i].copy());
            assert(self.worktrees@.subrange(0, i + 1) == self.worktrees@.subrange(0, i as int).push(self.worktrees@[i as int]));
            i = i + 1;
        }
        assert(self.worktrees@.subrange(0, self.worktrees.len() as int) == self.worktrees@);
        Repository {
            id: self.id.clone(),
            path: self.path.clone(),
            name: self.name.clone(),
            worktrees: ws,
            last_scanned: self.last_scanned,
        }
    }
}

/// All registered repositories, in order.
pub fn get_repositories(state: &AppState) -> (r: Vec<Repository>)
    ensures
        r@.len() == state.store.repositories@.len(),
        forall|i: int| 0 <= i < r@.len() ==> same_repo(#[trigger] r@[i], state.store.repositories@[i]),
{
    let mut out: Vec<Repository> = Vec::new();
    let mut i: usize = 0;
    while i < state.store.repositories.len()
        invariant
            i <= state.store.repositories.len(),
            out@.len() == i,
            forall|j: int| 0 <= j < i ==> same_repo(#[trigger] out@[j], state.store.repositories@[j]),
        decreases state.store.repositories.len() - i,
    {
        out.push(state.store.repositories[i].copy());
        i = i + 1;
    }
    out
}

/// Registers `repo` unless a repository with the same path is already
/// registered.
pub fn add_repository(state: &mut AppState, repo: Repository) -> (r: Result<(), String>)
    ensures
        first_index(repo_paths(old(state).store.repositories@), repo.path@) is Some ==> (r matches Err(e)
            && e@ == "Repository already added"@ && *final(state) == *old(state)),
        first_index(repo_paths(old(state).store.repositories@), repo.path@) is None ==> r is Ok
            && final(state).store.settings == old(state).store.settings
            && final(state).store.repositories@ == old(state).store.repositories@.push(repo),
{
    if find_repo_by(&state.store.repositories, repo.path.as_str(), false).is_some() {
        return Err("Repository already added".to_string());
    }
    state.store.repositories.push(repo);
    Ok(())
}

/// The repositories of `rs` whose id is not `id`, in order.
pub open spec fn without_repo(rs: Seq<Repository>, id: Seq<char>) -> Seq<Repository>
    decreases rs.len(),
{
    if rs.len() == 0 {
        Seq::empty()
    } else {
        let s = without_repo(rs.drop_last(), id);
        if rs.last().id@ == id {
            s
        } else {
            s.push(rs.last())
        }
    }
}

/// Forgets every repository with id `id`; worktrees on disk stay.
pub fn remove_repository(state: &mut AppState, id: &str)
    ensures
        final(state).store.repositories@ == without_repo(old(state).store.repositories@, id@),
        final(state).store.settings == old(state).store.settings,
{
    let mut rs: Vec<Repository> = Vec::new();
    std::mem::swap(&mut state.store.repositories, &mut rs);
    let ghost all = rs@;
    let mut kept: Vec<Repository> = Vec::new();
    let ghost mut d: int = 0;
    while rs.len() > 0
        invariant
            0 <= d <= all.len(),
            rs@ == all.subrange(d, all.len() as int),
            kept@ == without_repo(all.subrange(0, d), id@),
        decreases rs.len(),
    {
        let r = rs.remove(0);
        proof {
            assert(r == all[d]);
            assert(all.subrange(0, d + 1).drop_last() =~= all.subrange(0, d));
        }
        if !same_text(&r.id, id) {
            kept.push(r);
        }
        proof {
            d = d + 1;
            assert(rs@ =~= all.subrange(d, all.len() as int));
        }
    }
    assert(all.subrange(0, all.len() as int) == all);
    state.store.repositories = kept;
}

/// The path of the first repository with id `id`.
pub fn repository_path(state: &AppState, id: &str) -> (r: Option<String>)
    ensures
        match first_index(repo_ids(state.store.repositories@), id@) {
            Some(i) => r == Some(state.store.repositories@[i].path),
            None => r is None,
        },
{
    match find_repo_by(&state.store.repositories, id, true) {
        Some(i) => Some(state.store.repositories[i].path.clone()),
        None => None,
    }
}

/// Replaces the worktree list of repository `id` with `worktrees`, read
/// at `now`, and returns the repository.
pub fn refresh_repository(state: &mut AppState, id: &str, worktrees: Vec<WorktreeInfo>, now: i64) -> (r: Result<Repository, String>)
    ensures
        match first_index(repo_ids(old(state).store.repositories@), id@) {
            None => (r matches Err(e) && e@ == "Repository not found"@) && *final(state) == *old(state),
            Some(i) => {
                let after = final(state).store.repositories@[i];
                &&& final(state).store.repositories@ == old(state).store.repositories@.update(i, after)
                &&& final(state).store.settings == old(state).store.settings
                &&& after == (Repository { worktrees: after.worktrees, last_scanned: now, ..old(state).store.repositories@[i] })
                &&& after.worktrees@ == worktrees@
                &&& r matches Ok(c) && same_repo(c, after)
            },
        },
{
    let i = match find_repo_by(&state.store.repositories, id, true) {
        Some(i) => i,
        None => return Err("Repository not found".to_string()),
    };
    state.store.repositories[i].worktrees = worktrees;
    state.store.repositories[i].last_scanned = now;
    assert(state.store.repositories@ =~= old(state).store.repositories@.update(i as int, state.store.repositories@[i as int]));
    Ok(state.store.repositories[i].copy())
}

/// Adds a newly created worktree to the repository registered at
/// `repo_path`, unless that repository already lists its path.
pub fn record_created_worktree(state: &mut AppState, repo_path: &str, w: WorktreeInfo)
    ensures
        match first_index(repo_paths(old(state).store.repositories@), repo_path@) {
            None => *final(state) == *old(state),
            Some(i) => {
                let before = old(state).store.repositories@[i];
                if holds_path(before, w.path@) {
                    *final(state) == *old(state)
                } else {
                    let after = final(state).store.repositories@[i];
                    &&& final(state).store.repositories@ == old(state).store.repositories@.update(i, after)
                    &&& final(state).store.settings == old(state).store.settings
                    &&& after == (Repository { worktrees: after.worktrees, ..before })
                    &&& after.worktrees@ == before.worktrees@.push(w)
                }
            },
        },
{
    let i = match find_repo_by(&state.store.repositories, repo_path, false) {
        Some(i) => i,
        None => return,
    };
    if find_worktree(&state.store.repositories[i].worktrees, w.path.as_str()).is_some() {
        return;
    }
    state.store.repositories[i].worktrees.push(w);
    assert(state.store.repositories@ =~= old(state).store.repositories@.update(i as int, state.store.repositories@[i as int]));
}

/// The worktrees of `ws` not at `path`, in order.
pub open spec fn without_path(ws: Seq<WorktreeInfo>, path: Seq<char>) -> Seq<WorktreeInfo>
    decreases ws.len(),
{
    if ws.len() == 0 {
        Seq::empty()
    } else {
        let s = without_path(ws.drop_last(), path);
        if ws.last().path@ == path {
            s
        } else {
            s.push(ws.last())
        }
    }
}

fn drop_path(ws: &mut Vec<WorktreeInfo>, path: &str)
    ensures
        final(ws)@ == without_path(old(ws)@, path@),
{
    let mut all: Vec<WorktreeInfo> = Vec::new();
    std::mem::swap(ws, &mut all);
    let ghost orig = all@;
    let ghost mut d: int = 0;
    while all.len() > 0
        invariant
            0 <= d <= orig.len(),
            all@ == orig.subrange(d, orig.len() as int),
            ws@ == without_path(orig.subrange(0, d), path@),
        decreases all.len(),
    {
        let w = all.remove(0);
        proof {
            assert(w == orig[d]);
            assert(orig.subrange(0, d + 1).drop_last() =~= orig.subrange(0, d));
        }
        if !same_text(&w.path, path) {
            ws.push(w);
        }
        proof {
            d = d + 1;
            assert(all@ =~= orig.subrange(d, orig.len() as int));
        }
    }
    assert(orig.subrange(0, orig.len() as int) == orig);
}

/// Drops every listed worktree at `path`, in every repository.
pub fn record_removed_worktree(state: &mut AppState, path: &str)
    ensures
        final(state).store.settings == old(state).store.settings,
        final(state).store.repositories@.len() == old(state).store.repositories@.len(),
        forall|i: int|
            0 <= i < final(state).store.repositories@.len() ==> {
                let after = #[trigger] final(state).store.repositories@[i];
                let before = old(state).store.repositories@[i];
                after == (Repository { worktrees: after.worktrees, ..before })
                    && after.worktrees@ == without_path(before.worktrees@, path@)
            },
{
    let n = state.store.repositories.len();
    let mut i: usize = 0;
    while i < n
        invariant
            i <= n,
            n == old(state).store.repositories@.len(),
            state.store.repositories@.len() == n,
            state.store.settings == old(state).store.settings,
            forall|j: int|
                0 <= j < n ==> {
                    let after = #[trigger] state.store.repositories@[j];
                    let before = old(state).store.repositories@[j];
                    if j < i {
                        after == (Repository { worktrees: after.worktrees, ..before })
                            && after.worktrees@ == without_path(before.worktrees@, path@)
                    } else {
                        after == before
                    }
                },
        decreases n - i,
    {
        drop_path(&mut state.store.repositories[i].worktrees, path);
        i = i + 1;
    }
}

/// The listed worktree at `path` in the first repository that has one,
/// replaced by `w` (after a rename, `w` is the moved worktree).
pub fn record_renamed_worktree(state: &mut AppState, old_path: &str, w: WorktreeInfo)
    ensures
        match first_holding(old(state).store.repositories@, old_path@) {
            None => *final(state) == *old(state),
            Some(i) => {
                let before = old(state).store.repositories@[i];
                let after = final(state).store.repositories@[i];
                let k = first_index(worktree_paths(before.worktrees@), old_path@)->0;
                &&& final(state).store.repositories@ == old(state).store.repositories@.update(i, after)
                &&& final(state).store.settings == old(state).store.settings
                &&& after == (Repository { worktrees: after.worktrees, ..before })
                &&& after.worktrees@ == before.worktrees@.update(k, w)
            },
        },
{
    let (i, k) = match find_holding(&state.store.repositories, old_path) {
        Some(p) => p,
        None => return,
    };
    replace_worktree(&mut state.store.repositories[i], k, w);
    assert(state.store.repositories@ =~= old(state).store.repositories@.update(i as int, state.store.repositories@[i as int]));
}

fn replace_worktree(repo: &mut Repository, k: usize, w: WorktreeInfo)
    requires
        k < old(repo).worktrees@.len(),
    ensures
        *final(repo) == (Repository { worktrees: final(repo).worktrees, ..*old(repo) }),
        final(repo).worktrees@ == old(repo).worktrees@.update(k as int, w),
{
    repo.worktrees.set(k, w);
}

fn set_lock(repo: &mut Repository, k: usize, locked: bool, reason: Option<String>)
    requires
        k < old(repo).worktrees@.len(),
    ensures
        *final(repo) == (Repository { worktrees: final(repo).worktrees, ..*old(repo) }),
        final(repo).worktrees@ == old(repo).worktrees@.update(
            k as int,
            (WorktreeInfo { is_locked: locked, lock_reason: if locked { reason } else { None }, ..old(repo).worktrees@[k as int] }),
        ),
{
    let ghost r = if locked { reason } else { None };
    repo.worktrees[k].is_locked = locked;
    repo.worktrees[k].lock_reason = if locked { reason } else { None };
    assert(repo.worktrees@ =~= old(repo).worktrees@.update(
        k as int,
        (WorktreeInfo { is_locked: locked, lock_reason: r, ..old(repo).worktrees@[k as int] }),
    ));
}

/// Marks the listed worktree at `path` (in the first repository that has
/// one) locked with `reason`, or unlocked without a reason.
pub fn record_lock(state: &mut AppState, path: &str, locked: bool, reason: Option<String>)
    ensures
        match first_holding(old(state).store.repositories@, path@) {
            None => *final(state) == *old(state),
            Some(i) => {
                let before = old(state).store.repositories@[i];
                let after = final(state).store.repositories@[i];
                let k = first_index(worktree_paths(before.worktrees@), path@)->0;
                &&& final(state).store.repositories@ == old(state).store.repositories@.update(i, after)
                &&& final(state).store.settings == old(state).store.settings
                &&& after == (Repository { worktrees: after.worktrees, ..before })
                &&& after.worktrees@ == before.worktrees@.update(
                    k,
                    (WorktreeInfo { is_locked: locked, lock_reason: if locked { reason } else { None }, ..before.worktrees@[k] }),
                )
            },
        },
{
    let (i, k) = match find_holding(&state.store.repositories, path) {
        Some(p) => p,
        None => return,
    };
    set_lock(&mut state.store.repositories[i], k, locked, reason);
    assert(state.store.repositories@ =~= old(state).store.repositories@.update(i as int, state.store.repositories@[i as int]));
}

} // verus!
