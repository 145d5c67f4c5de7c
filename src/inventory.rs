//! From porcelain entries to `WorktreeInfo` records: stale entries (gone
//! from disk) and the bare superproject are dropped, the main worktree is
//! recognised by its canonical path, and every record gets a fresh id.

use vstd::prelude::*;
use crate::paths::{file_name, file_name_of, is_absolute, join_of, lemma_file_name_of_join, plain_name};
use crate::porcelain::{
    entry_views, opt_view, parse_worktree_porcelain, porcelain_entries, EntryModel, PorcelainEntry,
};
use crate::system::{canonicalize_path, new_uuid, path_exists};
use crate::text::{chars_of, copy_range, has_prefix, slice_eq, starts_with, string_of};
use crate::types::WorktreeInfo;

verus! {

/// An entry is listed when it still resolves on disk and is not bare.
pub open spec fn keeps(e: EntryModel, r: Option<String>) -> bool {
    r is Some && !e.bare
}

/// The indices below `n` of the listed entries, in order.
pub open spec fn kept_upto(es: Seq<EntryModel>, rs: Seq<Option<String>>, n: int) -> Seq<int>
    decreases n,
{
    if n <= 0 {
        Seq::empty()
    } else {
        let s = kept_upto(es, rs, n - 1);
        if keeps(es[n - 1], rs[n - 1]) {
            s.push(n - 1)
        } else {
            s
        }
    }
}

/// A branch ref with its `refs/heads/` prefix removed.
pub open spec fn strip_heads(b: Seq<char>) -> Seq<char> {
    if has_prefix(b, "refs/heads/"@) {
        b.subrange(11, b.len() as int)
    } else {
        b
    }
}

/// The main worktree is called `main`; any other is called by the final
/// component of its listed path, or `worktree` when that has none.
pub open spec fn display_name(listed: Seq<char>, is_main: bool) -> Seq<char> {
    if is_main {
        "main"@
    } else {
        match file_name_of(listed) {
            Some(n) => n,
            None => "worktree"@,
        }
    }
}

/// `w` is the record made from entry `e` resolved to `p`, with id `id`.
pub open spec fn describes(w: WorktreeInfo, e: EntryModel, p: Seq<char>, main: Seq<char>, id: Seq<char>) -> bool {
    &&& w.id@ == id
    &&& w.path@ == p
    &&& w.is_main == (p == main)
    &&& w.name@ == display_name(e.path, p == main)
    &&& opt_view(w.branch) == match e.branch {
        Some(b) => Some(strip_heads(b)),
        None => None,
    }
    &&& opt_view(w.commit) == e.head
    &&& w.is_locked == e.locked
    &&& opt_view(w.lock_reason) == e.lock_reason
    &&& w.startup_script is None
    &&& !w.script_executed
    &&& w.created_at == 0
}

/// `out` is the inventory made from entries `es`, whose canonical paths on
/// disk are `rs` (`None`: gone), with main path `main` and ids `ids`.
pub open spec fn assembled(
    out: Seq<WorktreeInfo>,
    es: Seq<EntryModel>,
    main: Seq<char>,
    rs: Seq<Option<String>>,
    ids: Seq<String>,
) -> bool {
    let k = kept_upto(es, rs, es.len() as int);
    &&& out.len() == k.len()
    &&& forall|j: int|
        0 <= j < out.len() ==> describes(#[trigger] out[j], es[k[j]], rs[k[j]]->0@, main, ids[k[j]]@)
}

/// `ws` is the inventory of listing `text`, for some absolute main path,
/// some answers of the disk and some ids.
pub open spec fn listed_from(ws: Seq<WorktreeInfo>, text: Seq<char>) -> bool {
    exists|main: Seq<char>, rs: Seq<Option<String>>, ids: Seq<String>|
        is_absolute(main) && rs.len() == porcelain_entries(text).len() && ids.len()
            == porcelain_entries(text).len() && #[trigger] assembled(
            ws,
            porcelain_entries(text),
            main,
            rs,
            ids,
        )
}

fn clone_opt(o: &Option<String>) -> (r: Option<String>)
    ensures
        r == *o,
{
    match o {
        Some(s) => Some(s.clone()),
        None => None,
    }
}

fn strip_heads_exec(b: &String) -> (r: String)
    ensures
        r@ == strip_heads(b@),
{
    let bc = chars_of(b.as_str());
    let p = chars_of("refs/heads/");
    proof {
        reveal_strlit("refs/heads/");
    }
    if starts_with(bc.as_slice(), p.as_slice()) {
        string_of(copy_range(bc.as_slice(), 11, bc.len()).as_slice())
    } else {
        b.clone()
    }
}

fn name_for(listed: &String, is_main: bool) -> (r: String)
    ensures
        r@ == display_name(listed@, is_main),
{
    if is_main {
        return "main".to_string();
    }
    let lc = chars_of(listed.as_str());
    match file_name(lc.as_slice()) {
        Some(n) => string_of(n.as_slice()),
        None => "worktree".to_string(),
    }
}

/// Builds the inventory from entries and what the disk said of each (see
/// `assembled`).
pub fn assemble_worktrees(
    entries: &Vec<PorcelainEntry>,
    main_path: &str,
    resolved: &Vec<Option<String>>,
    ids: &Vec<String>,
) -> (r: Vec<WorktreeInfo>)
    requires
        resolved@.len() == entries@.len(),
        ids@.len() == entries@.len(),
    ensures
        assembled(r@, entry_views(entries@), main_path@, resolved@, ids@),
{
    let ghost es = entry_views(entries@);
    let mc = chars_of(main_path);
    let mut out: Vec<WorktreeInfo> = Vec::new();
    let mut i: usize = 0;
    while i < entries.len()
        invariant
            i <= entries.len(),
            resolved@.len() == entries@.len(),
            ids@.len() == entries@.len(),
            es == entry_views(entries@),
            mc@ == main_path@,
            out@.len() == kept_upto(es, resolved@, i as int).len(),
            forall|j: int|
                0 <= j < out@.len() ==> describes(
                    #[trigger] out@[j],
                    es[kept_upto(es, resolved@, i as int)[j]],
                    resolved@[kept_upto(es, resolved@, i as int)[j]]->0@,
                    main_path@,
                    ids@[kept_upto(es, resolved@, i as int)[j]]@,
                ),
        decreases entries.len() - i,
    {
        let e = &entries[i];
        assert(es[i as int] == e@);
        match &resolved[i] {
            Some(p) => {
                if !e.bare {
                    let pc = chars_of(p.as_str());
                    let is_main = slice_eq(pc.as_slice(), mc.as_slice());
                    let branch = match &e.branch {
                        Some(b) => Some(strip_heads_exec(b)),
                        None => None,
                    };
                    let w = WorktreeInfo {
                        id: ids[i].clone(),
                        name: name_for(&e.path, is_main),
                        path: p.clone(),
                        branch,
                        commit: clone_opt(&e.head),
                        is_main,
                        is_locked: e.locked,
                        lock_reason: clone_opt(&e.lock_reason),
                        startup_script: None,
                        script_executed: false,
                        created_at: 0,
                    };
                    out.push(w);
                }
            },
            None => {},
        }
        i = i + 1;
    }
    out
}

/// The worktrees of the repository at `repo_path`, from the porcelain
/// listing that git gave for it. Every path is canonicalized; entries gone
/// from disk and the bare superproject are left out; the entry whose
/// canonical path is the repository's own is the main one. Fails when the
/// repository path, or a listed path that exists, cannot be resolved.
pub fn list_worktrees(porcelain: &str, repo_path: &str) -> (r: Result<Vec<WorktreeInfo>, String>)
    ensures
        r matches Ok(ws) ==> listed_from(ws@, porcelain@),
{
    let main = match canonicalize_path(repo_path) {
        Ok(m) => m,
        Err(e) => return Err(e),
    };
    let entries = parse_worktree_porcelain(porcelain);
    let mut resolved: Vec<Option<String>> = Vec::new();
    let mut ids: Vec<String> = Vec::new();
    let mut i: usize = 0;
    while i < entries.len()
        invariant
            i <= entries.len(),
            is_absolute(main@),
            entry_views(entries@) == porcelain_entries(porcelain@),
            resolved@.len() == i,
            ids@.len() == i,
        decreases entries.len() - i,
    {
        let p = entries[i].path.as_str();
        if path_exists(p) {
            match canonicalize_path(p) {
                Ok(c) => resolved.push(Some(c)),
                Err(e) => return Err(e),
            }
        } else {
            resolved.push(None);
        }
        ids.push(new_uuid());
        i = i + 1;
    }
    let ws = assemble_worktrees(&entries, main.as_str(), &resolved, &ids);
    assert(entry_views(entries@).len() == entries@.len());
    assert(assembled(ws@, porcelain_entries(porcelain@), main@, resolved@, ids@));
    assert(is_absolute(main@));
    assert(resolved@.len() == porcelain_entries(porcelain@).len());
    assert(ids@.len() == porcelain_entries(porcelain@).len());
    assert(listed_from(ws@, porcelain@));
    Ok(ws)
}

} // verus!

verus! {

proof fn lemma_kept_upto(es: Seq<EntryModel>, rs: Seq<Option<String>>, n: int)
    requires
        0 <= n <= es.len(),
        rs.len() == es.len(),
    ensures
        forall|j: int| 0 <= j < kept_upto(es, rs, n).len() ==> {
            let i = #[trigger] kept_upto(es, rs, n)[j];
            0 <= i < n && keeps(es[i], rs[i])
        },
        forall|j1: int, j2: int|
            0 <= j1 < j2 < kept_upto(es, rs, n).len() ==> #[trigger] kept_upto(es, rs, n)[j1]
                < #[trigger] kept_upto(es, rs, n)[j2],
        forall|i: int|
            0 <= i < n && #[trigger] keeps(es[i], rs[i]) ==> exists|j: int|
                0 <= j < kept_upto(es, rs, n).len() && kept_upto(es, rs, n)[j] == i,
    decreases n,
{
    if n > 0 {
        lemma_kept_upto(es, rs, n - 1);
        let s = kept_upto(es, rs, n - 1);
        if keeps(es[n - 1], rs[n - 1]) {
            let t = s.push(n - 1);
            assert(kept_upto(es, rs, n) == t);
            assert(t[s.len() as int] == n - 1);
            assert forall|i: int| 0 <= i < n && #[trigger] keeps(es[i], rs[i]) implies exists|j: int|
                0 <= j < t.len() && t[j] == i by {
                if i < n - 1 {
                    let j = choose|j: int| 0 <= j < s.len() && s[j] == i;
                    assert(t[j] == i);
                } else {
                    assert(t[s.len() as int] == i);
                }
            }
        } else {
            assert(kept_upto(es, rs, n) == s);
            assert forall|i: int| 0 <= i < n && #[trigger] keeps(es[i], rs[i]) implies exists|j: int|
                0 <= j < s.len() && s[j] == i by {
                assert(i < n - 1);
                let j = choose|j: int| 0 <= j < s.len() && s[j] == i;
                assert(s[j] == i);
            }
        }
    }
}

/// The main worktree of an inventory: a record is marked main exactly when
/// its path is the repository's canonical path, and when the listed paths
/// are distinct and the repository itself is listed, exactly one record is
/// marked main.
pub proof fn lemma_exactly_one_main(
    ws: Seq<WorktreeInfo>,
    es: Seq<EntryModel>,
    main: Seq<char>,
    rs: Seq<Option<String>>,
    ids: Seq<String>,
)
    requires
        rs.len() == es.len(),
        ids.len() == es.len(),
        assembled(ws, es, main, rs, ids),
        forall|a: int, b: int|
            0 <= a < es.len() && 0 <= b < es.len() && a != b && keeps(es[a], rs[a]) && keeps(es[b], rs[b])
                ==> #[trigger] rs[a]->0@ != #[trigger] rs[b]->0@,
        exists|i: int| 0 <= i < es.len() && keeps(es[i], rs[i]) && rs[i]->0@ == main,
    ensures
        forall|j: int| 0 <= j < ws.len() ==> (#[trigger] ws[j].is_main <==> ws[j].path@ == main),
        exists|j: int| 0 <= j < ws.len() && ws[j].is_main,
        forall|j1: int, j2: int|
            0 <= j1 < ws.len() && 0 <= j2 < ws.len() && #[trigger] ws[j1].is_main && #[trigger] ws[j2].is_main
                ==> j1 == j2,
{
    let n = es.len() as int;
    let k = kept_upto(es, rs, n);
    lemma_kept_upto(es, rs, n);
    let i = choose|i: int| 0 <= i < es.len() && keeps(es[i], rs[i]) && rs[i]->0@ == main;
    assert(keeps(es[i], rs[i]));
    let j = choose|j: int| 0 <= j < k.len() && k[j] == i;
    assert(describes(ws[j], es[k[j]], rs[k[j]]->0@, main, ids[k[j]]@));
    assert(ws[j].is_main);
    assert forall|j1: int, j2: int|
        0 <= j1 < ws.len() && 0 <= j2 < ws.len() && #[trigger] ws[j1].is_main && #[trigger] ws[j2].is_main
            implies j1 == j2 by {
        assert(describes(ws[j1], es[k[j1]], rs[k[j1]]->0@, main, ids[k[j1]]@));
        assert(describes(ws[j2], es[k[j2]], rs[k[j2]]->0@, main, ids[k[j2]]@));
        if j1 != j2 {
            if j1 < j2 {
                assert(k[j1] < k[j2]);
            } else {
                assert(k[j2] < k[j1]);
            }
            let a = k[j1];
            let b = k[j2];
            assert(keeps(es[a], rs[a]) && keeps(es[b], rs[b]));
            assert(rs[a]->0@ != rs[b]->0@);
        }
    }
    assert forall|j: int| 0 <= j < ws.len() implies (#[trigger] ws[j].is_main <==> ws[j].path@ == main) by {
        assert(describes(ws[j], es[k[j]], rs[k[j]]->0@, main, ids[k[j]]@));
    }
}

/// A worktree created under a plain name `n` inside any folder is listed
/// under that name, unless it is the main worktree.
pub proof fn lemma_created_name_listed(folder: Seq<char>, n: Seq<char>, w: WorktreeInfo, e: EntryModel, p: Seq<char>, main: Seq<char>, id: Seq<char>)
    requires
        plain_name(n),
        e.path == join_of(folder, n),
        describes(w, e, p, main, id),
        p != main,
    ensures
        w.name@ == n,
        !w.is_main,
{
    lemma_file_name_of_join(folder, n);
}

} // verus!
