//! The git side of the worktree lifecycle: the argument lists of each git
//! invocation, the policy choices they carry, and the reading of git's
//! output. Running git is left to the caller, which hands the output back.

use vstd::prelude::*;
use crate::lines::{line_views, lines_of, split_lines};
use crate::paths::{components, is_absolute, join, join_all, join_of, join_range, join_str, path_components, views};
use crate::system::{canonicalize_path, path_exists, path_is_dir};
use crate::text::{chars_of, copy_range, has_prefix, message, slice_eq, starts_with, string_of, trim_chars, trim_text};
use crate::numbers::{decimal_i64, parse_i64};
use crate::types::{BranchInfo, CommitInfo, WorktreeInfo};

verus! {

/// The texts of a list of strings.
pub open spec fn texts(v: Seq<String>) -> Seq<Seq<char>> {
    v.map_values(|s: String| s@)
}

fn owned(t: &str) -> (r: String)
    ensures
        r@ == t@,
{
    t.to_string()
}

fn push_arg(v: &mut Vec<String>, a: String)
    ensures
        texts(final(v)@) == texts(old(v)@).push(a@),
        final(v)@ == old(v)@.push(a),
{
    v.push(a);
    assert(texts(v@) =~= texts(old(v)@).push(a@));
}

/// Branches that removing a worktree never deletes.
pub open spec fn protected_branch(b: Seq<char>) -> bool {
    b == "main"@ || b == "master"@ || b == "develop"@ || b == "development"@
}

pub fn is_protected_branch(b: &str) -> (r: bool)
    ensures
        r == protected_branch(b@),
{
    let c = chars_of(b);
    let m1 = chars_of("main");
    let m2 = chars_of("master");
    let m3 = chars_of("develop");
    let m4 = chars_of("development");
    slice_eq(c.as_slice(), m1.as_slice()) || slice_eq(c.as_slice(), m2.as_slice()) || slice_eq(
        c.as_slice(),
        m3.as_slice(),
    ) || slice_eq(c.as_slice(), m4.as_slice())
}

/// The git invocations that remove a worktree.
pub struct RemovalPlan {
    /// `git worktree remove`, run first; its failure is the operation's.
    pub remove_args: Vec<String>,
    /// `git branch -d|-D`, run afterwards when present; its failure is
    /// ignored, as the worktree is already gone.
    pub branch_args: Option<Vec<String>>,
}

/// Plans removing the worktree at canonical path `path`, whose branch
/// (captured beforehand, when its deletion is wanted) is `branch`. With
/// `force`, `--force` is passed twice: git needs both to remove a locked
/// worktree. A protected branch is never deleted; another is deleted with
/// `-D` under `force` and `-d` otherwise.
pub fn remove_worktree(path: &str, force: bool, branch: Option<String>) -> (r: RemovalPlan)
    ensures
        texts(r.remove_args@) == if force {
            seq!["worktree"@, "remove"@, path@, "--force"@, "--force"@]
        } else {
            seq!["worktree"@, "remove"@, path@]
        },
        match branch {
            Some(b) if !protected_branch(b@) => r.branch_args matches Some(a) && texts(a@) == seq![
                "branch"@,
                if force {
                    "-D"@
                } else {
                    "-d"@
                },
                b@,
            ],
            _ => r.branch_args is None,
        },
{
    let mut args: Vec<String> = Vec::new();
    push_arg(&mut args, owned("worktree"));
    push_arg(&mut args, owned("remove"));
    push_arg(&mut args, owned(path));
    if force {
        push_arg(&mut args, owned("--force"));
        push_arg(&mut args, owned("--force"));
    }
    let branch_args = match branch {
        Some(b) => {
            if is_protected_branch(b.as_str()) {
                None
            } else {
                let mut d: Vec<String> = Vec::new();
                push_arg(&mut d, owned("branch"));
                push_arg(&mut d, if force { owned("-D") } else { owned("-d") });
                push_arg(&mut d, b);
                Some(d)
            }
        },
        None => None,
    };
    RemovalPlan { remove_args: args, branch_args }
}

/// `git worktree lock`, with `--reason` when one is given.
pub fn lock_worktree(path: &str, reason: Option<&str>) -> (r: Vec<String>)
    ensures
        texts(r@) == match reason {
            Some(t) => seq!["worktree"@, "lock"@, path@, "--reason"@, t@],
            None => seq!["worktree"@, "lock"@, path@],
        },
{
    let mut args: Vec<String> = Vec::new();
    push_arg(&mut args, owned("worktree"));
    push_arg(&mut args, owned("lock"));
    push_arg(&mut args, owned(path));
    match reason {
        Some(t) => {
            push_arg(&mut args, owned("--reason"));
            push_arg(&mut args, owned(t));
        },
        None => {},
    }
    args
}

/// `git worktree unlock`.
pub fn unlock_worktree(path: &str) -> (r: Vec<String>)
    ensures
        texts(r@) == seq!["worktree"@, "unlock"@, path@],
{
    let mut args: Vec<String> = Vec::new();
    push_arg(&mut args, owned("worktree"));
    push_arg(&mut args, owned("unlock"));
    push_arg(&mut args, owned(path));
    args
}

/// `git worktree add` at `dest`, checking out `branch`, else `commit`, else
/// git's default.
pub fn worktree_add_args(dest: &str, branch: Option<&str>, commit: Option<&str>) -> (r: Vec<String>)
    ensures
        texts(r@) == match (branch, commit) {
            (Some(b), _) => seq!["worktree"@, "add"@, dest@, b@],
            (None, Some(c)) => seq!["worktree"@, "add"@, dest@, c@],
            (None, None) => seq!["worktree"@, "add"@, dest@],
        },
{
    let mut args: Vec<String> = Vec::new();
    push_arg(&mut args, owned("worktree"));
    push_arg(&mut args, owned("add"));
    push_arg(&mut args, owned(dest));
    match branch {
        Some(b) => push_arg(&mut args, owned(b)),
        None => match commit {
            Some(c) => push_arg(&mut args, owned(c)),
            None => {},
        },
    }
    args
}

/// `git worktree add --detach` at `dest`, from `source` when given. The
/// worktree is always detached, so that many can start from one branch.
pub fn detached_add_args(dest: &str, source: Option<&str>) -> (r: Vec<String>)
    ensures
        texts(r@) == match source {
            Some(x) => seq!["worktree"@, "add"@, dest@, "--detach"@, x@],
            None => seq!["worktree"@, "add"@, dest@, "--detach"@],
        },
{
    let mut args: Vec<String> = Vec::new();
    push_arg(&mut args, owned("worktree"));
    push_arg(&mut args, owned("add"));
    push_arg(&mut args, owned(dest));
    push_arg(&mut args, owned("--detach"));
    match source {
        Some(x) => push_arg(&mut args, owned(x)),
        None => {},
    }
    args
}

/// The path without its final component, as `Path::parent` gives it; `None`
/// for a path with no components.
pub open spec fn parent_of(p: Seq<char>) -> Option<Seq<char>> {
    let c = components(p);
    if c.len() == 0 {
        None
    } else {
        Some(join_all(if is_absolute(p) { "/"@ } else { Seq::empty() }, c.drop_last()))
    }
}

/// The parent of `p` (see `parent_of`).
pub fn parent(p: &[char]) -> (r: Option<Vec<char>>)
    ensures
        match (r, parent_of(p@)) {
            (Some(v), Some(w)) => v@ == w,
            (None, None) => true,
            _ => false,
        },
{
    let c = path_components(p);
    if c.len() == 0 {
        return None;
    }
    let root: Vec<char> = if p.len() > 0 && p[0] == '/' {
        vec!['/']
    } else {
        Vec::new()
    };
    proof {
        reveal_strlit("/");
        if p@.len() > 0 && p@[0] == '/' {
            assert(root@ =~= "/"@);
        }
    }
    let r = join_range(root.as_slice(), &c, 0, c.len() - 1);
    assert(views(c@).subrange(0, c.len() - 1) =~= components(p@).drop_last());
    Some(r)
}

/// The git invocation that renames a worktree, and where it ends up.
pub struct RenamePlan {
    pub args: Vec<String>,
    pub new_path: String,
}

/// Plans moving the worktree at canonical path `old_path` to a sibling
/// named `new_name`.
pub fn rename_worktree(old_path: &str, new_name: &str) -> (r: Result<RenamePlan, String>)
    ensures
        match parent_of(old_path@) {
            None => r matches Err(e) && e@ == "No parent directory"@,
            Some(dir) => r matches Ok(p) && p.new_path@ == join_of(dir, new_name@) && texts(p.args@) == seq![
                "worktree"@,
                "move"@,
                old_path@,
                join_of(dir, new_name@),
            ],
        },
{
    let oc = chars_of(old_path);
    let dir = match parent(oc.as_slice()) {
        Some(d) => d,
        None => return Err(owned("No parent directory")),
    };
    let nc = chars_of(new_name);
    let np = string_of(join(dir.as_slice(), nc.as_slice()).as_slice());
    let mut args: Vec<String> = Vec::new();
    push_arg(&mut args, owned("worktree"));
    push_arg(&mut args, owned("move"));
    push_arg(&mut args, owned(old_path));
    push_arg(&mut args, np.clone());
    Ok(RenamePlan { args, new_path: np })
}

/// The first record of `ws` whose path is `path`.
pub fn find_worktree_by_path(ws: &Vec<WorktreeInfo>, path: &str) -> (r: Option<WorktreeInfo>)
    ensures
        match r {
            Some(w) => exists|i: int| 0 <= i < ws@.len() && ws@[i] == w && w.path@ == path@ && forall|j: int|
                0 <= j < i ==> (#[trigger] ws@[j]).path@ != path@,
            None => forall|j: int| 0 <= j < ws@.len() ==> (#[trigger] ws@[j]).path@ != path@,
        },
{
    let pc = chars_of(path);
    let mut i: usize = 0;
    while i < ws.len()
        invariant
            i <= ws.len(),
            pc@ == path@,
            forall|j: int| 0 <= j < i ==> (#[trigger] ws@[j]).path@ != path@,
        decreases ws.len() - i,
    {
        let wc = chars_of(ws[i].path.as_str());
        if slice_eq(wc.as_slice(), pc.as_slice()) {
            return Some(ws[i].copy());
        }
        i = i + 1;
    }
    None
}

/// Whether `path` holds a git repository of its own: a `.git` entry directly
/// inside it. The answer is read from the disk.
pub fn is_git_repository(path: &str) -> (r: bool) {
    let direct = message(path, "/.git");
    if path_exists(direct.as_str()) {
        return true;
    }
    let joined = join_str(path, ".git");
    path_is_dir(joined.as_str())
}

/// What a git run comes to: its standard output when it exited with
/// success, otherwise its standard error, verbatim, as the error.
pub fn git_outcome(success: bool, stdout: String, stderr: String) -> (r: Result<String, String>)
    ensures
        success ==> r == Ok::<String, String>(stdout),
        !success ==> r == Err::<String, String>(stderr),
{
    if success {
        Ok(stdout)
    } else {
        Err(stderr)
    }
}

/// The current branch from the output of `git symbolic-ref --short HEAD`:
/// the output without surrounding whitespace.
pub fn get_current_branch(output: &str) -> (r: String)
    ensures
        r@ == trim_text(output@),
{
    let c = chars_of(output);
    string_of(trim_chars(c.as_slice()).as_slice())
}

/// A branch line: its name (without a `remotes/` prefix), whether it is the
/// current branch, whether it is remote.
pub open spec fn branch_row(l: Seq<char>, current: Option<Seq<char>>) -> (Seq<char>, bool, bool) {
    let remote = has_prefix(l, "remotes/"@);
    let name = if remote {
        l.subrange(8, l.len() as int)
    } else {
        l
    };
    (name, current == Some(name), remote)
}

/// The branches of a listing, one per non-empty line, in order.
pub open spec fn branch_rows(ls: Seq<Seq<char>>, current: Option<Seq<char>>) -> Seq<(Seq<char>, bool, bool)>
    decreases ls.len(),
{
    if ls.len() == 0 {
        Seq::empty()
    } else {
        let s = branch_rows(ls.drop_last(), current);
        if ls.last().len() == 0 {
            s
        } else {
            s.push(branch_row(ls.last(), current))
        }
    }
}

pub open spec fn branch_view(b: BranchInfo) -> (Seq<char>, bool, bool) {
    (b.name@, b.is_current, b.is_remote)
}

/// The branches from the output of
/// `git branch -a --format=%(refname:short)`, marking `current` (the
/// current branch, when there is one).
pub fn get_branches(output: &str, current: Option<&str>) -> (r: Vec<BranchInfo>)
    ensures
        r@.map_values(|b: BranchInfo| branch_view(b)) == branch_rows(
            lines_of(output@),
            match current {
                Some(c) => Some(c@),
                None => None,
            },
        ),
{
    let ghost cur = match current {
        Some(c) => Some(c@),
        None => None,
    };
    let oc = chars_of(output);
    let ls = split_lines(oc.as_slice());
    let cc: Option<Vec<char>> = match current {
        Some(c) => Some(chars_of(c)),
        None => None,
    };
    let prefix = chars_of("remotes/");
    proof {
        reveal_strlit("remotes/");
    }
    assert(prefix@.len() == 8);
    let mut out: Vec<BranchInfo> = Vec::new();
    let mut i: usize = 0;
    while i < ls.len()
        invariant
            i <= ls.len(),
            line_views(ls@) == lines_of(output@),
            prefix@ == "remotes/"@,
            prefix@.len() == 8,
            match cc {
                Some(v) => cur == Some(v@),
                None => cur is None,
            },
            out@.map_values(|b: BranchInfo| branch_view(b)) == branch_rows(line_views(ls@).subrange(0, i as int), cur),
        decreases ls.len() - i,
    {
        assert(line_views(ls@).subrange(0, i + 1).drop_last() == line_views(ls@).subrange(0, i as int));
        assert(line_views(ls@).subrange(0, i + 1).last() == ls@[i as int]@);
        let l = &ls[i];
        if l.len() > 0 {
            let remote = starts_with(l.as_slice(), prefix.as_slice());
            let name = if remote {
                copy_range(l.as_slice(), 8, l.len())
            } else {
                copy_range(l.as_slice(), 0, l.len())
            };
            let is_current = match &cc {
                Some(v) => slice_eq(name.as_slice(), v.as_slice()),
                None => false,
            };
            assert(l@.subrange(0, l@.len() as int) == l@);
            assert(name@ == branch_row(l@, cur).0);
            let b = BranchInfo { name: string_of(name.as_slice()), is_current, is_remote: remote };
            assert(branch_view(b) == branch_row(l@, cur));
            let ghost before = out@;
            out.push(b);
            assert(out@.map_values(|b: BranchInfo| branch_view(b)) =~= before.map_values(|b: BranchInfo| branch_view(b)).push(branch_view(b)));
        }
        i = i + 1;
    }
    assert(line_views(ls@).subrange(0, ls.len() as int) == line_views(ls@));
    out
}

/// The first position at which `pat` occurs in `s`.
#[verifier::opaque]
pub open spec fn first_occurrence(s: Seq<char>, pat: Seq<char>) -> Option<int> {
    if exists|i: int| 0 <= i && i + pat.len() <= s.len() && #[trigger] s.subrange(i, i + pat.len()) == pat {
        Some(choose|i: int| 0 <= i && i + pat.len() <= s.len() && #[trigger] s.subrange(i, i + pat.len()) == pat && forall|j: int|
            0 <= j < i ==> #[trigger] s.subrange(j, j + pat.len()) != pat)
    } else {
        None
    }
}

/// The first position of `pat` in `s` (see `first_occurrence`).
pub fn find_text(s: &[char], pat: &[char]) -> (r: Option<usize>)
    ensures
        match (r, first_occurrence(s@, pat@)) {
            (Some(i), Some(j)) => i as int == j,
            (None, None) => true,
            _ => false,
        },
        r matches Some(i) ==> i + pat@.len() <= s@.len() && s@.subrange(i as int, i + pat@.len()) == pat@,
{
    reveal(first_occurrence);
    if pat.len() > s.len() {
        assert forall|i: int| 0 <= i && i + pat@.len() <= s@.len() implies #[trigger] s@.subrange(i, i + pat@.len()) != pat@ by {}
        return None;
    }
    let mut i: usize = 0;
    let last: usize = s.len() - pat.len();
    while i <= last
        invariant
            pat.len() <= s.len(),
            last == s.len() - pat.len(),
            i <= last + 1,
            forall|j: int| 0 <= j < i ==> #[trigger] s@.subrange(j, j + pat@.len()) != pat@,
        decreases last + 1 - i,
    {
        let piece = copy_range(s, i, i + pat.len());
        if slice_eq(piece.as_slice(), pat) {
            proof {
                reveal(first_occurrence);
                let k = choose|k: int| 0 <= k && k + pat@.len() <= s@.len() && #[trigger] s@.subrange(k, k + pat@.len()) == pat@ && forall|j: int|
                    0 <= j < k ==> #[trigger] s@.subrange(j, j + pat@.len()) != pat@;
                if k < i {
                    assert(s@.subrange(k, k + pat@.len()) != pat@);
                }
                if k > i {
                    assert(s@.subrange(i as int, i + pat@.len()) != pat@);
                }
            }
            return Some(i);
        }
        if i == last {
            reveal(first_occurrence);
            assert forall|j: int| 0 <= j && j + pat@.len() <= s@.len() implies #[trigger] s@.subrange(j, j + pat@.len()) != pat@ by {
                if j == i {
                    assert(piece@ == s@.subrange(j, j + pat@.len()));
                }
            }
            return None;
        }
        i = i + 1;
    }
    None
}

/// The main repository's working directory from the trimmed output of
/// `git rev-parse --git-dir` run in `path`; `None` stands for the canonical
/// form of `path` itself (the output `.git`). A linked worktree's git dir
/// `<main>/.git/worktrees/<name>` is unwound to `<main>`.
pub open spec fn repo_root_text(git_dir: Seq<char>, path: Seq<char>) -> Option<Seq<char>> {
    if git_dir == ".git"@ {
        None
    } else if is_absolute(git_dir) {
        if first_occurrence(git_dir, "/worktrees/"@) is Some {
            match first_occurrence(git_dir, "/.git/worktrees/"@) {
                Some(i) => Some(git_dir.subrange(0, i)),
                None => Some(git_dir),
            }
        } else {
            match parent_of(git_dir) {
                Some(p) => Some(p),
                None => Some(git_dir),
            }
        }
    } else {
        match parent_of(join_of(path, git_dir)) {
            Some(p) => Some(p),
            None => Some(path),
        }
    }
}

/// The root of the repository that `path` belongs to (a main repository or
/// one of its worktrees), from the output of `git rev-parse --git-dir` run
/// there (see `repo_root_text`).
pub fn find_git_repo_root(git_dir_output: &str, path: &str) -> (r: Result<String, String>)
    ensures
        match repo_root_text(trim_text(git_dir_output@), path@) {
            Some(t) => r matches Ok(root) && root@ == t,
            None => r matches Ok(root) ==> is_absolute(root@),
        },
{
    let oc = chars_of(git_dir_output);
    let g = trim_chars(oc.as_slice());
    let dot_git = chars_of(".git");
    if slice_eq(g.as_slice(), dot_git.as_slice()) {
        return canonicalize_path(path);
    }
    if g.len() > 0 && g[0] == '/' {
        let wt = chars_of("/worktrees/");
        if find_text(g.as_slice(), wt.as_slice()).is_some() {
            let marker = chars_of("/.git/worktrees/");
            return match find_text(g.as_slice(), marker.as_slice()) {
                Some(i) => Ok(string_of(copy_range(g.as_slice(), 0, i).as_slice())),
                None => Ok(string_of(g.as_slice())),
            };
        }
        return match parent(g.as_slice()) {
            Some(p) => Ok(string_of(p.as_slice())),
            None => Ok(string_of(g.as_slice())),
        };
    }
    let pc = chars_of(path);
    let joined = join(pc.as_slice(), g.as_slice());
    match parent(joined.as_slice()) {
        Some(p) => Ok(string_of(p.as_slice())),
        None => Ok(string_of(pc.as_slice())),
    }
}

/// `l` cut at its first `k` bars into `k + 1` fields, the last keeping any
/// further bars (as `splitn(k + 1, '|')`); `None` with fewer bars.
pub open spec fn bar_fields(l: Seq<char>, k: nat) -> Option<Seq<Seq<char>>>
    decreases k,
{
    if k == 0 {
        Some(seq![l])
    } else {
        match first_occurrence(l, seq!['|']) {
            None => None,
            Some(i) => match bar_fields(l.subrange(i + 1, l.len() as int), (k - 1) as nat) {
                Some(rest) => Some(seq![l.subrange(0, i)] + rest),
                None => None,
            },
        }
    }
}

/// A commit line `hash|short|message|author|time`: its fields, the time
/// read as a number (0 when it is not one).
pub open spec fn commit_row(l: Seq<char>) -> Option<(Seq<char>, Seq<char>, Seq<char>, Seq<char>, int)> {
    match bar_fields(l, 4) {
        Some(f) => Some(
            (
                f[0],
                f[1],
                f[2],
                f[3],
                match decimal_i64(f[4]) {
                    Some(v) => v,
                    None => 0,
                },
            ),
        ),
        None => None,
    }
}

/// The commits of a log listing: one per line with all five fields, in
/// order; other lines are skipped.
pub open spec fn commit_rows(ls: Seq<Seq<char>>) -> Seq<(Seq<char>, Seq<char>, Seq<char>, Seq<char>, int)>
    decreases ls.len(),
{
    if ls.len() == 0 {
        Seq::empty()
    } else {
        let s = commit_rows(ls.drop_last());
        match commit_row(ls.last()) {
            Some(c) => s.push(c),
            None => s,
        }
    }
}

pub open spec fn commit_view(c: CommitInfo) -> (Seq<char>, Seq<char>, Seq<char>, Seq<char>, int) {
    (c.hash@, c.short_hash@, c.message@, c.author@, c.date as int)
}

fn split_bars(l: &[char], k: usize) -> (r: Option<Vec<Vec<char>>>)
    ensures
        match (r, bar_fields(l@, k as nat)) {
            (Some(v), Some(w)) => views(v@) == w,
            (None, None) => true,
            _ => false,
        },
    decreases k,
{
    if k == 0 {
        let mut v: Vec<Vec<char>> = Vec::new();
        v.push(copy_range(l, 0, l.len()));
        assert(l@.subrange(0, l@.len() as int) == l@);
        assert(views(v@) =~= seq![l@]);
        return Some(v);
    }
    let bar: Vec<char> = vec!['|'];
    assert(bar@ =~= seq!['|']);
    let found = find_text(l, bar.as_slice());
    let i = match found {
        None => return None,
        Some(i) => i,
    };
    let n = l.len();
    assert(i + 1 <= n);
    let tail = copy_range(l, i + 1, n);
    let rest = match split_bars(tail.as_slice(), k - 1) {
        None => return None,
        Some(rest) => rest,
    };
    let ghost rv = views(rest@);
    let head = copy_range(l, 0, i);
    let mut v = rest;
    v.insert(0, head);
    proof {
        assert(views(v@) =~= seq![l@.subrange(0, i as int)] + rv);
    }
    Some(v)
}

/// The commits from the output of `git log --format=%H|%h|%s|%an|%at`.
pub fn get_commits(output: &str) -> (r: Vec<CommitInfo>)
    ensures
        r@.map_values(|c: CommitInfo| commit_view(c)) == commit_rows(lines_of(output@)),
{
    let oc = chars_of(output);
    let ls = split_lines(oc.as_slice());
    let mut out: Vec<CommitInfo> = Vec::new();
    let mut i: usize = 0;
    while i < ls.len()
        invariant
            i <= ls.len(),
            line_views(ls@) == lines_of(output@),
            out@.map_values(|c: CommitInfo| commit_view(c)) == commit_rows(line_views(ls@).subrange(0, i as int)),
        decreases ls.len() - i,
    {
        assert(line_views(ls@).subrange(0, i + 1).drop_last() == line_views(ls@).subrange(0, i as int));
        assert(line_views(ls@).subrange(0, i + 1).last() == ls@[i as int]@);
        let fields = split_bars(ls[i].as_slice(), 4);
        match fields {
            Some(f) => {
                assert(f@.len() == 5) by {
                    lemma_bar_fields_len(ls@[i as int]@, 4);
                }
                let date = match parse_i64(f[4].as_slice()) {
                    Some(v) => v,
                    None => 0,
                };
                let c = CommitInfo {
                    hash: string_of(f[0].as_slice()),
                    short_hash: string_of(f[1].as_slice()),
                    message: string_of(f[2].as_slice()),
                    author: string_of(f[3].as_slice()),
                    date,
                };
                let ghost before = out@;
                out.push(c);
                assert(out@.map_values(|c: CommitInfo| commit_view(c)) =~= before.map_values(|c: CommitInfo| commit_view(c)).push(commit_view(c)));
            },
            None => {},
        }
        i = i + 1;
    }
    assert(line_views(ls@).subrange(0, ls.len() as int) == line_views(ls@));
    out
}

proof fn lemma_bar_fields_len(l: Seq<char>, k: nat)
    ensures
        bar_fields(l, k) matches Some(f) ==> f.len() == k + 1,
    decreases k,
{
    if k > 0 {
        match first_occurrence(l, seq!['|']) {
            None => {},
            Some(i) => {
                lemma_bar_fields_len(l.subrange(i + 1, l.len() as int), (k - 1) as nat);
            },
        }
    }
}

} // verus!
