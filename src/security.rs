//! Path confinement and validation of user-supplied executable commands.

use vstd::prelude::*;
use crate::paths::{
    lemma_components_join_all, lemma_components_plain, no_dotdot, plain_parts,
    components, is_absolute, join_all, join_of, join_range, join_str, managed_dir_name, path_components,
    views, within,
};
use crate::system::{canonicalize_path, home_dir, path_exists};
use crate::text::{
    chars_of, extend_chars, has_prefix, message, slice_eq, starts_with, string_of,
};

verus! {

/// The directories below which a custom command may live.
pub open spec fn allowed_location(cmd: Seq<char>) -> bool {
    ||| has_prefix(cmd, "/usr/bin/"@)
    ||| has_prefix(cmd, "/usr/local/bin/"@)
    ||| has_prefix(cmd, "/opt/homebrew/bin/"@)
    ||| has_prefix(cmd, "/Applications/"@)
    ||| has_prefix(cmd, "/System/Applications/"@)
}

/// Shell metacharacters that a custom command may not hold.
pub open spec fn forbidden(c: char) -> bool {
    c == '|' || c == ';' || c == '&' || c == '$' || c == '`' || c == '(' || c == ')' || c == '{'
        || c == '}' || c == '\n' || c == '\r' || c == '<' || c == '>'
}

pub open spec fn has_forbidden(cmd: Seq<char>) -> bool {
    exists|i: int| 0 <= i < cmd.len() && forbidden(#[trigger] cmd[i])
}

pub open spec fn not_absolute_msg() -> Seq<char> {
    "Custom command must be an absolute path"@
}

pub open spec fn location_msg() -> Seq<char> {
    "Custom command must be in one of: [\"/usr/bin/\", \"/usr/local/bin/\", \"/opt/homebrew/bin/\", \"/Applications/\", \"/System/Applications/\"]"@
}

pub open spec fn forbidden_msg() -> Seq<char> {
    "Custom command contains forbidden characters"@
}

pub open spec fn not_found_msg(cmd: Seq<char>) -> Seq<char> {
    "Custom command not found: "@ + cmd
}

/// What the text of `cmd` alone decides.
pub open spec fn command_text_verdict(cmd: Seq<char>) -> Result<(), Seq<char>> {
    if !has_prefix(cmd, "/"@) {
        Err(not_absolute_msg())
    } else if !allowed_location(cmd) {
        Err(location_msg())
    } else if has_forbidden(cmd) {
        Err(forbidden_msg())
    } else {
        Ok(())
    }
}

pub open spec fn same_verdict(r: Result<(), String>, v: Result<(), Seq<char>>) -> bool {
    match (r, v) {
        (Ok(()), Ok(())) => true,
        (Err(e), Err(m)) => e@ == m,
        _ => false,
    }
}

fn prefix_is(cs: &Vec<char>, p: &str) -> (r: bool)
    ensures
        r == has_prefix(cs@, p@),
{
    let pc = chars_of(p);
    starts_with(cs.as_slice(), pc.as_slice())
}

fn forbidden_char(c: char) -> (r: bool)
    ensures
        r == forbidden(c),
{
    c == '|' || c == ';' || c == '&' || c == '$' || c == '`' || c == '(' || c == ')' || c == '{'
        || c == '}' || c == '\n' || c == '\r' || c == '<' || c == '>'
}

/// The checks on the text of a custom command: absolute, under an allowed
/// directory, free of shell metacharacters.
pub fn check_command_text(cmd: &str) -> (r: Result<(), String>)
    ensures
        same_verdict(r, command_text_verdict(cmd@)),
{
    let cs = chars_of(cmd);
    if !prefix_is(&cs, "/") {
        return Err("Custom command must be an absolute path".to_string());
    }
    if !(prefix_is(&cs, "/usr/bin/") || prefix_is(&cs, "/usr/local/bin/") || prefix_is(
        &cs,
        "/opt/homebrew/bin/",
    ) || prefix_is(&cs, "/Applications/") || prefix_is(&cs, "/System/Applications/")) {
        return Err(
            "Custom command must be in one of: [\"/usr/bin/\", \"/usr/local/bin/\", \"/opt/homebrew/bin/\", \"/Applications/\", \"/System/Applications/\"]".to_string(),
        );
    }
    let mut i: usize = 0;
    while i < cs.len()
        invariant
            i <= cs.len(),
            cs@ == cmd@,
            has_prefix(cmd@, "/"@),
            allowed_location(cmd@),
            forall|j: int| 0 <= j < i ==> !forbidden(#[trigger] cs@[j]),
        decreases cs.len() - i,
    {
        if forbidden_char(cs[i]) {
            assert(forbidden(cmd@[i as int]));
            assert(has_forbidden(cmd@));
            return Err("Custom command contains forbidden characters".to_string());
        }
        i = i + 1;
    }
    Ok(())
}

/// Validates a custom terminal or editor command before it is spawned:
/// the text checks of `check_command_text`, then that the file exists.
/// Whether it exists is read from the disk, so on a command that passes the
/// text checks the result is `Ok` or the not-found error.
pub fn validate_custom_command(cmd: &str) -> (r: Result<(), String>)
    ensures
        command_text_verdict(cmd@) is Err ==> same_verdict(r, command_text_verdict(cmd@)),
        command_text_verdict(cmd@) is Ok ==> (r is Ok || (r matches Err(e) && e@ == not_found_msg(cmd@))),
{
    let t = check_command_text(cmd);
    if t.is_err() {
        return t;
    }
    if !path_exists(cmd) {
        let mut m = chars_of("Custom command not found: ");
        let c = chars_of(cmd);
        extend_chars(&mut m, c.as_slice());
        return Err(string_of(m.as_slice()));
    }
    Ok(())
}

} // verus!

verus! {

pub open spec fn traversal_msg(shown: Seq<char>) -> Seq<char> {
    "Path traversal detected: "@ + shown + " is not within allowed directories"@
}

/// Some base of `bases` is present and holds `p` at or below it.
pub open spec fn within_some(p: Seq<char>, bases: Seq<Option<String>>) -> bool {
    exists|i: int| 0 <= i < bases.len() && (#[trigger] bases[i] matches Some(b) && within(p, b@))
}

/// `p` at or below `base`, read component by component.
pub fn path_within(p: &[char], base: &[char]) -> (r: bool)
    ensures
        r == within(p@, base@),
{
    let pa = p.len() > 0 && p[0] == '/';
    let ba = base.len() > 0 && base[0] == '/';
    if pa != ba {
        return false;
    }
    let pc = path_components(p);
    let bc = path_components(base);
    if bc.len() > pc.len() {
        return false;
    }
    let mut i: usize = 0;
    while i < bc.len()
        invariant
            bc.len() <= pc.len(),
            i <= bc.len(),
            views(pc@) == components(p@),
            views(bc@) == components(base@),
            forall|j: int| 0 <= j < i ==> #[trigger] pc@[j]@ == bc@[j]@,
        decreases bc.len() - i,
    {
        if !slice_eq(pc[i].as_slice(), bc[i].as_slice()) {
            assert(components(p@).subrange(0, components(base@).len() as int)[i as int] != components(base@)[i as int]);
            return false;
        }
        i = i + 1;
    }
    assert(components(p@).subrange(0, components(base@).len() as int) =~= components(base@));
    true
}

/// The decision at the heart of path confinement: `check_path` is accepted,
/// and returned, exactly when it lies at or below one of the canonical base
/// directories (a base that could not be resolved is `None`, and holds
/// nothing). Otherwise the traversal error names `shown`.
pub fn confine_to_bases(check_path: &str, canonical_bases: &Vec<Option<String>>, shown: &str) -> (r: Result<String, String>)
    ensures
        r is Ok <==> within_some(check_path@, canonical_bases@),
        r matches Ok(s) ==> s@ == check_path@,
        r matches Err(e) ==> e@ == traversal_msg(shown@),
{
    let pc = chars_of(check_path);
    let mut i: usize = 0;
    while i < canonical_bases.len()
        invariant
            i <= canonical_bases.len(),
            pc@ == check_path@,
            forall|j: int| 0 <= j < i ==> !(#[trigger] canonical_bases@[j] matches Some(b) && within(check_path@, b@)),
        decreases canonical_bases.len() - i,
    {
        match &canonical_bases[i] {
            Some(b) => {
                let bc = chars_of(b.as_str());
                if path_within(pc.as_slice(), bc.as_slice()) {
                    return Ok(string_of(pc.as_slice()));
                }
            },
            None => {},
        }
        i = i + 1;
    }
    let mut m = chars_of("Path traversal detected: ");
    let sc = chars_of(shown);
    extend_chars(&mut m, sc.as_slice());
    let tail = chars_of(" is not within allowed directories");
    extend_chars(&mut m, tail.as_slice());
    Err(string_of(m.as_slice()))
}

/// The canonical form of each base, `None` where it cannot be resolved.
fn canonical_bases(bases: &Vec<String>) -> (r: Vec<Option<String>>)
    ensures
        r@.len() == bases@.len(),
{
    let mut r: Vec<Option<String>> = Vec::new();
    let mut i: usize = 0;
    while i < bases.len()
        invariant
            i <= bases.len(),
            r@.len() == i,
        decreases bases.len() - i,
    {
        match canonicalize_path(bases[i].as_str()) {
            Ok(c) => r.push(Some(c)),
            Err(_) => r.push(None),
        }
        i = i + 1;
    }
    r
}

/// The error, if any, that the text of a missing candidate path gives
/// before the disk is consulted.
pub open spec fn shape_error(path: Seq<char>) -> Option<Seq<char>> {
    let c = components(path);
    if path.len() == 0 || (is_absolute(path) && c.len() == 0) {
        Some("Path has no parent directory"@)
    } else if c.len() == 0 || c.last() == seq!['.', '.'] {
        Some("Path has no filename"@)
    } else {
        None
    }
}

/// Some component in `c` is `..`.
pub open spec fn has_dotdot(c: Seq<Seq<char>>) -> bool {
    exists|i: int| 0 <= i < c.len() && #[trigger] c[i] == seq!['.', '.']
}

/// `r` gives the verdict `v`.
pub open spec fn verdict_is(r: Result<String, String>, v: Result<Seq<char>, Seq<char>>) -> bool {
    match (r, v) {
        (Ok(s), Ok(t)) => s@ == t,
        (Err(e), Err(m)) => e@ == m,
        _ => false,
    }
}

/// `check` if it lies within a base, else the traversal error for `path`.
pub open spec fn confined(check: Seq<char>, cbs: Seq<Option<String>>, path: Seq<char>) -> Result<Seq<char>, Seq<char>> {
    if within_some(check, cbs) {
        Ok(check)
    } else {
        Err(traversal_msg(path))
    }
}

/// The verdict on candidate `path`, given what the disk said: `found` is
/// the number of leading components that make up its nearest existing
/// ancestor (all of them when the path itself exists, `None` when no
/// ancestor exists), `resolved` is what canonicalizing that gave, and
/// `cbs` are the canonical bases. A missing path is refused when its text
/// has no parent or no file name, when its ancestor lies outside every base,
/// or when its missing part holds `..`; otherwise the ancestor's canonical
/// form with the missing components joined back on must lie in a base.
pub open spec fn path_verdict(
    path: Seq<char>,
    found: Option<int>,
    resolved: Result<String, String>,
    cbs: Seq<Option<String>>,
) -> Result<Seq<char>, Seq<char>> {
    let c = components(path);
    let n = c.len() as int;
    if found == Some(n) {
        match resolved {
            Err(e) => Err("Failed to resolve path: "@ + e@),
            Ok(a) => confined(a@, cbs, path),
        }
    } else {
        match shape_error(path) {
            Some(m) => Err(m),
            None => match found {
                None => Err("Cannot find existing ancestor directory"@),
                Some(k) => match resolved {
                    Err(e) => Err(
                        if k + 1 == n {
                            "Failed to resolve parent: "@ + e@
                        } else {
                            "Failed to resolve ancestor: "@ + e@
                        },
                    ),
                    Ok(a) => if k + 1 < n && !within_some(a@, cbs) {
                        Err(traversal_msg(path))
                    } else if has_dotdot(c.subrange(k, n)) {
                        Err(traversal_msg(path))
                    } else {
                        confined(join_all(a@, c.subrange(k, n)), cbs, path)
                    },
                },
            },
        }
    }
}

fn dotdot_between(c: &Vec<Vec<char>>, lo: usize, hi: usize) -> (r: bool)
    requires
        lo <= hi <= c@.len(),
    ensures
        r == has_dotdot(views(c@).subrange(lo as int, hi as int)),
{
    let dots: [char; 2] = ['.', '.'];
    assert(dots@ == seq!['.', '.']);
    let ghost sub = views(c@).subrange(lo as int, hi as int);
    let mut i: usize = lo;
    while i < hi
        invariant
            lo <= i <= hi <= c@.len(),
            dots@ == seq!['.', '.'],
            sub == views(c@).subrange(lo as int, hi as int),
            forall|j: int| 0 <= j < i - lo ==> sub[j] != seq!['.', '.'],
        decreases hi - i,
    {
        if slice_eq(c[i].as_slice(), dots.as_slice()) {
            assert(sub[i - lo] == seq!['.', '.']);
            return true;
        }
        i = i + 1;
    }
    false
}

/// The decision of path confinement on the disk's answers (see
/// `path_verdict`). An accepted path lies within a canonical base and, when
/// the ancestor's canonical form has no `..`, neither has it.
pub fn decide_path(
    path: &str,
    found: Option<usize>,
    resolved: Result<String, String>,
    canonical_bases: &Vec<Option<String>>,
) -> (r: Result<String, String>)
    requires
        found matches Some(k) ==> k <= components(path@).len(),
    ensures
        verdict_is(
            r,
            path_verdict(
                path@,
                match found {
                    Some(k) => Some(k as int),
                    None => None,
                },
                resolved,
                canonical_bases@,
            ),
        ),
        r matches Ok(s) ==> within_some(s@, canonical_bases@),
        r matches Ok(s) ==> (resolved matches Ok(a) && no_dotdot(a@) ==> no_dotdot(s@)),
{
    let pc = chars_of(path);
    let comps = path_components(pc.as_slice());
    let n = comps.len();
    proof {
        lemma_components_plain(path@);
    }
    if found == Some(n) {
        return match resolved {
            Ok(a) => confine_to_bases(a.as_str(), canonical_bases, path),
            Err(e) => Err(message("Failed to resolve path: ", e.as_str())),
        };
    }
    let absolute = pc.len() > 0 && pc[0] == '/';
    if pc.len() == 0 || (absolute && n == 0) {
        return Err("Path has no parent directory".to_string());
    }
    if n == 0 {
        return Err("Path has no filename".to_string());
    }
    let dots: [char; 2] = ['.', '.'];
    assert(dots@ == seq!['.', '.']);
    if slice_eq(comps[n - 1].as_slice(), dots.as_slice()) {
        return Err("Path has no filename".to_string());
    }
    let k = match found {
        None => return Err("Cannot find existing ancestor directory".to_string()),
        Some(k) => k,
    };
    let a = match resolved {
        Ok(a) => a,
        Err(e) => {
            return if k + 1 == n {
                Err(message("Failed to resolve parent: ", e.as_str()))
            } else {
                Err(message("Failed to resolve ancestor: ", e.as_str()))
            };
        },
    };
    if k + 1 < n {
        let first = confine_to_bases(a.as_str(), canonical_bases, path);
        if first.is_err() {
            return first;
        }
    }
    if dotdot_between(&comps, k, n) {
        let mut m = chars_of("Path traversal detected: ");
        extend_chars(&mut m, pc.as_slice());
        let tail = chars_of(" is not within allowed directories");
        extend_chars(&mut m, tail.as_slice());
        return Err(string_of(m.as_slice()));
    }
    let ac = chars_of(a.as_str());
    let check = string_of(join_range(ac.as_slice(), &comps, k, n).as_slice());
    proof {
        let rest = components(path@).subrange(k as int, n as int);
        assert(views(comps@).subrange(k as int, n as int) == rest);
        assert(plain_parts(rest));
        lemma_components_join_all(a@, rest);
        let all = components(a@) + rest;
        if no_dotdot(a@) {
            assert forall|i: int| 0 <= i < components(check@).len() implies #[trigger] components(check@)[i] != seq!['.', '.'] by {
                if i >= components(a@).len() {
                    assert(all[i] == rest[i - components(a@).len()]);
                    assert(!has_dotdot(rest));
                }
            }
        }
    }
    confine_to_bases(check.as_str(), canonical_bases, path)
}

/// Some canonical forms of the bases, one per base, hold `s`.
pub open spec fn within_some_bases(s: Seq<char>, n: nat) -> bool {
    exists|cbs: Seq<Option<String>>| cbs.len() == n && #[trigger] within_some(s, cbs)
}

/// `r` is the verdict of `path_verdict` on some answers of the disk for
/// `n` bases, with the canonical forms free of `..`.
pub open spec fn decided_on_disk(r: Result<String, String>, path: Seq<char>, n: nat) -> bool {
    exists|found: Option<int>, res: Result<String, String>, cbs: Seq<Option<String>>|
        cbs.len() == n && (res matches Ok(a) ==> no_dotdot(a@)) && #[trigger] verdict_is(
            r,
            path_verdict(path, found, res, cbs),
        )
}

/// Confirms that `path` resolves inside one of `allowed_bases` and returns
/// its resolved form. An existing path is canonicalized whole. For one that
/// does not exist yet, the nearest existing ancestor is canonicalized and
/// the remaining components are joined back onto it, so that a symbolic
/// link higher up cannot smuggle the path out; a `..` in the remaining
/// part is refused. What exists and where links lead is read from the disk;
/// the decision on those answers is `decide_path`.
pub fn validate_path_within_bases(path: &str, allowed_bases: &Vec<String>) -> (r: Result<String, String>)
    ensures
        decided_on_disk(r, path@, allowed_bases@.len()),
        r matches Ok(s) ==> within_some_bases(s@, allowed_bases@.len()) && no_dotdot(s@),
        allowed_bases@.len() == 0 ==> r is Err,
{
    let cbs = canonical_bases(allowed_bases);
    let pc = chars_of(path);
    let comps = path_components(pc.as_slice());
    let n = comps.len();
    let (found, resolved): (Option<usize>, Result<String, String>) = if path_exists(path) {
        (Some(n), canonicalize_path(path))
    } else if n == 0 {
        (None, Err(String::new()))
    } else {
        let absolute = pc.len() > 0 && pc[0] == '/';
        let root: Vec<char> = if absolute { vec!['/'] } else { Vec::new() };
        let mut k: usize = n - 1;
        let mut found: Option<usize> = None;
        loop
            invariant_except_break
                found is None,
            invariant
                k < n,
                n == comps.len(),
            ensures
                found matches Some(j) ==> j < n,
            decreases k,
        {
            let pre = join_range(root.as_slice(), &comps, 0, k);
            if path_exists(string_of(pre.as_slice()).as_str()) {
                found = Some(k);
                break;
            }
            if k == 0 {
                break;
            }
            k = k - 1;
        }
        match found {
            Some(k) => {
                let pre = string_of(join_range(root.as_slice(), &comps, 0, k).as_slice());
                (found, canonicalize_path(pre.as_str()))
            },
            None => (None, Err(String::new())),
        }
    };
    let r = decide_path(path, found, resolved, &cbs);
    proof {
        let f = match found {
            Some(k) => Some(k as int),
            None => None,
        };
        assert(verdict_is(r, path_verdict(path@, f, resolved, cbs@)));
        assert(decided_on_disk(r, path@, allowed_bases@.len()));
        if r is Ok {
            assert(within_some(r.arrow_Ok_0()@, cbs@));
        }
    }
    r
}

/// The directories that worktree paths must resolve into: the managed
/// root below the home directory, then the home directory itself. Without a
/// known home directory there are none, and every path is refused.
pub fn get_allowed_worktree_bases() -> (r: Vec<String>)
    ensures
        r@.len() == 0 || (r@.len() == 2 && r@[0]@ == join_of(r@[1]@, managed_dir_name())),
{
    match home_dir() {
        Some(h) => {
            let root = join_str(h.as_str(), ".aristar-worktrees");
            vec![root, h]
        },
        None => Vec::new(),
    }
}

} // verus!
