//! Paths as sequences of characters, read component by component the way
//! `std::path` reads a Unix path: empty and `.` components are skipped.

use vstd::prelude::*;
use crate::text::{chars_of, copy_range, extend_chars, slice_eq, string_of};

verus! {

/// A component that a path keeps: neither empty nor `.`.
pub open spec fn kept(seg: Seq<char>) -> bool {
    seg.len() > 0 && seg != seq!['.']
}

pub open spec fn push_kept(done: Seq<Seq<char>>, seg: Seq<char>) -> Seq<Seq<char>> {
    if kept(seg) {
        done.push(seg)
    } else {
        done
    }
}

/// Reading `s` from the left: the components finished so far and the
/// segment still open after the last `/`.
pub open spec fn scan(s: Seq<char>) -> (Seq<Seq<char>>, Seq<char>)
    decreases s.len(),
{
    if s.len() == 0 {
        (Seq::empty(), Seq::empty())
    } else {
        let (done, cur) = scan(s.drop_last());
        if s.last() == '/' {
            (push_kept(done, cur), Seq::empty())
        } else {
            (done, cur.push(s.last()))
        }
    }
}

/// The named components of `s`, in order.
pub open spec fn components(s: Seq<char>) -> Seq<Seq<char>> {
    push_kept(scan(s).0, scan(s).1)
}

pub open spec fn is_absolute(s: Seq<char>) -> bool {
    s.len() > 0 && s[0] == '/'
}

/// The final component of `s`, unless the path ends in a root or `..`.
pub open spec fn file_name_of(s: Seq<char>) -> Option<Seq<char>> {
    let c = components(s);
    if c.len() > 0 && c.last() != seq!['.', '.'] {
        Some(c.last())
    } else {
        None
    }
}

/// The text of components `c`, separated by `/`, after `lead`.
pub open spec fn join_all(lead: Seq<char>, c: Seq<Seq<char>>) -> Seq<char>
    decreases c.len(),
{
    if c.len() == 0 {
        lead
    } else {
        join_of(join_all(lead, c.drop_last()), c.last())
    }
}

/// `base` extended by `name` the way `PathBuf::push` does it: an absolute
/// `name` replaces `base`, otherwise one `/` separates them.
pub open spec fn join_of(base: Seq<char>, name: Seq<char>) -> Seq<char> {
    if is_absolute(name) {
        name
    } else if base.len() == 0 || base.last() == '/' {
        base + name
    } else {
        base + seq!['/'] + name
    }
}

/// `p` lies at or below `base`: the components of `base` begin those of `p`,
/// and both are absolute or both relative.
pub open spec fn within(p: Seq<char>, base: Seq<char>) -> bool {
    &&& is_absolute(p) == is_absolute(base)
    &&& components(base).len() <= components(p).len()
    &&& components(p).subrange(0, components(base).len() as int) == components(base)
}

/// The views of a sequence of character vectors.
pub open spec fn views(v: Seq<Vec<char>>) -> Seq<Seq<char>> {
    v.map_values(|x: Vec<char>| x@)
}

/// The components of `s`.
pub fn path_components(s: &[char]) -> (r: Vec<Vec<char>>)
    ensures
        views(r@) == components(s@),
{
    let mut done: Vec<Vec<char>> = Vec::new();
    let mut cur: Vec<char> = Vec::new();
    let ghost mut gd: Seq<Seq<char>> = Seq::empty();
    let mut i: usize = 0;
    while i < s.len()
        invariant
            i <= s.len(),
            (gd, cur@) == scan(s@.subrange(0, i as int)),
            done@.len() == gd.len(),
            forall|j: int| 0 <= j < done@.len() ==> #[trigger] done@[j]@ == gd[j],
        decreases s.len() - i,
    {
        assert(s@.subrange(0, i + 1).drop_last() == s@.subrange(0, i as int));
        if s[i] == '/' {
            if keep_segment(&cur) {
                proof {
                    gd = gd.push(cur@);
                }
                done.push(cur);
            }
            cur = Vec::new();
        } else {
            cur.push(s[i]);
        }
        i = i + 1;
    }
    assert(s@.subrange(0, s.len() as int) == s@);
    if keep_segment(&cur) {
        proof {
            gd = gd.push(cur@);
        }
        done.push(cur);
    }
    assert(views(done@) =~= gd);
    done
}

/// `lead` followed by components `c[lo..hi]`.
pub fn join_range(lead: &[char], c: &Vec<Vec<char>>, lo: usize, hi: usize) -> (r: Vec<char>)
    requires
        lo <= hi <= c.len(),
    ensures
        r@ == join_all(lead@, views(c@).subrange(lo as int, hi as int)),
{
    let mut r = copy_range(lead, 0, lead.len());
    let mut j: usize = lo;
    assert(views(c@).subrange(lo as int, lo as int) =~= Seq::<Seq<char>>::empty());
    assert(lead@.subrange(0, lead@.len() as int) == lead@);
    while j < hi
        invariant
            lo <= j <= hi <= c.len(),
            r@ == join_all(lead@, views(c@).subrange(lo as int, j as int)),
        decreases hi - j,
    {
        r = join(r.as_slice(), c[j].as_slice());
        assert(views(c@).subrange(lo as int, j + 1).drop_last() =~= views(c@).subrange(lo as int, j as int));
        j = j + 1;
    }
    r
}

fn keep_segment(seg: &Vec<char>) -> (r: bool)
    ensures
        r == kept(seg@),
{
    let dot: [char; 1] = ['.'];
    let is_dot = slice_eq(seg.as_slice(), dot.as_slice());
    assert(dot@ == seq!['.']);
    seg.len() > 0 && !is_dot
}

/// The final component of `s`, as `Path::file_name` gives it.
pub fn file_name(s: &[char]) -> (r: Option<Vec<char>>)
    ensures
        match (r, file_name_of(s@)) {
            (Some(v), Some(w)) => v@ == w,
            (None, None) => true,
            _ => false,
        },
{
    let c = path_components(s);
    if c.len() == 0 {
        return None;
    }
    let last = &c[c.len() - 1];
    let dots: [char; 2] = ['.', '.'];
    assert(dots@ == seq!['.', '.']);
    if slice_eq(last.as_slice(), dots.as_slice()) {
        None
    } else {
        Some(copy_range(last.as_slice(), 0, last.len()))
    }
}

/// `base` extended by `name` (see `join_of`).
pub fn join(base: &[char], name: &[char]) -> (r: Vec<char>)
    ensures
        r@ == join_of(base@, name@),
{
    if name.len() > 0 && name[0] == '/' {
        return copy_range(name, 0, name.len());
    }
    let mut r = copy_range(base, 0, base.len());
    if !(base.len() == 0 || base[base.len() - 1] == '/') {
        r.push('/');
    }
    extend_chars(&mut r, name);
    r
}

/// `base` and `name` joined, as a string.
pub fn join_str(base: &str, name: &str) -> (r: String)
    ensures
        r@ == join_of(base@, name@),
{
    let b = chars_of(base);
    let n = chars_of(name);
    let j = join(b.as_slice(), n.as_slice());
    string_of(j.as_slice())
}

/// The display name of a repository: the final component of its path, or
/// `"Unknown"` when the path has none.
pub fn get_repository_name(path: &str) -> (r: String)
    ensures
        r@ == match file_name_of(path@) {
            Some(n) => n,
            None => seq!['U', 'n', 'k', 'n', 'o', 'w', 'n'],
        },
{
    let cs = chars_of(path);
    match file_name(cs.as_slice()) {
        Some(n) => string_of(n.as_slice()),
        None => {
            let r = "Unknown".to_string();
            proof {
                reveal_strlit("Unknown");
            }
            r
        },
    }
}

} // verus!

verus! {

/// The name of the application's managed directory below the home directory.
pub open spec fn managed_dir_name() -> Seq<char> {
    ".aristar-worktrees"@
}

/// A plain file name: non-empty, no `/`, and neither `.` nor `..`.
pub open spec fn plain_name(n: Seq<char>) -> bool {
    &&& kept(n)
    &&& n != seq!['.', '.']
    &&& forall|i: int| 0 <= i < n.len() ==> n[i] != '/'
}

proof fn lemma_scan_append(s: Seq<char>, n: Seq<char>, k: int)
    requires
        0 <= k <= n.len(),
        forall|i: int| 0 <= i < n.len() ==> n[i] != '/',
        scan(s).1.len() == 0,
    ensures
        scan(s + n.subrange(0, k)) == (scan(s).0, n.subrange(0, k)),
    decreases k,
{
    if k == 0 {
        assert(s + n.subrange(0, 0) =~= s);
    } else {
        lemma_scan_append(s, n, k - 1);
        let t = s + n.subrange(0, k);
        assert(t.drop_last() =~= s + n.subrange(0, k - 1));
        assert(t.last() == n[k - 1]);
        assert(n.subrange(0, k - 1).push(n[k - 1]) =~= n.subrange(0, k));
    }
}

/// A component that holds no `/` and is kept, joined onto a base, becomes
/// that base's last component.
pub proof fn lemma_components_join(base: Seq<char>, n: Seq<char>)
    requires
        kept(n),
        forall|i: int| 0 <= i < n.len() ==> n[i] != '/',
    ensures
        components(join_of(base, n)) == components(base).push(n),
{
    let lead = if base.len() == 0 || base.last() == '/' {
        base
    } else {
        base + seq!['/']
    };
    assert(n[0] != '/');
    assert(join_of(base, n) == lead + n);
    if base.len() == 0 {
        assert(scan(lead).0 == components(base));
    } else if base.last() == '/' {
        assert(scan(lead).1.len() == 0);
        assert(scan(lead).0 == components(base));
    } else {
        assert(lead.drop_last() =~= base);
        assert(scan(lead).0 == components(base));
    }
    lemma_scan_append(lead, n, n.len() as int);
    assert(n.subrange(0, n.len() as int) =~= n);
}

/// No component of `s` is `..`.
pub open spec fn no_dotdot(s: Seq<char>) -> bool {
    forall|i: int| 0 <= i < components(s).len() ==> #[trigger] components(s)[i] != seq!['.', '.']
}

/// Every component holds no `/` and is kept.
pub open spec fn plain_parts(c: Seq<Seq<char>>) -> bool {
    forall|i: int| 0 <= i < c.len() ==> kept(#[trigger] c[i]) && forall|j: int| 0 <= j < c[i].len() ==> c[i][j] != '/'
}

proof fn lemma_scan_plain(s: Seq<char>)
    ensures
        plain_parts(scan(s).0),
        forall|j: int| 0 <= j < scan(s).1.len() ==> scan(s).1[j] != '/',
    decreases s.len(),
{
    if s.len() > 0 {
        lemma_scan_plain(s.drop_last());
    }
}

/// The components of any path are plain.
pub proof fn lemma_components_plain(s: Seq<char>)
    ensures
        plain_parts(components(s)),
{
    lemma_scan_plain(s);
}

/// Joining plain components onto a base appends them to its components.
pub proof fn lemma_components_join_all(a: Seq<char>, rest: Seq<Seq<char>>)
    requires
        plain_parts(rest),
    ensures
        components(join_all(a, rest)) == components(a) + rest,
    decreases rest.len(),
{
    if rest.len() == 0 {
        assert(components(a) + rest =~= components(a));
    } else {
        assert(plain_parts(rest.drop_last()));
        lemma_components_join_all(a, rest.drop_last());
        assert(kept(rest.last()));
        lemma_components_join(join_all(a, rest.drop_last()), rest.last());
        assert((components(a) + rest.drop_last()).push(rest.last()) =~= components(a) + rest);
    }
}

/// A plain name joined onto any base is that path's file name.
pub proof fn lemma_file_name_of_join(base: Seq<char>, n: Seq<char>)
    requires
        plain_name(n),
    ensures
        file_name_of(join_of(base, n)) == Some(n),
{
    let lead = if base.len() == 0 || base.last() == '/' {
        base
    } else {
        base + seq!['/']
    };
    assert(!is_absolute(n));
    assert(join_of(base, n) == lead + n);
    if base.len() == 0 {
        assert(scan(lead).1.len() == 0);
    } else if base.last() == '/' {
        assert(lead.drop_last() == base.drop_last());
    } else {
        assert(lead.drop_last() =~= base);
    }
    assert(scan(lead).1.len() == 0);
    lemma_scan_append(lead, n, n.len() as int);
    assert(n.subrange(0, n.len() as int) =~= n);
    assert(components(lead + n) == scan(lead).0.push(n));
}

} // verus!
