//! Names derived from user text and repository paths: folder slugs, the
//! per-repository hash directory, task identifiers, and the fixed layout of
//! the managed root.

use vstd::prelude::*;
use crate::paths::{join_of, join_str};
use crate::system::now_millis;
use crate::text::{chars_of, string_of};
use vstd::string::StringSliceAdditionalSpecFns;

verus! {

/// What `str::to_lowercase` makes of a string (Unicode case mapping).
pub uninterp spec fn lower_of(s: Seq<char>) -> Seq<char>;

/// What `char::is_alphanumeric` says of a character (Unicode properties).
pub uninterp spec fn alnum(c: char) -> bool;

/// The SHA-256 digest of `b`.
pub uninterp spec fn sha256_of(b: Seq<u8>) -> Seq<u8>;

/// Relies on `str::to_lowercase`; an empty string stays empty.
#[verifier::external_body]
fn to_lowercase(s: &str) -> (r: String)
    ensures
        r@ == lower_of(s@),
        s@.len() == 0 ==> r@.len() == 0,
{
    s.to_lowercase()
}

/// Relies on `char::is_alphanumeric`, which is false for `-`.
#[verifier::external_body]
fn is_alphanumeric(c: char) -> (r: bool)
    ensures
        r == alnum(c),
        c == '-' ==> !r,
{
    c.is_alphanumeric()
}

/// Relies on `sha2::Sha256`: the 32-byte digest of `b`.
#[verifier::external_body]
fn sha256(b: &[u8]) -> (r: Vec<u8>)
    ensures
        r@ == sha256_of(b@),
        r@.len() == 32,
{
    <sha2::Sha256 as sha2::Digest>::digest(b).to_vec()
}

/// The lower-case hexadecimal digit for `n` (below 16).
pub open spec fn hex_digit(n: int) -> char {
    "0123456789abcdef"@[n]
}

/// Two lower-case hexadecimal digits per byte, high half first.
pub open spec fn hex_text(b: Seq<u8>) -> Seq<char>
    decreases b.len(),
{
    if b.len() == 0 {
        Seq::empty()
    } else {
        hex_text(b.drop_last()) + seq![hex_digit(b.last() as int / 16), hex_digit(b.last() as int % 16)]
    }
}

proof fn lemma_hex_len(b: Seq<u8>)
    ensures
        hex_text(b).len() == 2 * b.len(),
    decreases b.len(),
{
    if b.len() > 0 {
        lemma_hex_len(b.drop_last());
    }
}

/// Relies on `hex::encode`, which writes each byte as two lower-case
/// digits, high half first.
#[verifier::external_body]
fn hex_encode(b: &[u8]) -> (r: String)
    ensures
        r@ == hex_text(b@),
{
    hex::encode(b)
}

/// Reading `t` from the left: the slug so far, and whether a separator is
/// owed before the next kept character.
pub open spec fn slug_scan(t: Seq<char>) -> (Seq<char>, bool)
    decreases t.len(),
{
    if t.len() == 0 {
        (Seq::empty(), false)
    } else {
        let (out, pending) = slug_scan(t.drop_last());
        let c = t.last();
        if !alnum(c) {
            (out, true)
        } else if pending && out.len() > 0 {
            (out + seq!['-', c], false)
        } else {
            (out.push(c), false)
        }
    }
}

/// The slug of `t`: its alphanumeric runs, in order, joined by single
/// hyphens; everything else only separates them.
pub open spec fn slug_text(t: Seq<char>) -> Seq<char> {
    slug_scan(t).0
}

/// The slug of an already lower-cased text (see `slug_text`).
pub fn slug_of_lowercase(lowered: &str) -> (r: String)
    ensures
        r@ == slug_text(lowered@),
{
    let t = chars_of(lowered);
    let mut out: Vec<char> = Vec::new();
    let mut pending = false;
    let mut i: usize = 0;
    while i < t.len()
        invariant
            i <= t.len(),
            t@ == lowered@,
            (out@, pending) == slug_scan(t@.subrange(0, i as int)),
        decreases t.len() - i,
    {
        assert(t@.subrange(0, i + 1).drop_last() == t@.subrange(0, i as int));
        let c = t[i];
        if !is_alphanumeric(c) {
            pending = true;
        } else {
            if pending && out.len() > 0 {
                out.push('-');
            }
            out.push(c);
            pending = false;
        }
        i = i + 1;
    }
    assert(t@.subrange(0, t.len() as int) == t@);
    string_of(out.as_slice())
}

/// A folder-name slug: lower-cased, with every run of non-alphanumeric
/// characters collapsed to one hyphen and none at either end.
/// `"Refactor Authentication"` gives `"refactor-authentication"`.
pub fn slugify(s: &str) -> (r: String)
    ensures
        r@ == slug_text(lower_of(s@)),
{
    let lowered = to_lowercase(s);
    slug_of_lowercase(lowered.as_str())
}

/// The slug of a model identifier. Hyphens are kept as separators, so this
/// is the same text as `slugify` gives: `"gpt-4.0-turbo"` gives
/// `"gpt-4-0-turbo"`.
pub fn slugify_model_id(model_id: &str) -> (r: String)
    ensures
        r@ == slug_text(lower_of(model_id@)),
{
    let lowered = to_lowercase(model_id);
    slug_of_lowercase(lowered.as_str())
}

/// The per-repository folder name from a digest: its first four bytes in
/// hexadecimal.
pub fn repo_hash_from_digest(digest: &[u8]) -> (r: String)
    requires
        digest@.len() >= 4,
    ensures
        r@ == hex_text(digest@.subrange(0, 4)),
        r@.len() == 8,
{
    let head: [u8; 4] = [digest[0], digest[1], digest[2], digest[3]];
    assert(head@ =~= digest@.subrange(0, 4));
    proof {
        lemma_hex_len(head@);
    }
    hex_encode(head.as_slice())
}

/// The hash that names a repository's worktree folder: the first eight hex
/// digits of the SHA-256 of its path.
pub fn get_repo_hash(repo_path: &str) -> (r: String)
    ensures
        r@ == hex_text(sha256_of(repo_path.spec_bytes()).subrange(0, 4)),
        r@.len() == 8,
{
    let d = sha256(repo_path.as_bytes());
    repo_hash_from_digest(d.as_slice())
}

/// The folder that holds a repository's worktrees below the managed root.
pub fn get_worktree_base_for_repo(root: &str, repo_path: &str) -> (r: String)
    ensures
        r@ == join_of(root@, hex_text(sha256_of(repo_path.spec_bytes()).subrange(0, 4))),
{
    let h = get_repo_hash(repo_path);
    join_str(root, h.as_str())
}

/// Where a new named worktree of a repository goes: inside the
/// repository's hash folder below the managed root.
pub fn worktree_destination(root: &str, repo_path: &str, name: &str) -> (r: String)
    ensures
        r@ == join_of(join_of(root@, hex_text(sha256_of(repo_path.spec_bytes()).subrange(0, 4))), name@),
{
    let base = get_worktree_base_for_repo(root, repo_path);
    join_str(base.as_str(), name)
}

/// The marker file that records which repository a hash folder belongs to.
pub fn repo_info_path(root: &str, repo_path: &str) -> (r: String)
    ensures
        r@ == join_of(
            join_of(root@, hex_text(sha256_of(repo_path.spec_bytes()).subrange(0, 4))),
            ".aristar-repo-info.json"@,
        ),
{
    let base = get_worktree_base_for_repo(root, repo_path);
    join_str(base.as_str(), ".aristar-repo-info.json")
}

/// The managed root below a home directory.
pub fn get_aristar_worktrees_base(home: &str) -> (r: String)
    ensures
        r@ == join_of(home@, ".aristar-worktrees"@),
{
    join_str(home, ".aristar-worktrees")
}

/// The repository store file below the managed root.
pub fn get_store_path(root: &str) -> (r: String)
    ensures
        r@ == join_of(root@, "store.json"@),
{
    join_str(root, "store.json")
}

/// The folder of all task folders below the managed root.
pub fn get_tasks_base_path(root: &str) -> (r: String)
    ensures
        r@ == join_of(root@, "tasks"@),
{
    join_str(root, "tasks")
}

/// The task store file below the managed root.
pub fn get_tasks_store_path(root: &str) -> (r: String)
    ensures
        r@ == join_of(root@, "tasks.json"@),
{
    join_str(root, "tasks.json")
}

/// The folder of one task below the managed root.
pub fn get_task_folder_path(root: &str, task_id: &str) -> (r: String)
    ensures
        r@ == join_of(join_of(root@, "tasks"@), task_id@),
{
    let base = get_tasks_base_path(root);
    join_str(base.as_str(), task_id)
}

/// Eight lower-case hex digits of the low 32 bits of `h`, most significant
/// first.
pub open spec fn hex8(h: u64) -> Seq<char> {
    Seq::new(8, |i: int| hex_digit(((h as int % 0x1_0000_0000) / pow16(7 - i)) % 16))
}

pub open spec fn pow16(e: int) -> int
    decreases e,
{
    if e <= 0 {
        1
    } else {
        16 * pow16(e - 1)
    }
}

/// A task identifier from a hash value: `hex8`.
pub fn format_task_id(h: u64) -> (r: String)
    ensures
        r@ == hex8(h),
{
    let digits: [char; 16] = ['0', '1', '2', '3', '4', '5', '6', '7', '8', '9', 'a', 'b', 'c', 'd', 'e', 'f'];
    proof {
        reveal_strlit("0123456789abcdef");
        assert(digits@ =~= "0123456789abcdef"@);
        reveal_with_fuel(pow16, 8);
    }
    let low: u64 = h % 0x1_0000_0000;
    let mut out: Vec<char> = Vec::new();
    let mut k: usize = 0;
    let mut div: u64 = 0x1000_0000;
    while k < 8
        invariant
            k <= 8,
            low == h as int % 0x1_0000_0000,
            div as int == pow16(7 - k),
            digits@ == "0123456789abcdef"@,
            out@ == hex8(h).subrange(0, k as int),
        decreases 8 - k,
    {
        proof {
            reveal_with_fuel(pow16, 8);
        }
        let d = ((low / div) % 16) as usize;
        out.push(digits[d]);
        assert(out@ =~= hex8(h).subrange(0, k + 1));
        if k < 7 {
            div = div / 16;
        }
        k = k + 1;
    }
    assert(hex8(h).subrange(0, 8) =~= hex8(h));
    string_of(out.as_slice())
}

/// Relies on `DefaultHasher`: a hash of the name and a time stamp. The value
/// depends on the time given and on the standard library's hasher.
#[verifier::external_body]
fn name_time_hash(name: &str, millis: i64) -> (r: u64) {
    let mut hasher = std::collections::hash_map::DefaultHasher::new();
    std::hash::Hash::hash(name, &mut hasher);
    std::hash::Hash::hash(&millis, &mut hasher);
    std::hash::Hasher::finish(&hasher)
}

/// A fresh eight-hex-digit task identifier from the name and the current
/// time.
pub fn generate_task_id(name: &str) -> (r: String)
    ensures
        exists|h: u64| r@ == hex8(h),
{
    let now = now_millis();
    let h = name_time_hash(name, now);
    format_task_id(h)
}

} // verus!
