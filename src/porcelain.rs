//! The worktree inventory: parsing `git worktree list --porcelain` and
//! turning its blocks into `WorktreeInfo` records.

use vstd::prelude::*;
use crate::lines::{line_views, lines_of, split_lines};
use crate::text::{chars_of, copy_range, has_prefix, slice_eq, starts_with, string_of};

verus! {

/// One block of the porcelain listing, as written.
#[derive(Debug, Clone, PartialEq, Eq)]
pub struct PorcelainEntry {
    pub path: String,
    pub head: Option<String>,
    pub branch: Option<String>,
    pub locked: bool,
    pub lock_reason: Option<String>,
    pub bare: bool,
}

/// A block of the listing as it is being read.
pub struct BlockModel {
    pub path: Option<Seq<char>>,
    pub head: Option<Seq<char>>,
    pub branch: Option<Seq<char>>,
    pub locked: bool,
    pub lock_reason: Option<Seq<char>>,
    pub bare: bool,
}

/// A finished block.
pub struct EntryModel {
    pub path: Seq<char>,
    pub head: Option<Seq<char>>,
    pub branch: Option<Seq<char>>,
    pub locked: bool,
    pub lock_reason: Option<Seq<char>>,
    pub bare: bool,
}

pub open spec fn opt_view(o: Option<String>) -> Option<Seq<char>> {
    match o {
        Some(s) => Some(s@),
        None => None,
    }
}

pub open spec fn opt_chars(o: Option<Vec<char>>) -> Option<Seq<char>> {
    match o {
        Some(s) => Some(s@),
        None => None,
    }
}

impl View for PorcelainEntry {
    type V = EntryModel;

    open spec fn view(&self) -> EntryModel {
        EntryModel {
            path: self.path@,
            head: opt_view(self.head),
            branch: opt_view(self.branch),
            locked: self.locked,
            lock_reason: opt_view(self.lock_reason),
            bare: self.bare,
        }
    }
}

pub open spec fn empty_block() -> BlockModel {
    BlockModel { path: None, head: None, branch: None, locked: false, lock_reason: None, bare: false }
}

/// What one non-empty line adds to the block being read. Lines of other
/// kinds (`detached`, `prunable ...`) add nothing.
pub open spec fn apply_line(b: BlockModel, l: Seq<char>) -> BlockModel {
    if has_prefix(l, "worktree "@) {
        BlockModel { path: Some(l.subrange(9, l.len() as int)), ..b }
    } else if has_prefix(l, "HEAD "@) {
        BlockModel { head: Some(l.subrange(5, l.len() as int)), ..b }
    } else if has_prefix(l, "branch "@) {
        BlockModel { branch: Some(l.subrange(7, l.len() as int)), ..b }
    } else if l == "locked"@ {
        BlockModel { locked: true, ..b }
    } else if has_prefix(l, "locked "@) {
        BlockModel { locked: true, lock_reason: Some(l.subrange(7, l.len() as int)), ..b }
    } else if l == "bare"@ {
        BlockModel { bare: true, ..b }
    } else {
        b
    }
}

/// A block that named a worktree becomes an entry; one that did not is
/// dropped.
pub open spec fn close_block(done: Seq<EntryModel>, b: BlockModel) -> Seq<EntryModel> {
    match b.path {
        Some(p) => done.push(
            EntryModel {
                path: p,
                head: b.head,
                branch: b.branch,
                locked: b.locked,
                lock_reason: b.lock_reason,
                bare: b.bare,
            },
        ),
        None => done,
    }
}

/// Reading the lines in order: the entries finished so far and the block
/// still open. A blank line ends a block.
pub open spec fn block_scan(lines: Seq<Seq<char>>) -> (Seq<EntryModel>, BlockModel)
    decreases lines.len(),
{
    if lines.len() == 0 {
        (Seq::empty(), empty_block())
    } else {
        let (done, b) = block_scan(lines.drop_last());
        let l = lines.last();
        if l.len() == 0 {
            (close_block(done, b), empty_block())
        } else {
            (done, apply_line(b, l))
        }
    }
}

/// The entries of a porcelain listing, in order; the last block needs no
/// blank line after it.
pub open spec fn porcelain_entries(text: Seq<char>) -> Seq<EntryModel> {
    let (done, b) = block_scan(lines_of(text));
    close_block(done, b)
}

pub open spec fn entry_views(v: Seq<PorcelainEntry>) -> Seq<EntryModel> {
    v.map_values(|e: PorcelainEntry| e@)
}

fn opt_string(o: &Option<Vec<char>>) -> (r: Option<String>)
    ensures
        opt_view(r) == opt_chars(*o),
{
    match o {
        Some(v) => Some(string_of(v.as_slice())),
        None => None,
    }
}

/// The block being read, held as characters.
struct Block {
    path: Option<Vec<char>>,
    head: Option<Vec<char>>,
    branch: Option<Vec<char>>,
    locked: bool,
    lock_reason: Option<Vec<char>>,
    bare: bool,
}

impl View for Block {
    type V = BlockModel;

    closed spec fn view(&self) -> BlockModel {
        BlockModel {
            path: opt_chars(self.path),
            head: opt_chars(self.head),
            branch: opt_chars(self.branch),
            locked: self.locked,
            lock_reason: opt_chars(self.lock_reason),
            bare: self.bare,
        }
    }
}

fn new_block() -> (r: Block)
    ensures
        r@ == empty_block(),
{
    Block { path: None, head: None, branch: None, locked: false, lock_reason: None, bare: false }
}

fn prefix_is(l: &[char], p: &str) -> (r: bool)
    ensures
        r == has_prefix(l@, p@),
{
    let pc = chars_of(p);
    starts_with(l, pc.as_slice())
}

fn equals(l: &[char], p: &str) -> (r: bool)
    ensures
        r == (l@ == p@),
{
    let pc = chars_of(p);
    slice_eq(l, pc.as_slice())
}

proof fn lemma_lit_lens()
    ensures
        "worktree "@.len() == 9,
        "HEAD "@.len() == 5,
        "branch "@.len() == 7,
        "locked "@.len() == 7,
{
    reveal_strlit("worktree ");
    reveal_strlit("HEAD ");
    reveal_strlit("branch ");
    reveal_strlit("locked ");
}

fn read_line(b: &mut Block, l: &[char])
    ensures
        final(b)@ == apply_line(old(b)@, l@),
{
    proof {
        lemma_lit_lens();
    }
    if prefix_is(l, "worktree ") {
        b.path = Some(copy_range(l, 9, l.len()));
    } else if prefix_is(l, "HEAD ") {
        b.head = Some(copy_range(l, 5, l.len()));
    } else if prefix_is(l, "branch ") {
        b.branch = Some(copy_range(l, 7, l.len()));
    } else if equals(l, "locked") {
        b.locked = true;
    } else if prefix_is(l, "locked ") {
        b.locked = true;
        b.lock_reason = Some(copy_range(l, 7, l.len()));
    } else if equals(l, "bare") {
        b.bare = true;
    }
}

fn finish_block(done: &mut Vec<PorcelainEntry>, b: &Block)
    ensures
        entry_views(final(done)@) == close_block(entry_views(old(done)@), b@),
{
    match &b.path {
        Some(p) => {
            let e = PorcelainEntry {
                path: string_of(p.as_slice()),
                head: opt_string(&b.head),
                branch: opt_string(&b.branch),
                locked: b.locked,
                lock_reason: opt_string(&b.lock_reason),
                bare: b.bare,
            };
            done.push(e);
            assert(entry_views(done@) =~= entry_views(done@.drop_last()).push(e@));
        },
        None => {},
    }
}

/// Parses the porcelain listing into its entries (see `porcelain_entries`).
pub fn parse_worktree_porcelain(text: &str) -> (r: Vec<PorcelainEntry>)
    ensures
        entry_views(r@) == porcelain_entries(text@),
{
    let cs = chars_of(text);
    let lines = split_lines(cs.as_slice());
    let mut done: Vec<PorcelainEntry> = Vec::new();
    let mut b = new_block();
    let mut i: usize = 0;
    while i < lines.len()
        invariant
            i <= lines.len(),
            line_views(lines@) == lines_of(text@),
            block_scan(line_views(lines@).subrange(0, i as int)) == (entry_views(done@), b@),
        decreases lines.len() - i,
    {
        assert(line_views(lines@).subrange(0, i + 1).drop_last() == line_views(lines@).subrange(0, i as int));
        assert(line_views(lines@).subrange(0, i + 1).last() == lines@[i as int]@);
        let l = &lines[i];
        if l.len() == 0 {
            finish_block(&mut done, &b);
            b = new_block();
        } else {
            read_line(&mut b, l.as_slice());
        }
        i = i + 1;
    }
    assert(line_views(lines@).subrange(0, lines.len() as int) == line_views(lines@));
    finish_block(&mut done, &b);
    done
}

} // verus!
