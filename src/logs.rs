//! Naming of rotated log files: `<base>.log`, `<base>.1.log`, `<base>.2.log`.

use vstd::prelude::*;
use crate::numbers::{decimal_i64, parse_i64};
use crate::text::{chars_of, copy_range, has_prefix, starts_with};

verus! {

/// `s` without its leading dots.
pub open spec fn strip_dots(s: Seq<char>) -> Seq<char>
    decreases s.len(),
{
    if s.len() > 0 && s[0] == '.' {
        strip_dots(s.drop_first())
    } else {
        s
    }
}

pub open spec fn ends_with_log(s: Seq<char>) -> bool {
    s.len() >= 4 && s.subrange(s.len() - 4, s.len() as int) == ".log"@
}

/// `s` without any number of trailing `.log`.
pub open spec fn strip_log(s: Seq<char>) -> Seq<char>
    decreases s.len(),
{
    if ends_with_log(s) {
        strip_log(s.subrange(0, s.len() - 4))
    } else {
        s
    }
}

/// The rotation number in a log file name: what follows `base`, without
/// leading dots and trailing `.log`, read as a number; 0 when there is none.
pub open spec fn log_number(file_name: Seq<char>, base: Seq<char>) -> int {
    let rest = if has_prefix(file_name, base) {
        file_name.subrange(base.len() as int, file_name.len() as int)
    } else {
        Seq::empty()
    };
    match decimal_i64(strip_log(strip_dots(rest))) {
        Some(v) => v,
        None => 0,
    }
}

fn log_suffix_at(s: &[char], lo: usize, hi: usize) -> (r: bool)
    requires
        lo <= hi <= s@.len(),
    ensures
        r == ends_with_log(s@.subrange(lo as int, hi as int)),
{
    proof {
        reveal_strlit(".log");
    }
    if hi - lo < 4 {
        return false;
    }
    let r = s[hi - 4] == '.' && s[hi - 3] == 'l' && s[hi - 2] == 'o' && s[hi - 1] == 'g';
    let ghost cur = s@.subrange(lo as int, hi as int);
    let ghost tail = cur.subrange(cur.len() - 4, cur.len() as int);
    assert(tail[0] == s@[hi - 4] && tail[1] == s@[hi - 3] && tail[2] == s@[hi - 2] && tail[3] == s@[hi - 1]);
    if r {
        assert(tail =~= ".log"@);
    }
    r
}

fn skip_dots(s: &[char]) -> (lo: usize)
    ensures
        lo <= s@.len(),
        strip_dots(s@) == s@.subrange(lo as int, s@.len() as int),
{
    let mut lo: usize = 0;
    assert(s@.subrange(0, s@.len() as int) == s@);
    while lo < s.len() && s[lo] == '.'
        invariant
            lo <= s.len(),
            strip_dots(s@) == strip_dots(s@.subrange(lo as int, s@.len() as int)),
        decreases s.len() - lo,
    {
        assert(s@.subrange(lo as int, s@.len() as int).drop_first() == s@.subrange(lo + 1, s@.len() as int));
        lo = lo + 1;
    }
    lo
}

fn skip_logs(s: &[char], lo: usize) -> (hi: usize)
    requires
        lo <= s@.len(),
    ensures
        lo <= hi <= s@.len(),
        strip_log(s@.subrange(lo as int, s@.len() as int)) == s@.subrange(lo as int, hi as int),
{
    let mut hi: usize = s.len();
    while log_suffix_at(s, lo, hi)
        invariant
            lo <= hi <= s.len(),
            strip_log(s@.subrange(lo as int, s@.len() as int)) == strip_log(s@.subrange(lo as int, hi as int)),
        decreases hi,
    {
        let ghost cur = s@.subrange(lo as int, hi as int);
        assert(cur.subrange(0, cur.len() - 4) =~= s@.subrange(lo as int, hi - 4));
        hi = hi - 4;
    }
    hi
}

/// The rotation number of log file `file_name` of the log `base_name` (see
/// `log_number`).
pub fn extract_log_timestamp(file_name: &str, base_name: &str) -> (r: i64)
    ensures
        r as int == log_number(file_name@, base_name@),
{
    let f = chars_of(file_name);
    let b = chars_of(base_name);
    let rest: Vec<char> = if starts_with(f.as_slice(), b.as_slice()) {
        copy_range(f.as_slice(), b.len(), f.len())
    } else {
        Vec::new()
    };
    let lo = skip_dots(rest.as_slice());
    let hi = skip_logs(rest.as_slice(), lo);
    let num = copy_range(rest.as_slice(), lo, hi);
    match parse_i64(num.as_slice()) {
        Some(v) => v,
        None => 0,
    }
}

} // verus!
