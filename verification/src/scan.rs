//! Selecting image files out of a directory walk.
//!
//! The walk itself is filesystem work done by the caller; what stands
//! here is the decision logic: which entries count as image files, and
//! what a path's basename is.

use vstd::prelude::*;

use crate::date::{find_last_sep, last_sep_before};

verus! {

/// One entry of a directory walk, as plain values: where it is and
/// whether it is a regular file.
#[derive(Debug, Clone)]
pub struct WalkEntry {
    pub path: String,
    pub is_file: bool,
}

/// Case-insensitive match of one character against a lower-case letter.
pub open spec fn eq_ci(c: char, lower: char) -> bool {
    c == lower || c as int == lower as int - 32
}

/// Whether an extension, case-insensitively, is on the image allow-list
/// (raw-camera `cr2` and JPEG `jpg`).
pub open spec fn is_image_ext(e: Seq<char>) -> bool {
    e.len() == 3 && ((eq_ci(e[0], 'c') && eq_ci(e[1], 'r') && e[2] == '2') || (eq_ci(e[0], 'j')
        && eq_ci(e[1], 'p') && eq_ci(e[2], 'g')))
}

/// The index of the last dot strictly before `end` and at or after
/// `from`, or -1.
pub open spec fn last_dot_before(s: Seq<char>, from: int, end: int) -> int
    decreases end - from,
{
    if end <= from {
        -1
    } else if s[end - 1] == '.' {
        end - 1
    } else {
        last_dot_before(s, from, end - 1)
    }
}

/// The extension of a path's basename: what follows the last dot,
/// provided something other than the dot precedes it within the
/// basename.
pub open spec fn extension_spec(p: Seq<char>) -> Option<Seq<char>> {
    let start = last_sep_before(p, p.len() as int) + 1;
    let di = last_dot_before(p, start, p.len() as int);
    if di > start {
        Some(p.subrange(di + 1, p.len() as int))
    } else {
        None
    }
}

/// The basename of a path: what follows the last separator.
pub open spec fn basename_spec(p: Seq<char>) -> Seq<char> {
    p.subrange(last_sep_before(p, p.len() as int) + 1, p.len() as int)
}

/// Whether a walk entry is a regular file with an allow-listed image
/// extension.
pub open spec fn is_image_file_spec(is_file: bool, p: Seq<char>) -> bool {
    is_file && match extension_spec(p) {
        Some(e) => is_image_ext(e),
        None => false,
    }
}

/// Decide whether a walk entry, given as its path and whether it is a
/// regular file, is an image file to back up.
pub fn is_image_file(is_file: bool, path: &str) -> (r: bool)
    ensures
        r == is_image_file_spec(is_file, path@),
{
    if !is_file {
        return false;
    }
    let len: usize = path.unicode_len();
    let start: usize = match find_last_sep(path, len) {
        Some(i) => i + 1,
        None => 0,
    };
    let di = match find_last_dot(path, start, len) {
        Some(i) => i,
        None => {
            return false;
        },
    };
    if di <= start {
        return false;
    }
    if len - di != 4 {
        assert(extension_spec(path@).unwrap().len() != 3);
        return false;
    }
    let c0 = path.get_char(di + 1);
    let c1 = path.get_char(di + 2);
    let c2 = path.get_char(di + 3);
    proof {
        let e = extension_spec(path@).unwrap();
        assert(e.len() == 3);
        assert(e[0] == path@[di + 1] && e[1] == path@[di + 2] && e[2] == path@[di + 3]);
    }
    ((c0 == 'c' || c0 == 'C') && (c1 == 'r' || c1 == 'R') && c2 == '2') || ((c0 == 'j' || c0
        == 'J') && (c1 == 'p' || c1 == 'P') && (c2 == 'g' || c2 == 'G'))
}

/// Scan backwards from `end` (down to `from`) for the last dot.
fn find_last_dot(s: &str, from: usize, end: usize) -> (r: Option<usize>)
    requires
        from <= end <= s@.len(),
    ensures
        match r {
            Some(i) => last_dot_before(s@, from as int, end as int) == i as int && from <= i < end
                && s@[i as int] == '.',
            None => last_dot_before(s@, from as int, end as int) == -1,
        },
{
    let mut j: usize = end;
    while j > from
        invariant
            from <= j <= end <= s@.len(),
            last_dot_before(s@, from as int, end as int) == last_dot_before(
                s@,
                from as int,
                j as int,
            ),
        decreases j,
    {
        let c = s.get_char(j - 1);
        if c == '.' {
            return Some(j - 1);
        }
        j = j - 1;
    }
    None
}

/// The basename of a path.
pub fn basename(path: &str) -> (r: &str)
    ensures
        r@ == basename_spec(path@),
{
    let len: usize = path.unicode_len();
    let start: usize = match find_last_sep(path, len) {
        Some(i) => i + 1,
        None => 0,
    };
    path.substring_char(start, len)
}

} // verus!
