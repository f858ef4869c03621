//! Unix path components held as text: the final component (`file_name`)
//! and its stem (`file_stem`).

use vstd::prelude::*;

use crate::text::{chars_eq, chars_of, slice_chars};

verus! {

/// Start of the path segment that ends at `j`: the index after the last `/`
/// before `j`, or 0.
pub open spec fn seg_start(p: Seq<char>, j: int) -> int
    decreases j,
{
    if j <= 0 || j > p.len() {
        0
    } else if p[j - 1] == '/' {
        j
    } else {
        seg_start(p, j - 1)
    }
}

/// The final normal component of the path text `p[..j]`: empty and `.`
/// segments are skipped, a final `..` (or no segment at all) gives `None`.
pub open spec fn file_name_upto(p: Seq<char>, j: int) -> Option<Seq<char>>
    decreases j,
{
    if j <= 0 || j > p.len() {
        None
    } else {
        let i = seg_start(p, j);
        let seg = p.subrange(i, j);
        if seg.len() == 0 || seg == "."@ {
            if 0 < i <= j {
                file_name_upto(p, i - 1)
            } else {
                None
            }
        } else if seg == ".."@ {
            None
        } else {
            Some(seg)
        }
    }
}

/// The final component of a path (`Path::file_name`).
pub open spec fn file_name(p: Seq<char>) -> Option<Seq<char>> {
    file_name_upto(p, p.len() as int)
}

/// Index of the last `.` in `t[..j]`.
pub open spec fn last_dot(t: Seq<char>, j: int) -> Option<int>
    decreases j,
{
    if j <= 0 || j > t.len() {
        None
    } else if t[j - 1] == '.' {
        Some(j - 1)
    } else {
        last_dot(t, j - 1)
    }
}

/// The stem of a file name: the part before the last `.`, unless there is
/// no `.` or the only split would leave an empty stem.
pub open spec fn stem_of(name: Seq<char>) -> Seq<char> {
    match last_dot(name, name.len() as int) {
        Some(k) => if k == 0 {
            name
        } else {
            name.subrange(0, k)
        },
        None => name,
    }
}

/// The stem of the final component of a path (`Path::file_stem`).
pub open spec fn file_stem(p: Seq<char>) -> Option<Seq<char>> {
    match file_name(p) {
        Some(n) => Some(stem_of(n)),
        None => None,
    }
}

/// The final component of a path.
pub fn file_name_exec(p: &Vec<char>) -> (r: Option<Vec<char>>)
    ensures
        match r {
            Some(v) => file_name(p@) == Some(v@),
            None => file_name(p@) is None,
        },
{
    let dot = chars_of(".");
    let dotdot = chars_of("..");
    let n = p.len();
    let mut j: usize = n;
    loop
        invariant
            n == p@.len(),
            j <= n,
            dot@ == "."@,
            dotdot@ == ".."@,
            file_name(p@) == file_name_upto(p@, j as int),
        decreases j,
    {
        if j == 0 {
            return None;
        }
        let mut i: usize = j;
        while i > 0 && p[i - 1] != '/'
            invariant
                n == p@.len(),
                i <= j <= n,
                seg_start(p@, j as int) == seg_start(p@, i as int),
            decreases i,
        {
            i = i - 1;
        }
        let seg = slice_chars(p, i, j);
        if seg.len() == 0 || chars_eq(&seg, &dot) {
            if i > 0 {
                j = i - 1;
            } else {
                return None;
            }
        } else if chars_eq(&seg, &dotdot) {
            return None;
        } else {
            return Some(seg);
        }
    }
}

/// The stem of a file name.
pub fn stem_exec(name: &Vec<char>) -> (r: Vec<char>)
    ensures
        r@ == stem_of(name@),
{
    let n = name.len();
    let mut j: usize = n;
    while j > 0 && name[j - 1] != '.'
        invariant
            n == name@.len(),
            j <= n,
            last_dot(name@, n as int) == last_dot(name@, j as int),
        decreases j,
    {
        j = j - 1;
    }
    if j == 0 {
        slice_chars(name, 0, n)
    } else if j - 1 == 0 {
        slice_chars(name, 0, n)
    } else {
        slice_chars(name, 0, j - 1)
    }
}

} // verus!
