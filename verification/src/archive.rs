//! What the filesystem close source decides about an archive directory:
//! which files are PRD markdown, which of them are closed, and the order in
//! which the closed notes are returned. Listing and reading the directory is
//! the program's side.

use vstd::prelude::*;

use crate::model::{CloseRef, CloseRefView};
use crate::paths::{file_name, file_name_exec, last_dot};
use crate::source::{RawClose, RawCloseView};
use crate::text::{chars_eq, chars_of, contains, contains_exec, lower_str, lowercase_of, slice_chars};

verus! {

/// The extension of a path: what follows the last `.` of its final
/// component, unless that `.` starts the name (`Path::extension`).
pub open spec fn extension(p: Seq<char>) -> Option<Seq<char>> {
    match file_name(p) {
        Some(n) => match last_dot(n, n.len() as int) {
            Some(k) => if k == 0 {
                None
            } else {
                Some(n.subrange(k + 1, n.len() as int))
            },
            None => None,
        },
        None => None,
    }
}

/// Whether a path names a markdown file (extension `md`).
pub fn is_markdown(path: &str) -> (r: bool)
    ensures
        r == (extension(path@) == Some("md"@)),
{
    let md = chars_of("md");
    let p = chars_of(path);
    match file_name_exec(&p) {
        None => false,
        Some(n) => {
            let len = n.len();
            let mut j: usize = len;
            while j > 0 && n[j - 1] != '.'
                invariant
                    len == n@.len(),
                    j <= len,
                    last_dot(n@, len as int) == last_dot(n@, j as int),
                decreases j,
            {
                j = j - 1;
            }
            if j <= 1 {
                false
            } else {
                let ext = slice_chars(&n, j, len);
                chars_eq(&ext, &md)
            }
        },
    }
}

/// The text of a note marks it closed.
pub open spec fn is_closed_text(text: Seq<char>) -> bool {
    contains(lowercase_of(text), "status: closed"@)
}

/// Code-point lexicographic order on strings (the order of `String`).
pub open spec fn lex_lt(a: Seq<char>, b: Seq<char>) -> bool
    decreases a.len(),
{
    if a.len() == 0 {
        b.len() > 0
    } else if b.len() == 0 {
        false
    } else if a[0] != b[0] {
        a[0] < b[0]
    } else {
        lex_lt(a.drop_first(), b.drop_first())
    }
}

/// `lex_lt` is asymmetric.
pub proof fn lemma_lex_asymmetric(a: Seq<char>, b: Seq<char>)
    ensures
        lex_lt(a, b) ==> !lex_lt(b, a),
    decreases a.len(),
{
    if a.len() > 0 && b.len() > 0 && a[0] == b[0] {
        lemma_lex_asymmetric(a.drop_first(), b.drop_first());
    }
}

fn lex_lt_exec(a: &Vec<char>, b: &Vec<char>) -> (r: bool)
    ensures
        r == lex_lt(a@, b@),
{
    let na = a.len();
    let nb = b.len();
    let mut i: usize = 0;
    assert(a@.skip(0) =~= a@);
    assert(b@.skip(0) =~= b@);
    while i < na && i < nb && a[i] == b[i]
        invariant
            na == a@.len(),
            nb == b@.len(),
            i <= na,
            i <= nb,
            lex_lt(a@, b@) == lex_lt(a@.skip(i as int), b@.skip(i as int)),
        decreases na - i,
    {
        assert(a@.skip(i as int).drop_first() =~= a@.skip(i + 1));
        assert(b@.skip(i as int).drop_first() =~= b@.skip(i + 1));
        i = i + 1;
    }
    if i == na {
        assert(a@.skip(i as int).len() == 0);
        i < nb
    } else if i == nb {
        assert(b@.skip(i as int).len() == 0);
        false
    } else {
        assert(a@.skip(i as int)[0] == a@[i as int]);
        assert(b@.skip(i as int)[0] == b@[i as int]);
        a[i] < b[i]
    }
}

/// The sort key of a note: its displayed reference.
pub open spec fn key(n: RawCloseView) -> Seq<char> {
    n.reference.text()
}

/// No note is followed by one with a smaller key.
pub open spec fn sorted_by_reference(ns: Seq<RawCloseView>) -> bool {
    forall|i: int| 0 <= i < ns.len() - 1 ==> !lex_lt(key(#[trigger] ns[i + 1]), key(ns[i]))
}

/// The closed notes among the files `(path, text)`, in the files' order.
pub open spec fn closed_of(files: Seq<(Seq<char>, Seq<char>)>) -> Seq<RawCloseView>
    decreases files.len(),
{
    if files.len() == 0 {
        seq![]
    } else if is_closed_text(files.last().1) {
        closed_of(files.drop_last()).push(
            RawCloseView { reference: CloseRefView::Prd(files.last().0), text: files.last().1 },
        )
    } else {
        closed_of(files.drop_last())
    }
}

/// The views of a list of `(path, text)` pairs.
pub open spec fn file_views(files: Seq<(String, String)>) -> Seq<(Seq<char>, Seq<char>)> {
    files.map_values(|f: (String, String)| (f.0@, f.1@))
}

/// The views of a list of notes.
pub open spec fn raw_views(ns: Seq<RawClose>) -> Seq<RawCloseView> {
    ns.map_values(|n: RawClose| n@)
}

fn insert_sorted(out: &mut Vec<RawClose>, x: RawClose)
    requires
        sorted_by_reference(raw_views(old(out)@)),
    ensures
        sorted_by_reference(raw_views(final(out)@)),
        raw_views(final(out)@).to_multiset() == raw_views(old(out)@).to_multiset().insert(x@),
{
    let xk = chars_of(x.reference.display_string().as_str());
    let n = out.len();
    let mut pos: usize = 0;
    while pos < n
        invariant
            n == out@.len(),
            pos <= n,
            xk@ == key(x@),
            pos > 0 ==> !lex_lt(key(x@), key(out@[pos - 1]@)),
        ensures
            pos <= n,
            pos > 0 ==> !lex_lt(key(x@), key(out@[pos - 1]@)),
            pos < n ==> lex_lt(key(x@), key(out@[pos as int]@)),
        decreases n - pos,
    {
        let k = chars_of(out[pos].reference.display_string().as_str());
        if lex_lt_exec(&xk, &k) {
            break;
        }
        pos = pos + 1;
    }
    let ghost old_views = raw_views(out@);
    proof {
        if pos < n {
            lemma_lex_asymmetric(key(x@), key(out@[pos as int]@));
        }
    }
    out.insert(pos, x);
    assert(raw_views(out@) =~= old_views.insert(pos as int, x@));
    proof {
        vstd::seq_lib::to_multiset_insert(old_views, pos as int, x@);
    }
    let ghost nv = raw_views(out@);
    assert forall|i: int| 0 <= i < nv.len() - 1 implies !lex_lt(key(#[trigger] nv[i + 1]), key(nv[i])) by {
        if i + 1 < pos {
            assert(nv[i + 1] == old_views[i + 1]);
            assert(nv[i] == old_views[i]);
        } else if i + 1 == pos {
            assert(nv[i + 1] == x@);
            assert(nv[i] == old_views[i]);
            assert(old_views[i] == out@[i]@) by {
                assert(old_views[i] == old(out)@[i]@);
            }
        } else if i == pos {
            assert(nv[i] == x@);
            assert(nv[i + 1] == old_views[i]);
        } else {
            let j = i - 1;
            assert(nv[i + 1] == old_views[j + 1]);
            assert(nv[i] == old_views[j]);
            assert(!lex_lt(key(old_views[j + 1]), key(old_views[j])));
        }
    }
}

/// The closed notes among the files read from an archive, as `(path, text)`
/// pairs: the files whose lowercased text holds "status: closed", as PRD
/// references, sorted by path.
pub fn closed_notes(files: &Vec<(String, String)>) -> (r: Vec<RawClose>)
    ensures
        sorted_by_reference(raw_views(r@)),
        raw_views(r@).to_multiset() == closed_of(file_views(files@)).to_multiset(),
{
    let ghost fv = file_views(files@);
    let status_closed = chars_of("status: closed");
    let mut out: Vec<RawClose> = Vec::new();
    let n = files.len();
    assert(fv.take(0) =~= Seq::<(Seq<char>, Seq<char>)>::empty());
    assert(raw_views(out@) =~= Seq::<RawCloseView>::empty());
    assert(closed_of(fv.take(0)) =~= Seq::<RawCloseView>::empty());
    for i in 0..n
        invariant
            n == files@.len(),
            fv == file_views(files@),
            status_closed@ == "status: closed"@,
            sorted_by_reference(raw_views(out@)),
            raw_views(out@).to_multiset() == closed_of(fv.take(i as int)).to_multiset(),
    {
        assert(fv.take(i + 1).drop_last() =~= fv.take(i as int));
        assert(fv.take(i + 1).last() == fv[i as int]);
        let low = lower_str(files[i].1.as_str());
        if contains_exec(&low, &status_closed) {
            let note = RawClose {
                reference: CloseRef::Prd(files[i].0.clone()),
                text: files[i].1.clone(),
            };
            let ghost nv = note@;
            insert_sorted(&mut out, note);
            proof {
                vstd::seq_lib::to_multiset_build(closed_of(fv.take(i as int)), nv);
            }
        }
    }
    assert(fv.take(n as int) =~= fv);
    out
}

} // verus!
