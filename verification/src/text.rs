//! Character-level text operations over `Seq<char>`: line splitting,
//! trimming, substring search and decimal rendering, each with the
//! mathematical definition it is proved against.

use vstd::prelude::*;
use vstd::utf8::{encode_utf8, is_char_boundary};

verus! {

// ── Specifications ──────────────────────────────────────────────────────────

/// Unicode `White_Space`, the property that `char::is_whitespace` tests.
pub open spec fn is_ws(c: char) -> bool {
    ||| ('\u{9}' <= c && c <= '\u{d}')
    ||| c == ' '
    ||| c == '\u{85}'
    ||| c == '\u{a0}'
    ||| c == '\u{1680}'
    ||| ('\u{2000}' <= c && c <= '\u{200a}')
    ||| c == '\u{2028}'
    ||| c == '\u{2029}'
    ||| c == '\u{202f}'
    ||| c == '\u{205f}'
    ||| c == '\u{3000}'
}

/// Index of the first non-whitespace character at or after `i`
/// (or `t.len()` when there is none).
pub open spec fn ws_prefix_end(t: Seq<char>, i: int) -> int
    decreases t.len() - i,
{
    if 0 <= i < t.len() && is_ws(t[i]) {
        ws_prefix_end(t, i + 1)
    } else {
        i
    }
}

/// Index just past the last non-whitespace character of `t[lo..j]`
/// (or `lo` when there is none).
pub open spec fn ws_suffix_start(t: Seq<char>, j: int, lo: int) -> int
    decreases j - lo,
{
    if lo < j <= t.len() && is_ws(t[j - 1]) {
        ws_suffix_start(t, j - 1, lo)
    } else {
        j
    }
}

/// `t` with leading and trailing whitespace removed (`str::trim`).
pub open spec fn trim(t: Seq<char>) -> Seq<char> {
    let s = ws_prefix_end(t, 0);
    t.subrange(s, ws_suffix_start(t, t.len() as int, s))
}

/// `t` with leading whitespace removed (`str::trim_start`).
pub open spec fn trim_start(t: Seq<char>) -> Seq<char> {
    t.subrange(ws_prefix_end(t, 0), t.len() as int)
}

/// `t[i..i + p.len()] == p`.
pub open spec fn occurs_at(t: Seq<char>, p: Seq<char>, i: int) -> bool {
    0 <= i && i + p.len() <= t.len() && t.subrange(i, i + p.len()) == p
}

/// `p` occurs somewhere in `t` (`str::contains`).
pub open spec fn contains(t: Seq<char>, p: Seq<char>) -> bool {
    exists|i: int| #[trigger] occurs_at(t, p, i)
}

/// `t` begins with `p` (`str::starts_with`).
pub open spec fn starts_with(t: Seq<char>, p: Seq<char>) -> bool {
    occurs_at(t, p, 0)
}

/// The views of a list of character vectors.
pub open spec fn views(v: Seq<Vec<char>>) -> Seq<Seq<char>> {
    v.map_values(|p: Vec<char>| p@)
}

/// Some pattern of `pats` occurs in `t`.
pub open spec fn contains_any(t: Seq<char>, pats: Seq<Seq<char>>) -> bool {
    exists|k: int| 0 <= k < pats.len() && contains(t, #[trigger] pats[k])
}

/// Index of the first `c` in `t` at or after `from`.
pub open spec fn find_from(t: Seq<char>, c: char, from: int) -> Option<int>
    decreases t.len() - from,
{
    if from < 0 || from >= t.len() {
        None
    } else if t[from] == c {
        Some(from)
    } else {
        find_from(t, c, from + 1)
    }
}

/// Index of the first line feed at or after `p` (or `t.len()`).
pub open spec fn next_nl(t: Seq<char>, p: int) -> int
    decreases t.len() - p,
{
    if p < 0 || p >= t.len() {
        t.len() as int
    } else if t[p] == '\n' {
        p
    } else {
        next_nl(t, p + 1)
    }
}

/// `next_nl` lies between its starting point and the end of the text.
pub proof fn lemma_next_nl_bounds(t: Seq<char>, p: int)
    requires
        0 <= p <= t.len(),
    ensures
        p <= next_nl(t, p) <= t.len(),
        next_nl(t, p) < t.len() ==> t[next_nl(t, p)] == '\n',
    decreases t.len() - p,
{
    if p < t.len() && t[p] != '\n' {
        lemma_next_nl_bounds(t, p + 1);
    }
}

/// The lines of `t` that start at or after `p`: pieces between line feeds,
/// with a carriage return dropped before a line feed, and no empty line
/// after a final line feed.
pub open spec fn lines_from(t: Seq<char>, p: int) -> Seq<Seq<char>>
    decreases t.len() - p
    via lines_from_decreases
{
    if p < 0 || p >= t.len() {
        seq![]
    } else {
        let q = next_nl(t, p);
        let raw = t.subrange(p, q);
        let line = if q < t.len() && raw.len() > 0 && raw.last() == '\r' {
            raw.drop_last()
        } else {
            raw
        };
        if q < t.len() {
            seq![line] + lines_from(t, q + 1)
        } else {
            seq![line]
        }
    }
}

#[via_fn]
proof fn lines_from_decreases(t: Seq<char>, p: int) {
    if 0 <= p < t.len() {
        lemma_next_nl_bounds(t, p);
    }
}

/// The lines of `t` as `str::lines` yields them.
pub open spec fn lines(t: Seq<char>) -> Seq<Seq<char>> {
    lines_from(t, 0)
}

/// The character of a decimal digit.
pub open spec fn digit_char(d: nat) -> char {
    if d == 0 {
        '0'
    } else if d == 1 {
        '1'
    } else if d == 2 {
        '2'
    } else if d == 3 {
        '3'
    } else if d == 4 {
        '4'
    } else if d == 5 {
        '5'
    } else if d == 6 {
        '6'
    } else if d == 7 {
        '7'
    } else if d == 8 {
        '8'
    } else {
        '9'
    }
}

/// Decimal digits of `n`, most significant first, without leading zeros.
pub open spec fn digits(n: nat) -> Seq<char>
    decreases n,
{
    if n < 10 {
        seq![digit_char(n)]
    } else {
        digits(n / 10).push(digit_char(n % 10))
    }
}

/// The decimal rendering of an integer, as `Display` writes it.
pub open spec fn decimal(v: int) -> Seq<char> {
    if v < 0 {
        seq!['-'] + digits((-v) as nat)
    } else {
        digits(v as nat)
    }
}

/// Name for what `str::to_lowercase` returns: the Unicode lowercase mapping
/// of the whole string (context-sensitive, locale-independent).
pub uninterp spec fn lowercase_of(s: Seq<char>) -> Seq<char>;

/// Name for what `format!("{:?}", s)` returns for a string slice: the string
/// in double quotes with `char::escape_debug` escapes applied.
pub uninterp spec fn debug_form(s: Seq<char>) -> Seq<char>;

// ── Trusted calls into std ───────────────────────────────────────────────────

/// Calls `str::to_lowercase`. Its result is claimed to be `lowercase_of`
/// of the argument; nothing more is claimed of it.
#[verifier::external_body]
fn std_to_lowercase(s: &str) -> (r: String)
    ensures
        r@ == lowercase_of(s@),
{
    s.to_lowercase()
}

/// Calls `<str as Debug>::fmt` through `format!`. Its result is claimed to be
/// `debug_form` of the argument; nothing more is claimed of it.
#[verifier::external_body]
fn std_debug_str(s: &str) -> (r: String)
    ensures
        r@ == debug_form(s@),
{
    format!("{:?}", s)
}

/// Calls `String::push`, which appends one character.
#[verifier::external_body]
fn std_push_char(s: &mut String, c: char)
    ensures
        final(s)@ == old(s)@.push(c),
{
    s.push(c)
}

// ── Conversions ──────────────────────────────────────────────────────────────

/// The characters of a string slice.
pub fn chars_of(s: &str) -> (r: Vec<char>)
    ensures
        r@ == s@,
{
    let mut r: Vec<char> = Vec::new();
    broadcast use vstd::string::group_string_axioms;
    for c in it: s.chars()
        invariant
            it.seq() == s@,
            r@ == s@.take(it.index() as int),
    {
        r.push(c);
        assert(s@.take(it.index() + 1) == s@.take(it.index() as int).push(c));
    }
    assert(s@.take(s@.len() as int) == s@);
    r
}

/// A string made of the given characters.
pub fn string_of(cs: &Vec<char>) -> (r: String)
    ensures
        r@ == cs@,
{
    let mut r = String::new();
    let n = cs.len();
    for i in 0..n
        invariant
            n == cs@.len(),
            r@ == cs@.subrange(0, i as int),
    {
        std_push_char(&mut r, cs[i]);
        assert(cs@.subrange(0, i + 1) == cs@.subrange(0, i as int).push(cs@[i as int]));
    }
    assert(cs@.subrange(0, n as int) == cs@);
    r
}

/// Appends characters to a string.
pub fn push_chars(s: &mut String, cs: &Vec<char>)
    ensures
        final(s)@ == old(s)@ + cs@,
{
    let n = cs.len();
    for i in 0..n
        invariant
            n == cs@.len(),
            s@ == old(s)@ + cs@.subrange(0, i as int),
    {
        std_push_char(s, cs[i]);
        assert(cs@.subrange(0, i + 1) == cs@.subrange(0, i as int).push(cs@[i as int]));
    }
    assert(cs@.subrange(0, n as int) == cs@);
}

/// The lowercase form of a character sequence.
pub fn lower(cs: &Vec<char>) -> (r: Vec<char>)
    ensures
        r@ == lowercase_of(cs@),
{
    let s = string_of(cs);
    let l = std_to_lowercase(s.as_str());
    chars_of(l.as_str())
}

/// The lowercase form of a string, as a string.
pub fn lowercase_string(s: &str) -> (r: String)
    ensures
        r@ == lowercase_of(s@),
{
    std_to_lowercase(s)
}

/// The lowercase form of a string.
pub fn lower_str(s: &str) -> (r: Vec<char>)
    ensures
        r@ == lowercase_of(s@),
{
    let l = std_to_lowercase(s);
    chars_of(l.as_str())
}

/// The debug-quoted form of a string.
pub fn debug_quoted(s: &str) -> (r: String)
    ensures
        r@ == debug_form(s@),
{
    std_debug_str(s)
}

/// The debug-quoted form of a character sequence.
pub fn debug_quoted_chars(cs: &Vec<char>) -> (r: String)
    ensures
        r@ == debug_form(cs@),
{
    let s = string_of(cs);
    std_debug_str(s.as_str())
}

// ── Search ───────────────────────────────────────────────────────────────────

/// Whether `p` occurs in `t` at index `i`.
pub fn occurs_at_exec(t: &Vec<char>, p: &Vec<char>, i: usize) -> (r: bool)
    ensures
        r == occurs_at(t@, p@, i as int),
{
    let n = t.len();
    let m = p.len();
    if i > n || m > n - i {
        return false;
    }
    let mut k: usize = 0;
    while k < m
        invariant
            n == t@.len(),
            m == p@.len(),
            i + m <= n,
            k <= m,
            forall|j: int| 0 <= j < k ==> t@[i + j] == p@[j],
        decreases m - k,
    {
        if t[i + k] != p[k] {
            assert(t@.subrange(i as int, i + m)[k as int] != p@[k as int]);
            return false;
        }
        k = k + 1;
    }
    assert(t@.subrange(i as int, i + m) =~= p@);
    true
}

/// Whether `p` occurs anywhere in `t`.
pub fn contains_exec(t: &Vec<char>, p: &Vec<char>) -> (r: bool)
    ensures
        r == contains(t@, p@),
{
    let n = t.len();
    let m = p.len();
    if m > n {
        assert forall|i: int| !#[trigger] occurs_at(t@, p@, i) by {}
        return false;
    }
    let last = n - m;
    let mut i: usize = 0;
    loop
        invariant
            n == t@.len(),
            m == p@.len(),
            last == n - m,
            i <= last,
            forall|j: int| 0 <= j < i ==> !#[trigger] occurs_at(t@, p@, j),
        decreases last - i,
    {
        if occurs_at_exec(t, p, i) {
            return true;
        }
        if i == last {
            assert forall|j: int| !#[trigger] occurs_at(t@, p@, j) by {
                if 0 <= j < i {
                }
            }
            return false;
        }
        i = i + 1;
    }
}

/// `w` stands in `t` at index `i` as a whole word: preceded by the start
/// or whitespace, followed by the end or whitespace.
pub open spec fn word_at(t: Seq<char>, w: Seq<char>, i: int) -> bool {
    &&& occurs_at(t, w, i)
    &&& (i == 0 || is_ws(t[i - 1]))
    &&& (i + w.len() == t.len() || is_ws(t[i + w.len()]))
}

/// `w` is one of the whitespace-separated words of `t`.
pub open spec fn has_word(t: Seq<char>, w: Seq<char>) -> bool {
    exists|i: int| #[trigger] word_at(t, w, i)
}

/// Whether `w` is one of the whitespace-separated words of `t`.
pub fn has_word_exec(t: &Vec<char>, w: &Vec<char>) -> (r: bool)
    ensures
        r == has_word(t@, w@),
{
    let n = t.len();
    let m = w.len();
    if m > n {
        assert forall|i: int| !#[trigger] word_at(t@, w@, i) by {}
        return false;
    }
    let last = n - m;
    let mut i: usize = 0;
    loop
        invariant
            n == t@.len(),
            m == w@.len(),
            last == n - m,
            i <= last,
            forall|j: int| 0 <= j < i ==> !#[trigger] word_at(t@, w@, j),
        decreases last - i,
    {
        if occurs_at_exec(t, w, i) && (i == 0 || is_ws_exec(t[i - 1])) && (i + m == n
            || is_ws_exec(t[i + m])) {
            assert(word_at(t@, w@, i as int));
            return true;
        }
        if i == last {
            assert forall|j: int| !#[trigger] word_at(t@, w@, j) by {
                if 0 <= j < i {
                }
            }
            return false;
        }
        i = i + 1;
    }
}

/// Whether `t` begins with `p`.
pub fn starts_with_exec(t: &Vec<char>, p: &Vec<char>) -> (r: bool)
    ensures
        r == starts_with(t@, p@),
{
    occurs_at_exec(t, p, 0)
}

/// Whether some pattern of `pats` occurs in `t`.
pub fn contains_any_exec(t: &Vec<char>, pats: &Vec<Vec<char>>) -> (r: bool)
    ensures
        r == contains_any(t@, views(pats@)),
{
    let ghost vs = views(pats@);
    let n = pats.len();
    for k in 0..n
        invariant
            n == pats@.len(),
            vs == views(pats@),
            forall|j: int| 0 <= j < k ==> !contains(t@, #[trigger] vs[j]),
    {
        if contains_exec(t, &pats[k]) {
            assert(contains(t@, vs[k as int]));
            return true;
        }
    }
    false
}

/// Index of the first `c` in `t` at or after `from`.
pub fn find_from_exec(t: &Vec<char>, c: char, from: usize) -> (r: Option<usize>)
    ensures
        match r {
            Some(i) => find_from(t@, c, from as int) == Some(i as int),
            None => find_from(t@, c, from as int) is None,
        },
{
    let n = t.len();
    let mut i = from;
    while i < n
        invariant
            n == t@.len(),
            from <= i,
            find_from(t@, c, from as int) == find_from(t@, c, i as int),
        decreases n - i,
    {
        if t[i] == c {
            return Some(i);
        }
        i = i + 1;
    }
    None
}

// ── Trimming and lines ───────────────────────────────────────────────────────

/// Whether a character is Unicode whitespace.
pub fn is_ws_exec(c: char) -> (r: bool)
    ensures
        r == is_ws(c),
{
    ('\u{9}' <= c && c <= '\u{d}') || c == ' ' || c == '\u{85}' || c == '\u{a0}' || c
        == '\u{1680}' || ('\u{2000}' <= c && c <= '\u{200a}') || c == '\u{2028}' || c
        == '\u{2029}' || c == '\u{202f}' || c == '\u{205f}' || c == '\u{3000}'
}

/// The characters of `t[lo..hi]`.
pub fn slice_chars(t: &Vec<char>, lo: usize, hi: usize) -> (r: Vec<char>)
    requires
        lo <= hi <= t@.len(),
    ensures
        r@ == t@.subrange(lo as int, hi as int),
{
    let mut r: Vec<char> = Vec::new();
    let mut i = lo;
    while i < hi
        invariant
            lo <= i <= hi <= t@.len(),
            r@ == t@.subrange(lo as int, i as int),
        decreases hi - i,
    {
        r.push(t[i]);
        assert(t@.subrange(lo as int, i + 1) == t@.subrange(lo as int, i as int).push(
            t@[i as int],
        ));
        i = i + 1;
    }
    r
}

/// `t` with leading and trailing whitespace removed.
pub fn trim_exec(t: &Vec<char>) -> (r: Vec<char>)
    ensures
        r@ == trim(t@),
{
    let n = t.len();
    let mut s: usize = 0;
    while s < n && is_ws_exec(t[s])
        invariant
            n == t@.len(),
            s <= n,
            ws_prefix_end(t@, 0) == ws_prefix_end(t@, s as int),
        decreases n - s,
    {
        s = s + 1;
    }
    let mut e: usize = n;
    while e > s && is_ws_exec(t[e - 1])
        invariant
            n == t@.len(),
            s <= e <= n,
            s == ws_prefix_end(t@, 0),
            ws_suffix_start(t@, n as int, s as int) == ws_suffix_start(t@, e as int, s as int),
        decreases e - s,
    {
        e = e - 1;
    }
    slice_chars(t, s, e)
}

/// `t` with leading whitespace removed.
pub fn trim_start_exec(t: &Vec<char>) -> (r: Vec<char>)
    ensures
        r@ == trim_start(t@),
{
    let n = t.len();
    let mut s: usize = 0;
    while s < n && is_ws_exec(t[s])
        invariant
            n == t@.len(),
            s <= n,
            ws_prefix_end(t@, 0) == ws_prefix_end(t@, s as int),
        decreases n - s,
    {
        s = s + 1;
    }
    slice_chars(t, s, n)
}

/// Whether two character sequences are equal.
pub fn chars_eq(a: &Vec<char>, b: &Vec<char>) -> (r: bool)
    ensures
        r == (a@ == b@),
{
    if a.len() != b.len() {
        return false;
    }
    let r = occurs_at_exec(a, b, 0);
    assert(a@.subrange(0, b@.len() as int) =~= a@);
    r
}

/// Appends a string slice to a string.
pub fn append_str(s: &mut String, t: &str)
    ensures
        final(s)@ == old(s)@ + t@,
{
    let cs = chars_of(t);
    push_chars(s, &cs);
}

/// The lines of `t`.
pub fn split_lines(t: &Vec<char>) -> (r: Vec<Vec<char>>)
    ensures
        views(r@) == lines(t@),
{
    let n = t.len();
    let mut r: Vec<Vec<char>> = Vec::new();
    let mut p: usize = 0;
    while p < n
        invariant
            n == t@.len(),
            p <= n,
            views(r@) + lines_from(t@, p as int) == lines(t@),
        decreases n - p,
    {
        let mut q = p;
        while q < n && t[q] != '\n'
            invariant
                n == t@.len(),
                p <= q <= n,
                next_nl(t@, p as int) == next_nl(t@, q as int),
            decreases n - q,
        {
            q = q + 1;
        }
        let mut line = slice_chars(t, p, q);
        if q < n && line.len() > 0 && line[line.len() - 1] == '\r' {
            line.pop();
        }
        let ghost before = views(r@);
        let ghost lv = line@;
        r.push(line);
        assert(views(r@) == before.push(lv));
        assert(lines_from(t@, p as int) == seq![lv] + lines_from(t@, q + 1)) by {
            lemma_next_nl_bounds(t@, p as int);
        }
        assert(before.push(lv) + lines_from(t@, q + 1) == before + (seq![lv] + lines_from(
            t@,
            q + 1,
        )));
        if q < n {
            p = q + 1;
        } else {
            assert(lines_from(t@, q + 1) == lines_from(t@, n as int));
            p = n;
        }
    }
    assert(lines_from(t@, p as int) == Seq::<Seq<char>>::empty());
    assert(views(r@) + Seq::<Seq<char>>::empty() == r@.map_values(
        |l: Vec<char>| l@,
    ));
    r
}

// ── Decimal rendering ────────────────────────────────────────────────────────

fn digit_char_exec(d: u64) -> (c: char)
    requires
        d < 10,
    ensures
        c == digit_char(d as nat),
{
    if d == 0 {
        '0'
    } else if d == 1 {
        '1'
    } else if d == 2 {
        '2'
    } else if d == 3 {
        '3'
    } else if d == 4 {
        '4'
    } else if d == 5 {
        '5'
    } else if d == 6 {
        '6'
    } else if d == 7 {
        '7'
    } else if d == 8 {
        '8'
    } else {
        '9'
    }
}

fn digits_exec(n: u64) -> (r: Vec<char>)
    ensures
        r@ == digits(n as nat),
    decreases n,
{
    if n < 10 {
        let mut r: Vec<char> = Vec::new();
        r.push(digit_char_exec(n));
        assert(r@ == seq![digit_char(n as nat)]);
        r
    } else {
        let mut r = digits_exec(n / 10);
        r.push(digit_char_exec(n % 10));
        r
    }
}

/// The decimal rendering of an `i32`.
pub fn decimal_exec(v: i32) -> (r: Vec<char>)
    ensures
        r@ == decimal(v as int),
{
    if v < 0 {
        let m: i64 = v as i64;
        let a: u64 = (-m) as u64;
        let d = digits_exec(a);
        let mut r: Vec<char> = Vec::new();
        r.push('-');
        let mut i: usize = 0;
        while i < d.len()
            invariant
                i <= d@.len(),
                r@ == seq!['-'] + d@.subrange(0, i as int),
            decreases d@.len() - i,
        {
            r.push(d[i]);
            assert(d@.subrange(0, i + 1) == d@.subrange(0, i as int).push(d@[i as int]));
            i = i + 1;
        }
        assert(d@.subrange(0, d@.len() as int) == d@);
        r
    } else {
        digits_exec(v as u64)
    }
}

// ── Display truncation ──────────────────────────────────────────────────────

/// The byte length at which `truncate` cuts a string longer than `max`
/// bytes, keeping room for the ellipsis.
pub open spec fn cut_at(max: usize) -> int {
    if max == 0 {
        0
    } else {
        max - 1
    }
}

/// Shorten `s` for display: unchanged when it has at most `max` bytes, else
/// its first `max - 1` bytes followed by `…`. The cut must fall on a
/// character boundary.
pub fn truncate(s: &str, max: usize) -> (r: String)
    requires
        encode_utf8(s@).len() <= usize::MAX,
        encode_utf8(s@).len() <= max || is_char_boundary(encode_utf8(s@), cut_at(max)),
    ensures
        encode_utf8(s@).len() <= max ==> r@ == s@,
        encode_utf8(s@).len() > max ==> exists|p: Seq<char>|
            #[trigger] encode_utf8(p) == encode_utf8(s@).subrange(0, cut_at(max)) && r@ == p
                + "\u{2026}"@,
{
    if s.len() <= max {
        s.to_owned()
    } else {
        let k = if max == 0 {
            0
        } else {
            max - 1
        };
        let (a, _) = s.split_at(k);
        let mut r = a.to_owned();
        append_str(&mut r, "\u{2026}");
        assert(encode_utf8(a@) == encode_utf8(s@).subrange(0, cut_at(max)));
        assert(r@ == a@ + "\u{2026}"@);
        r
    }
}

} // verus!
