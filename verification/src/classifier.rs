//! Pure close-note classifier.
//!
//! `classify` is IO-free: it takes raw notes and performs only pattern
//! matching over their text.

use vstd::prelude::*;
use vstd::utf8::encode_utf8;

use crate::model::{opt_view, AuditPlan, ClaimKind, ClaimKindTally, CloseClaim, CloseClaimView};
use crate::source::{RawClose, RawCloseView};
use crate::text::{
    chars_of, contains, contains_any, contains_any_exec, contains_exec, find_from, find_from_exec,
    lines, lowercase_of, lowercase_string, slice_chars, split_lines, starts_with, starts_with_exec,
    string_of, trim, trim_exec, views,
};

verus! {

// ── Patterns ─────────────────────────────────────────────────────────────────

/// Patterns that signal a `MechanismAsserted` close.
pub open spec fn mechanism_patterns() -> Seq<Seq<char>> {
    seq![
        "achieved live by a different mechanism"@,
        "outcome achieved"@,
        "delivered by "@,
        "mechanism:"@,
    ]
}

/// Patterns that signal a `Superseded` close.
pub open spec fn superseded_patterns() -> Seq<Seq<char>> {
    seq![
        "superseded by"@,
        "closed \u{2026} by prd-"@,
        "closed by prd-"@,
        "closed by vision-"@,
        "by prd-"@,
        "by vision-"@,
        "replaced by"@,
    ]
}

/// Patterns that signal a `LiveDeferred` close.
pub open spec fn deferred_patterns() -> Seq<Seq<char>> {
    seq!["deferred_acs:"@]
}

fn mechanism_patterns_exec() -> (r: Vec<Vec<char>>)
    ensures
        views(r@) == mechanism_patterns(),
{
    let mut r: Vec<Vec<char>> = Vec::new();
    r.push(chars_of("achieved live by a different mechanism"));
    r.push(chars_of("outcome achieved"));
    r.push(chars_of("delivered by "));
    r.push(chars_of("mechanism:"));
    assert(views(r@) =~= mechanism_patterns());
    r
}

fn superseded_patterns_exec() -> (r: Vec<Vec<char>>)
    ensures
        views(r@) == superseded_patterns(),
{
    let mut r: Vec<Vec<char>> = Vec::new();
    r.push(chars_of("superseded by"));
    r.push(chars_of("closed \u{2026} by prd-"));
    r.push(chars_of("closed by prd-"));
    r.push(chars_of("closed by vision-"));
    r.push(chars_of("by prd-"));
    r.push(chars_of("by vision-"));
    r.push(chars_of("replaced by"));
    assert(views(r@) =~= superseded_patterns());
    r
}

fn deferred_patterns_exec() -> (r: Vec<Vec<char>>)
    ensures
        views(r@) == deferred_patterns(),
{
    let mut r: Vec<Vec<char>> = Vec::new();
    r.push(chars_of("deferred_acs:"));
    assert(views(r@) =~= deferred_patterns());
    r
}

// ── Specification of the classifier ──────────────────────────────────────────

/// The kind of a note whose lowercased text is `low`, by precedence:
/// mechanism asserted, superseded, live deferred, closed, unclassified.
pub open spec fn kind_of(low: Seq<char>) -> ClaimKind {
    if contains_any(low, mechanism_patterns()) {
        ClaimKind::MechanismAsserted
    } else if contains_any(low, superseded_patterns()) {
        ClaimKind::Superseded
    } else if contains_any(low, deferred_patterns()) {
        ClaimKind::LiveDeferred
    } else if contains(low, "status: closed"@) {
        ClaimKind::AcsMet
    } else {
        ClaimKind::Unclassified
    }
}

/// The lines of a text, each paired with its lowercase form.
pub open spec fn with_lower(ls: Seq<Seq<char>>) -> Seq<(Seq<char>, Seq<char>)> {
    ls.map_values(|l: Seq<char>| (l, lowercase_of(l)))
}

/// The views of a list of `(line, lowercase line)` pairs.
pub open spec fn line_views(v: Seq<(String, String)>) -> Seq<(Seq<char>, Seq<char>)> {
    v.map_values(|p: (String, String)| (p.0@, p.1@))
}

/// The trimmed first line, from index `i` on, whose lowercase form holds a
/// mechanism pattern; `ps` pairs each line with its lowercase form.
pub open spec fn mechanism_in(ps: Seq<(Seq<char>, Seq<char>)>, i: int) -> Option<Seq<char>>
    decreases ps.len() - i,
{
    if i < 0 || i >= ps.len() {
        None
    } else if contains_any(ps[i].1, mechanism_patterns()) {
        Some(trim(ps[i].0))
    } else {
        mechanism_in(ps, i + 1)
    }
}

/// A rough ISO date shape: ten UTF-8 bytes with `-` at bytes 4 and 7.
pub open spec fn iso_date_shaped(c: Seq<char>) -> bool {
    let b = encode_utf8(c);
    b.len() == 10 && b[4] == 45u8 && b[7] == 45u8
}

/// The first parenthesised text of a line, when it has the rough ISO date
/// shape.
pub open spec fn date_in_parens(line: Seq<char>) -> Option<Seq<char>> {
    match find_from(line, '(', 0) {
        None => None,
        Some(s) => match find_from(line, ')', s) {
            None => None,
            Some(e) => {
                let c = line.subrange(s + 1, e);
                if iso_date_shaped(c) {
                    Some(c)
                } else {
                    None
                }
            },
        },
    }
}

/// The first close date found from index `i` on: the parenthesised date
/// of a line whose lowercase form starts with "status: closed".
pub open spec fn close_date_in(ps: Seq<(Seq<char>, Seq<char>)>, i: int) -> Option<Seq<char>>
    decreases ps.len() - i,
{
    if i < 0 || i >= ps.len() {
        None
    } else {
        match if starts_with(ps[i].1, "status: closed"@) {
            date_in_parens(ps[i].0)
        } else {
            None
        } {
            Some(d) => Some(d),
            None => close_date_in(ps, i + 1),
        }
    }
}

/// The first non-blank line (trimmed) after a line whose lowercase form
/// starts with "status:", scanning from index `i` with `found` telling
/// whether such a line was already passed.
pub open spec fn outcome_in(ps: Seq<(Seq<char>, Seq<char>)>, i: int, found: bool) -> Option<Seq<char>>
    decreases ps.len() - i,
{
    if i < 0 || i >= ps.len() {
        None
    } else if found && trim(ps[i].0).len() > 0 {
        Some(trim(ps[i].0))
    } else {
        outcome_in(ps, i + 1, found || starts_with(ps[i].1, "status:"@))
    }
}

/// The claim that classifying one raw note yields.
pub open spec fn classified(raw: RawCloseView) -> CloseClaimView {
    let ps = with_lower(lines(raw.text));
    let kind = kind_of(lowercase_of(raw.text));
    CloseClaimView {
        source: raw.reference,
        close_date: close_date_in(ps, 0),
        kind,
        mechanism_text: if kind == ClaimKind::MechanismAsserted {
            mechanism_in(ps, 0)
        } else {
            None
        },
        outcome_text: outcome_in(ps, 0, false),
        raw_excerpt: raw.text,
    }
}

/// The number of occurrences of `k` in `ks`.
pub open spec fn count_of(ks: Seq<ClaimKind>, k: ClaimKind) -> nat
    decreases ks.len(),
{
    if ks.len() == 0 {
        0
    } else {
        count_of(ks.drop_last(), k) + if ks.last() == k {
            1nat
        } else {
            0nat
        }
    }
}

/// `t` counts each kind exactly as often as it occurs in `ks`.
pub open spec fn tallies(t: ClaimKindTally, ks: Seq<ClaimKind>) -> bool {
    &&& t.acs_met == count_of(ks, ClaimKind::AcsMet)
    &&& t.mechanism_asserted == count_of(ks, ClaimKind::MechanismAsserted)
    &&& t.superseded == count_of(ks, ClaimKind::Superseded)
    &&& t.live_deferred == count_of(ks, ClaimKind::LiveDeferred)
    &&& t.unclassified == count_of(ks, ClaimKind::Unclassified)
}

/// The kinds of the claims of a plan view.
pub open spec fn kinds(claims: Seq<CloseClaimView>) -> Seq<ClaimKind> {
    claims.map_values(|c: CloseClaimView| c.kind)
}

/// The counts of all kinds add up to the number of entries.
pub proof fn lemma_counts_sum(ks: Seq<ClaimKind>)
    ensures
        count_of(ks, ClaimKind::AcsMet) + count_of(ks, ClaimKind::MechanismAsserted) + count_of(
            ks,
            ClaimKind::Superseded,
        ) + count_of(ks, ClaimKind::LiveDeferred) + count_of(ks, ClaimKind::Unclassified)
            == ks.len(),
    decreases ks.len(),
{
    if ks.len() > 0 {
        lemma_counts_sum(ks.drop_last());
    }
}

// ── Extraction ───────────────────────────────────────────────────────────────

/// The lines of a text, each paired with its lowercase form.
pub fn lowered_lines(text: &str) -> (r: Vec<(String, String)>)
    ensures
        line_views(r@) == with_lower(lines(text@)),
{
    let t = chars_of(text);
    let ls = split_lines(&t);
    let ghost lv = lines(text@);
    let n = ls.len();
    let mut r: Vec<(String, String)> = Vec::new();
    for i in 0..n
        invariant
            n == ls@.len(),
            views(ls@) == lv,
            lv == lines(text@),
            line_views(r@) == with_lower(lv).take(i as int),
    {
        assert(ls@[i as int]@ == lv[i as int]);
        let line = string_of(&ls[i]);
        let low = lowercase_string(line.as_str());
        let ghost before = line_views(r@);
        r.push((line, low));
        assert(line_views(r@) =~= before.push((lv[i as int], lowercase_of(lv[i as int]))));
        assert(with_lower(lv).take(i + 1) =~= with_lower(lv).take(i as int).push(
            (lv[i as int], lowercase_of(lv[i as int])),
        ));
    }
    assert(with_lower(lv).take(n as int) =~= with_lower(lv));
    r
}

/// The first line whose lowercase form holds a mechanism signal, trimmed;
/// `lines` pairs each line with its lowercase form.
pub fn first_mechanism_line(lines: &[(String, String)]) -> (r: Option<String>)
    ensures
        opt_view(r) == mechanism_in(line_views(lines@), 0),
{
    let pats = mechanism_patterns_exec();
    let ghost ps = line_views(lines@);
    let n = lines.len();
    let mut i: usize = 0;
    while i < n
        invariant
            n == lines@.len(),
            ps == line_views(lines@),
            views(pats@) == mechanism_patterns(),
            mechanism_in(ps, 0) == mechanism_in(ps, i as int),
        decreases n - i,
    {
        let low = chars_of(lines[i].1.as_str());
        if contains_any_exec(&low, &pats) {
            let tr = trim_exec(&chars_of(lines[i].0.as_str()));
            return Some(string_of(&tr));
        }
        i = i + 1;
    }
    None
}

/// The first close date: the parenthesised date of a line whose lowercase
/// form starts with "status: closed"; `lines` pairs each line with its
/// lowercase form.
pub fn first_close_date(lines: &[(String, String)]) -> (r: Option<String>)
    ensures
        opt_view(r) == close_date_in(line_views(lines@), 0),
{
    let status_closed = chars_of("status: closed");
    let ghost ps = line_views(lines@);
    let n = lines.len();
    let mut i: usize = 0;
    while i < n
        invariant
            n == lines@.len(),
            ps == line_views(lines@),
            status_closed@ == "status: closed"@,
            close_date_in(ps, 0) == close_date_in(ps, i as int),
        decreases n - i,
    {
        let low = chars_of(lines[i].1.as_str());
        if starts_with_exec(&low, &status_closed) {
            let d = parenthesized_date(lines[i].0.as_str());
            if d.is_some() {
                return d;
            }
        }
        i = i + 1;
    }
    None
}

/// The first non-blank line, trimmed, after a line whose lowercase form
/// starts with "status:"; `lines` pairs each line with its lowercase form.
pub fn outcome_after_status(lines: &[(String, String)]) -> (r: Option<String>)
    ensures
        opt_view(r) == outcome_in(line_views(lines@), 0, false),
{
    let status = chars_of("status:");
    let ghost ps = line_views(lines@);
    let n = lines.len();
    let mut found = false;
    let mut i: usize = 0;
    while i < n
        invariant
            n == lines@.len(),
            ps == line_views(lines@),
            status@ == "status:"@,
            outcome_in(ps, 0, false) == outcome_in(ps, i as int, found),
        decreases n - i,
    {
        let tr = trim_exec(&chars_of(lines[i].0.as_str()));
        if found && tr.len() > 0 {
            return Some(string_of(&tr));
        }
        let low = chars_of(lines[i].1.as_str());
        if starts_with_exec(&low, &status) {
            found = true;
        }
        i = i + 1;
    }
    None
}

/// Extract the first line that carries a mechanism signal, trimmed.
fn extract_mechanism_text(text: &str) -> (r: Option<String>)
    ensures
        opt_view(r) == mechanism_in(with_lower(lines(text@)), 0),
{
    first_mechanism_line(&lowered_lines(text))
}

/// Extract the close date from a `Status: Closed (YYYY-MM-DD)` line.
fn extract_close_date(text: &str) -> (r: Option<String>)
    ensures
        opt_view(r) == close_date_in(with_lower(lines(text@)), 0),
{
    first_close_date(&lowered_lines(text))
}

/// The first non-blank line after the status line, trimmed.
fn extract_outcome_text(text: &str) -> (r: Option<String>)
    ensures
        opt_view(r) == outcome_in(with_lower(lines(text@)), 0, false),
{
    outcome_after_status(&lowered_lines(text))
}

fn iso_date_shaped_exec(c: &Vec<char>) -> (r: bool)
    ensures
        r == iso_date_shaped(c@),
{
    let s = string_of(c);
    let st = s.as_str();
    let b = st.as_bytes();
    st.len() == 10 && b[4] == 45u8 && b[7] == 45u8
}

/// The text between the first `(` of a line and the first `)` after it,
/// when it looks like an ISO date (`YYYY-MM-DD`: ten bytes, `-` at bytes 4
/// and 7).
pub fn parenthesized_date(line: &str) -> (r: Option<String>)
    ensures
        opt_view(r) == date_in_parens(line@),
{
    let cs = chars_of(line);
    match find_from_exec(&cs, '(', 0) {
        None => None,
        Some(s) => match find_from_exec(&cs, ')', s) {
            None => None,
            Some(e) => {
                proof {
                    lemma_find_from_bounds(cs@, '(', 0);
                    lemma_find_from_bounds(cs@, ')', s as int);
                }
                let c = slice_chars(&cs, s + 1, e);
                if iso_date_shaped_exec(&c) {
                    Some(string_of(&c))
                } else {
                    None
                }
            },
        },
    }
}

/// `find_from` finds an index at or after its start that holds the character.
pub proof fn lemma_find_from_bounds(t: Seq<char>, c: char, from: int)
    ensures
        find_from(t, c, from) matches Some(i) ==> from <= i < t.len() && t[i] == c,
    decreases t.len() - from,
{
    if 0 <= from < t.len() && t[from] != c {
        lemma_find_from_bounds(t, c, from + 1);
    }
}

// ── Classification ───────────────────────────────────────────────────────────

/// The kind of a note, given its text already lowercased, by precedence:
/// a mechanism signal, then a supersession, then `deferred_acs:`, then
/// "status: closed"; otherwise unclassified.
pub fn kind_from_lowercase(text_lower: &str) -> (k: ClaimKind)
    ensures
        k == kind_of(text_lower@),
{
    let low = chars_of(text_lower);
    let status_closed = chars_of("status: closed");
    let is_closed = contains_exec(&low, &status_closed);
    let has_mechanism = contains_any_exec(&low, &mechanism_patterns_exec());
    let has_superseded = contains_any_exec(&low, &superseded_patterns_exec());
    let has_deferred = contains_any_exec(&low, &deferred_patterns_exec());
    if has_mechanism {
        ClaimKind::MechanismAsserted
    } else if has_superseded {
        ClaimKind::Superseded
    } else if has_deferred {
        ClaimKind::LiveDeferred
    } else if is_closed {
        ClaimKind::AcsMet
    } else {
        ClaimKind::Unclassified
    }
}

/// Classify a single raw close note.
///
/// Precedence (highest first):
/// 1. `MechanismAsserted`: "achieved live by a different mechanism" and kin
/// 2. `Superseded`: "superseded by" / "closed by PRD-" / "by vision-" and kin
/// 3. `LiveDeferred`: `deferred_acs:` present
/// 4. `AcsMet`: "status: closed", no special signal
/// 5. `Unclassified`: none of the above
pub fn classify_one(raw: &RawClose) -> (claim: CloseClaim)
    ensures
        claim@ == classified(raw@),
{
    let text_lower = lowercase_string(raw.text.as_str());
    let close_date = extract_close_date(raw.text.as_str());
    let kind = kind_from_lowercase(text_lower.as_str());
    let mechanism_text = if kind == ClaimKind::MechanismAsserted {
        extract_mechanism_text(raw.text.as_str())
    } else {
        None
    };
    let outcome_text = extract_outcome_text(raw.text.as_str());
    CloseClaim {
        source: raw.reference.clone(),
        close_date,
        kind,
        mechanism_text,
        outcome_text,
        raw_excerpt: raw.text.clone(),
    }
}

/// Classify a slice of raw close notes into an [`AuditPlan`].
///
/// This function is pure: the caller obtains the notes from a
/// [`crate::source::CloseSource`].
pub fn classify(notes: &[RawClose]) -> (plan: AuditPlan)
    ensures
        plan@.claims.len() == notes@.len(),
        forall|i: int| 0 <= i < notes@.len() ==> plan@.claims[i] == classified(#[trigger] notes@[i]@),
        tallies(plan.tally, kinds(plan@.claims)),
        plan.tally.sum() == notes@.len(),
{
    let mut tally = ClaimKindTally::default();
    let mut claims: Vec<CloseClaim> = Vec::new();
    let n = notes.len();
    for i in 0..n
        invariant
            n == notes@.len(),
            claims@.len() == i,
            forall|j: int| 0 <= j < i ==> claims@[j]@ == classified(#[trigger] notes@[j]@),
            tallies(tally, kinds(claims@.map_values(|c: CloseClaim| c@))),
            tally.sum() == i,
    {
        let claim = classify_one(&notes[i]);
        let ghost before = kinds(claims@.map_values(|c: CloseClaim| c@));
        proof {
            lemma_counts_sum(before);
        }
        tally.increment(claim.kind);
        claims.push(claim);
        let ghost after = kinds(claims@.map_values(|c: CloseClaim| c@));
        assert(after.drop_last() =~= before);
    }
    let plan = AuditPlan { claims, tally };
    assert(plan@.claims =~= claims@.map_values(|c: CloseClaim| c@));
    plan
}


// ── Laws of the classifier ───────────────────────────────────────────────────

/// Mechanism text is only captured for mechanism-asserted claims, and a
/// classified claim keeps the note's source and raw text.
pub proof fn lemma_claim_shape(raw: RawCloseView)
    ensures
        classified(raw).mechanism_text is Some ==> classified(raw).kind
            == ClaimKind::MechanismAsserted,
        classified(raw).source == raw.reference,
        classified(raw).raw_excerpt == raw.text,
{
}

/// Classification precedence: a mechanism signal wins over every other
/// signal, a supersession over deferral and plain closing, deferral over
/// plain closing; a note with none of them and no "status: closed" is
/// unclassified.
pub proof fn lemma_kind_precedence(low: Seq<char>)
    ensures
        contains_any(low, mechanism_patterns()) ==> kind_of(low) == ClaimKind::MechanismAsserted,
        !contains_any(low, mechanism_patterns()) && contains_any(low, superseded_patterns())
            ==> kind_of(low) == ClaimKind::Superseded,
        kind_of(low) == ClaimKind::AcsMet ==> contains(low, "status: closed"@),
        kind_of(low) == ClaimKind::Unclassified <==> (!contains_any(low, mechanism_patterns())
            && !contains_any(low, superseded_patterns()) && !contains_any(low, deferred_patterns())
            && !contains(low, "status: closed"@)),
{
}

/// Incrementing a tally raises the counter of that kind by one, leaves the
/// others alone, and raises the total by one.
pub proof fn lemma_increment_adds_one(t: ClaimKindTally, k: ClaimKind, other: ClaimKind)
    requires
        t.count(k) < usize::MAX,
        other != k,
    ensures
        t.bumped(k).count(k) == t.count(k) + 1,
        t.bumped(k).count(other) == t.count(other),
        t.bumped(k).sum() == t.sum() + 1,
{
}

/// No line from `i` on, in `ps`, trims to a non-empty text: the outcome
/// scan, once past the status line, finds nothing; otherwise it finds the
/// first line from `i` on that trims to non-empty text.
proof fn lemma_outcome_after_found(ps: Seq<(Seq<char>, Seq<char>)>, i: int)
    requires
        0 <= i <= ps.len(),
    ensures
        outcome_in(ps, i, true) matches Some(t) ==> t.len() > 0 && exists|j: int|
            i <= j < ps.len() && t == trim(#[trigger] ps[j].0) && forall|m: int|
                i <= m < j ==> trim(#[trigger] ps[m].0).len() == 0,
        outcome_in(ps, i, true) is None ==> forall|m: int|
            i <= m < ps.len() ==> trim(#[trigger] ps[m].0).len() == 0,
    decreases ps.len() - i,
{
    if i < ps.len() {
        lemma_outcome_after_found(ps, i + 1);
        if trim(ps[i].0).len() == 0 {
            if let Some(t) = outcome_in(ps, i + 1, true) {
                let j = choose|j: int|
                    i + 1 <= j < ps.len() && t == trim(#[trigger] ps[j].0) && forall|m: int|
                        i + 1 <= m < j ==> trim(#[trigger] ps[m].0).len() == 0;
                assert forall|m: int| i <= m < j implies trim(#[trigger] ps[m].0).len() == 0 by {
                    if m > i {
                        assert(trim(ps[m].0).len() == 0);
                    }
                }
            }
        } else {
            assert(trim(ps[i].0) == trim(ps[i].0));
        }
    }
}

/// Before the status line: the scan from `i` finds nothing when no line
/// from `i` on starts (in lowercase) with "status:", and otherwise scans on
/// from just after the first such line.
proof fn lemma_outcome_before_found(ps: Seq<(Seq<char>, Seq<char>)>, i: int)
    requires
        0 <= i <= ps.len(),
    ensures
        (forall|m: int| i <= m < ps.len() ==> !starts_with(#[trigger] ps[m].1, "status:"@))
            ==> outcome_in(ps, i, false) is None,
        forall|k: int|
            i <= k < ps.len() && starts_with(#[trigger] ps[k].1, "status:"@) && (forall|m: int|
                i <= m < k ==> !starts_with(#[trigger] ps[m].1, "status:"@)) ==> outcome_in(ps, i, false)
                == outcome_in(ps, k + 1, true),
    decreases ps.len() - i,
{
    if i < ps.len() {
        lemma_outcome_before_found(ps, i + 1);
        assert forall|k: int|
            i <= k < ps.len() && starts_with(#[trigger] ps[k].1, "status:"@) && (forall|m: int|
                i <= m < k ==> !starts_with(#[trigger] ps[m].1, "status:"@)) implies outcome_in(ps, i, false)
            == outcome_in(ps, k + 1, true) by {
            if k > i {
                assert(!starts_with(ps[i].1, "status:"@));
                assert forall|m: int| i + 1 <= m < k implies !starts_with(#[trigger] ps[m].1, "status:"@) by {
                    assert(!starts_with(ps[m].1, "status:"@));
                }
            }
        }
    }
}

/// The outcome text of a note: when there is one, it is non-empty, and it
/// is the trim of the first line after the first status line (a line whose
/// lowercase form starts with "status:") that does not trim to empty, every
/// line between them trimming to empty; when there is none, there is no
/// status line, or every line after the first one trims to empty.
pub proof fn lemma_outcome_shape(ps: Seq<(Seq<char>, Seq<char>)>)
    ensures
        outcome_in(ps, 0, false) matches Some(t) ==> t.len() > 0 && exists|k: int, j: int|
            0 <= k < j < ps.len() && starts_with(#[trigger] ps[k].1, "status:"@) && (forall|m: int|
                0 <= m < k ==> !starts_with(#[trigger] ps[m].1, "status:"@)) && t == trim(
                #[trigger] ps[j].0,
            ) && (forall|m: int| k < m < j ==> trim(#[trigger] ps[m].0).len() == 0),
        outcome_in(ps, 0, false) is None ==> forall|k: int, j: int|
            0 <= k < j < ps.len() && starts_with(#[trigger] ps[k].1, "status:"@) && (forall|m: int|
                0 <= m < k ==> !starts_with(#[trigger] ps[m].1, "status:"@)) ==> trim(#[trigger] ps[j].0).len()
                == 0,
{
    lemma_outcome_before_found(ps, 0);
    lemma_first_status(ps, 0);
    if exists|k: int| 0 <= k < ps.len() && starts_with(#[trigger] ps[k].1, "status:"@) {
        let k = choose|k: int|
            0 <= k < ps.len() && starts_with(#[trigger] ps[k].1, "status:"@) && (forall|m: int|
                0 <= m < k ==> !starts_with(#[trigger] ps[m].1, "status:"@));
        assert(outcome_in(ps, 0, false) == outcome_in(ps, k + 1, true));
        lemma_outcome_after_found(ps, k + 1);
        if let Some(t) = outcome_in(ps, 0, false) {
            let j = choose|j: int|
                k + 1 <= j < ps.len() && t == trim(#[trigger] ps[j].0) && forall|m: int|
                    k + 1 <= m < j ==> trim(#[trigger] ps[m].0).len() == 0;
            assert(0 <= k < j < ps.len() && starts_with(ps[k].1, "status:"@) && t == trim(ps[j].0));
        } else {
            assert forall|k2: int, j: int|
                0 <= k2 < j < ps.len() && starts_with(#[trigger] ps[k2].1, "status:"@) && (forall|m: int|
                    0 <= m < k2 ==> !starts_with(#[trigger] ps[m].1, "status:"@)) implies trim(
                #[trigger] ps[j].0,
            ).len() == 0 by {
                if k2 < k {
                    assert(!starts_with(ps[k2].1, "status:"@));
                } else if k < k2 {
                    assert(!starts_with(ps[k].1, "status:"@));
                }
            }
        }
    } else {
        assert forall|m: int| 0 <= m < ps.len() implies !starts_with(#[trigger] ps[m].1, "status:"@) by {}
    }
}

/// When some line from `i` on starts (in lowercase) with "status:", there
/// is a first such line.
proof fn lemma_first_status(ps: Seq<(Seq<char>, Seq<char>)>, i: int)
    requires
        0 <= i <= ps.len(),
    ensures
        (exists|k: int| i <= k < ps.len() && starts_with(#[trigger] ps[k].1, "status:"@)) ==> exists|k: int|
            i <= k < ps.len() && starts_with(#[trigger] ps[k].1, "status:"@) && (forall|m: int|
                i <= m < k ==> !starts_with(#[trigger] ps[m].1, "status:"@)),
    decreases ps.len() - i,
{
    if i < ps.len() {
        lemma_first_status(ps, i + 1);
        if starts_with(ps[i].1, "status:"@) {
            assert(forall|m: int| i <= m < i ==> !starts_with(#[trigger] ps[m].1, "status:"@));
        } else if exists|k: int| i <= k < ps.len() && starts_with(#[trigger] ps[k].1, "status:"@) {
            let k0 = choose|k: int| i <= k < ps.len() && starts_with(#[trigger] ps[k].1, "status:"@);
            assert(k0 != i);
            assert(starts_with(ps[k0].1, "status:"@));
            let k = choose|k: int|
                i + 1 <= k < ps.len() && starts_with(#[trigger] ps[k].1, "status:"@) && (forall|m: int|
                    i + 1 <= m < k ==> !starts_with(#[trigger] ps[m].1, "status:"@));
            assert forall|m: int| i <= m < k implies !starts_with(#[trigger] ps[m].1, "status:"@) by {
                if m > i {
                    assert(!starts_with(ps[m].1, "status:"@));
                }
            }
        }
    }
}

} // verus!
