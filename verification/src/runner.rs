//! The assertion runner: from an assertion and what was observed on the
//! system to a verdict, and the audit pass over a corpus and a registry.
//!
//! Observing (running a command, testing a path, reading a file) is the
//! program's side; everything decided from the observations is here.

use vstd::prelude::*;

use crate::classifier::{classified, classify_one};
use crate::model::{
    AssertionSpec, AssertionView, ClaimKind, CloseRef, CloseRefView, VerdictView, WarrantStatus,
    WarrantVerdict,
};
use crate::paths::{file_name, file_name_exec};
use crate::registry::{find_index, lemma_find_from, EntryView, WarrantRegistry};
use crate::source::{RawClose, RawCloseView};
use crate::text::{
    append_str, chars_of, contains, contains_exec, debug_form, debug_quoted, decimal, decimal_exec,
    is_ws, is_ws_exec, lines,
    lower, lower_str, lowercase_of, occurs_at, occurs_at_exec, push_chars, split_lines,
    string_of, views, ws_prefix_end,
};

verus! {

// ── Observations ─────────────────────────────────────────────────────────────

/// What the program observed when it carried out an assertion.
#[derive(Debug)]
pub enum Observation {
    /// The command ran; its exit code, if it exited with one.
    Exited(Option<i32>),
    /// The command could not be started; the error text.
    SpawnFailed(String),
    /// Whether the path exists.
    Exists(bool),
    /// The file was read; its content.
    Read(String),
    /// The file could not be read: whether the path exists, and the error text.
    ReadFailed { exists: bool, error: String },
}

/// The view of an [`Observation`].
pub enum ObservationView {
    Exited(Option<i32>),
    SpawnFailed(Seq<char>),
    Exists(bool),
    Read(Seq<char>),
    ReadFailed { exists: bool, error: Seq<char> },
}

impl View for Observation {
    type V = ObservationView;

    open spec fn view(&self) -> ObservationView {
        match self {
            Observation::Exited(c) => ObservationView::Exited(*c),
            Observation::SpawnFailed(e) => ObservationView::SpawnFailed(e@),
            Observation::Exists(b) => ObservationView::Exists(*b),
            Observation::Read(c) => ObservationView::Read(c@),
            Observation::ReadFailed { exists, error } => ObservationView::ReadFailed {
                exists: *exists,
                error: error@,
            },
        }
    }
}

/// An observation is of the sort that an assertion calls for: a command
/// outcome for `CommandExit`, a path test for `FileExists`, a file read for
/// `GrepAbsent` and `CounterNonzero`.
pub open spec fn fits(a: AssertionView, o: ObservationView) -> bool {
    match a {
        AssertionView::CommandExit { .. } => o is Exited || o is SpawnFailed,
        AssertionView::FileExists { .. } => o is Exists,
        _ => o is Read || o is ReadFailed,
    }
}

impl Observation {
    /// Whether this observation is of the sort that `spec` calls for.
    pub fn fits(&self, spec: &AssertionSpec) -> (r: bool)
        ensures
            r == fits(spec@, self@),
    {
        match spec {
            AssertionSpec::CommandExit { .. } => match self {
                Observation::Exited(_) | Observation::SpawnFailed(_) => true,
                _ => false,
            },
            AssertionSpec::FileExists { .. } => match self {
                Observation::Exists(_) => true,
                _ => false,
            },
            _ => match self {
                Observation::Read(_) | Observation::ReadFailed { .. } => true,
                _ => false,
            },
        }
    }
}

// ── Counters ─────────────────────────────────────────────────────────────────

/// An ASCII decimal digit.
pub open spec fn is_digit(c: char) -> bool {
    '0' <= c && c <= '9'
}

/// Where the value after a key that ends at `i` begins: past whitespace,
/// one optional `:` or `=`, and whitespace again (`key: N`, `key = N`).
pub open spec fn value_start(t: Seq<char>, i: int) -> int {
    let j = ws_prefix_end(t, i);
    if 0 <= j < t.len() && (t[j] == ':' || t[j] == '=') {
        ws_prefix_end(t, j + 1)
    } else {
        j
    }
}

/// The run of digits that starts at `i` holds a digit other than `0`, so it
/// denotes a number greater than zero.
pub open spec fn nonzero_run(t: Seq<char>, i: int) -> bool
    decreases t.len() - i,
{
    if 0 <= i < t.len() && is_digit(t[i]) {
        t[i] != '0' || nonzero_run(t, i + 1)
    } else {
        false
    }
}

/// `k` occurs in `t` at `i`, and the number that follows it is non-zero.
pub open spec fn key_nonzero_at(t: Seq<char>, k: Seq<char>, i: int) -> bool {
    occurs_at(t, k, i) && nonzero_run(t, value_start(t, i + k.len()))
}

/// A line counts as a non-zero counter for `key`: in its lowercase form,
/// the lowercase key is followed by a number greater than zero.
pub open spec fn counter_line(line: Seq<char>, key: Seq<char>) -> bool {
    exists|i: int| #[trigger] key_nonzero_at(lowercase_of(line), lowercase_of(key), i)
}

/// Some line from index `i` on is a non-zero counter line for `key`.
pub open spec fn counter_from(ls: Seq<Seq<char>>, key: Seq<char>, i: int) -> bool
    decreases ls.len() - i,
{
    if i < 0 || i >= ls.len() {
        false
    } else {
        counter_line(ls[i], key) || counter_from(ls, key, i + 1)
    }
}

/// `content` holds a non-zero counter for `key`.
pub open spec fn counter_nonzero(content: Seq<char>, key: Seq<char>) -> bool {
    counter_from(lines(content), key, 0)
}

fn is_digit_exec(c: char) -> (r: bool)
    ensures
        r == is_digit(c),
{
    '0' <= c && c <= '9'
}

fn skip_ws_exec(t: &Vec<char>, i: usize) -> (r: usize)
    requires
        i <= t@.len(),
    ensures
        r == ws_prefix_end(t@, i as int),
        i <= r <= t@.len(),
{
    let n = t.len();
    let mut j = i;
    while j < n && is_ws_exec(t[j])
        invariant
            n == t@.len(),
            i <= j <= n,
            ws_prefix_end(t@, i as int) == ws_prefix_end(t@, j as int),
        decreases n - j,
    {
        j = j + 1;
    }
    j
}

fn value_start_exec(t: &Vec<char>, i: usize) -> (r: usize)
    requires
        i <= t@.len(),
    ensures
        r == value_start(t@, i as int),
{
    let j = skip_ws_exec(t, i);
    if j < t.len() && (t[j] == ':' || t[j] == '=') {
        skip_ws_exec(t, j + 1)
    } else {
        j
    }
}

fn nonzero_run_exec(t: &Vec<char>, i: usize) -> (r: bool)
    ensures
        r == nonzero_run(t@, i as int),
{
    let n = t.len();
    let mut j = i;
    while j < n && is_digit_exec(t[j])
        invariant
            n == t@.len(),
            i <= j,
            nonzero_run(t@, i as int) == nonzero_run(t@, j as int),
        decreases n - j,
    {
        if t[j] != '0' {
            return true;
        }
        j = j + 1;
    }
    false
}

/// Whether the lowercase line `low` holds the lowercase key `lk` followed by
/// a number greater than zero.
fn key_nonzero_exec(low: &Vec<char>, lk: &Vec<char>) -> (r: bool)
    ensures
        r == exists|i: int| #[trigger] key_nonzero_at(low@, lk@, i),
{
    let n = low.len();
    let m = lk.len();
    if m > n {
        assert forall|i: int| !#[trigger] key_nonzero_at(low@, lk@, i) by {}
        return false;
    }
    let last = n - m;
    let mut i: usize = 0;
    loop
        invariant
            n == low@.len(),
            m == lk@.len(),
            last == n - m,
            i <= last,
            forall|j: int| 0 <= j < i ==> !#[trigger] key_nonzero_at(low@, lk@, j),
        decreases last - i,
    {
        if occurs_at_exec(low, lk, i) {
            let v = value_start_exec(low, i + m);
            if nonzero_run_exec(low, v) {
                assert(key_nonzero_at(low@, lk@, i as int));
                return true;
            }
        }
        if i == last {
            assert forall|j: int| !#[trigger] key_nonzero_at(low@, lk@, j) by {
                if 0 <= j < i {
                }
            }
            return false;
        }
        i = i + 1;
    }
}

/// Whether `content` holds a non-zero counter for `key`.
fn counter_nonzero_exec(content: &str, key: &str) -> (r: bool)
    ensures
        r == counter_nonzero(content@, key@),
{
    let lk = lower_str(key);
    let t = chars_of(content);
    let ls = split_lines(&t);
    let ghost lv = lines(content@);
    let n = ls.len();
    let mut i: usize = 0;
    while i < n
        invariant
            n == ls@.len(),
            views(ls@) == lv,
            lv == lines(content@),
            lk@ == lowercase_of(key@),
            counter_from(lv, key@, 0) == counter_from(lv, key@, i as int),
        decreases n - i,
    {
        assert(ls@[i as int]@ == lv[i as int]);
        let low = lower(&ls[i]);
        if key_nonzero_exec(&low, &lk) {
            return true;
        }
        i = i + 1;
    }
    false
}

// ── Verdicts ─────────────────────────────────────────────────────────────────

/// A verdict on a mechanism-asserted claim.
pub open spec fn mk_verdict(source: CloseRefView, status: WarrantStatus, evidence: Seq<char>) -> VerdictView {
    VerdictView { source, kind: ClaimKind::MechanismAsserted, status, evidence }
}

/// The verdict of a `CommandExit` assertion.
pub open spec fn command_verdict(cmd: Seq<char>, expect: i32, o: ObservationView, source: CloseRefView) -> VerdictView {
    match o {
        ObservationView::Exited(code) => {
            let actual: i32 = match code {
                Some(c) => c,
                None => -1i32,
            };
            if actual == expect {
                mk_verdict(
                    source,
                    WarrantStatus::Proven,
                    "command "@ + debug_form(cmd) + " exited "@ + decimal(actual as int)
                        + " (expected "@ + decimal(expect as int)
                        + ") \u{2014} assertion holds"@,
                )
            } else {
                mk_verdict(
                    source,
                    WarrantStatus::Refuted,
                    "command "@ + debug_form(cmd) + " exited "@ + decimal(actual as int)
                        + " but expected "@ + decimal(expect as int)
                        + " \u{2014} assertion refuted"@,
                )
            }
        },
        ObservationView::SpawnFailed(e) => mk_verdict(
            source,
            WarrantStatus::Unproven,
            "command "@ + debug_form(cmd) + " failed to execute: "@ + e,
        ),
        _ => mk_verdict(source, WarrantStatus::Unproven, seq![]),
    }
}

/// The verdict of a `FileExists` assertion.
pub open spec fn file_exists_verdict(path: Seq<char>, o: ObservationView, source: CloseRefView) -> VerdictView {
    if o == ObservationView::Exists(true) {
        mk_verdict(
            source,
            WarrantStatus::Proven,
            "file "@ + path + " exists \u{2014} assertion holds"@,
        )
    } else {
        mk_verdict(
            source,
            WarrantStatus::Refuted,
            "file "@ + path + " does not exist \u{2014} assertion refuted"@,
        )
    }
}

/// The verdict of a `GrepAbsent` assertion.
pub open spec fn grep_absent_verdict(
    path: Seq<char>,
    pattern: Seq<char>,
    o: ObservationView,
    source: CloseRefView,
) -> VerdictView {
    match o {
        ObservationView::Read(content) => if contains(content, pattern) {
            mk_verdict(
                source,
                WarrantStatus::Refuted,
                "pattern "@ + debug_form(pattern) + " found in "@ + path
                    + " \u{2014} GrepAbsent assertion refuted (claimed mechanism absent, but old path persists)"@,
            )
        } else {
            mk_verdict(
                source,
                WarrantStatus::Proven,
                "pattern "@ + debug_form(pattern) + " absent from "@ + path
                    + " \u{2014} GrepAbsent assertion holds"@,
            )
        },
        ObservationView::ReadFailed { exists, error } => if exists {
            mk_verdict(source, WarrantStatus::Unproven, "cannot read "@ + path + ": "@ + error)
        } else {
            mk_verdict(
                source,
                WarrantStatus::Unproven,
                "file "@ + path
                    + " not found on this system (cloud-safe: assertion deferred)"@,
            )
        },
        _ => mk_verdict(source, WarrantStatus::Unproven, seq![]),
    }
}

/// The verdict of a `CounterNonzero` assertion.
pub open spec fn counter_verdict(
    path: Seq<char>,
    key: Seq<char>,
    o: ObservationView,
    source: CloseRefView,
) -> VerdictView {
    match o {
        ObservationView::Read(content) => if counter_nonzero(content, key) {
            mk_verdict(
                source,
                WarrantStatus::Proven,
                "counter "@ + debug_form(key) + " is non-zero in "@ + path
                    + " \u{2014} assertion holds"@,
            )
        } else {
            mk_verdict(
                source,
                WarrantStatus::Refuted,
                "counter "@ + debug_form(key) + " is zero or absent in "@ + path
                    + " \u{2014} assertion refuted"@,
            )
        },
        _ => mk_verdict(
            source,
            WarrantStatus::Unproven,
            "file "@ + path + " not found (cloud-safe: assertion deferred)"@,
        ),
    }
}

/// The verdict that an assertion earns given what was observed.
pub open spec fn verdict_for(a: AssertionView, o: ObservationView, source: CloseRefView) -> VerdictView {
    match a {
        AssertionView::CommandExit { cmd, expect_code } => command_verdict(
            cmd,
            expect_code,
            o,
            source,
        ),
        AssertionView::FileExists { path } => file_exists_verdict(path, o, source),
        AssertionView::GrepAbsent { path, pattern } => grep_absent_verdict(
            path,
            pattern,
            o,
            source,
        ),
        AssertionView::CounterNonzero { path, key } => counter_verdict(path, key, o, source),
    }
}

fn verdict(source: &CloseRef, status: WarrantStatus, evidence: String) -> (r: WarrantVerdict)
    ensures
        r@ == mk_verdict(source@, status, evidence@),
{
    WarrantVerdict {
        source: source.clone(),
        kind: ClaimKind::MechanismAsserted,
        status,
        evidence,
    }
}

fn run_command_exit(cmd: &str, expect_code: i32, obs: &Observation, source: &CloseRef) -> (r: WarrantVerdict)
    requires
        obs is Exited || obs is SpawnFailed,
    ensures
        r@ == command_verdict(cmd@, expect_code, obs@, source@),
{
    match obs {
        Observation::Exited(code) => {
            let actual: i32 = match code {
                Some(c) => *c,
                None => -1i32,
            };
            let mut e = "command ".to_owned();
            append_str(&mut e, debug_quoted(cmd).as_str());
            append_str(&mut e, " exited ");
            push_chars(&mut e, &decimal_exec(actual));
            if actual == expect_code {
                append_str(&mut e, " (expected ");
                push_chars(&mut e, &decimal_exec(expect_code));
                append_str(&mut e, ") \u{2014} assertion holds");
                verdict(source, WarrantStatus::Proven, e)
            } else {
                append_str(&mut e, " but expected ");
                push_chars(&mut e, &decimal_exec(expect_code));
                append_str(&mut e, " \u{2014} assertion refuted");
                verdict(source, WarrantStatus::Refuted, e)
            }
        },
        Observation::SpawnFailed(err) => {
            let mut e = "command ".to_owned();
            append_str(&mut e, debug_quoted(cmd).as_str());
            append_str(&mut e, " failed to execute: ");
            append_str(&mut e, err.as_str());
            verdict(source, WarrantStatus::Unproven, e)
        },
        _ => verdict(source, WarrantStatus::Unproven, String::new()),
    }
}

fn run_file_exists(path: &str, obs: &Observation, source: &CloseRef) -> (r: WarrantVerdict)
    requires
        obs is Exists,
    ensures
        r@ == file_exists_verdict(path@, obs@, source@),
{
    let exists = match obs {
        Observation::Exists(b) => *b,
        _ => false,
    };
    let mut e = "file ".to_owned();
    append_str(&mut e, path);
    if exists {
        append_str(&mut e, " exists \u{2014} assertion holds");
        verdict(source, WarrantStatus::Proven, e)
    } else {
        append_str(&mut e, " does not exist \u{2014} assertion refuted");
        verdict(source, WarrantStatus::Refuted, e)
    }
}

fn run_grep_absent(path: &str, pattern: &str, obs: &Observation, source: &CloseRef) -> (r: WarrantVerdict)
    requires
        obs is Read || obs is ReadFailed,
    ensures
        r@ == grep_absent_verdict(path@, pattern@, obs@, source@),
{
    match obs {
        Observation::Read(content) => {
            let c = chars_of(content.as_str());
            let p = chars_of(pattern);
            let mut e = "pattern ".to_owned();
            append_str(&mut e, debug_quoted(pattern).as_str());
            if contains_exec(&c, &p) {
                append_str(&mut e, " found in ");
                append_str(&mut e, path);
                append_str(
                    &mut e,
                    " \u{2014} GrepAbsent assertion refuted (claimed mechanism absent, but old path persists)",
                );
                verdict(source, WarrantStatus::Refuted, e)
            } else {
                append_str(&mut e, " absent from ");
                append_str(&mut e, path);
                append_str(&mut e, " \u{2014} GrepAbsent assertion holds");
                verdict(source, WarrantStatus::Proven, e)
            }
        },
        Observation::ReadFailed { exists, error } => {
            if *exists {
                let mut e = "cannot read ".to_owned();
                append_str(&mut e, path);
                append_str(&mut e, ": ");
                append_str(&mut e, error.as_str());
                verdict(source, WarrantStatus::Unproven, e)
            } else {
                let mut e = "file ".to_owned();
                append_str(&mut e, path);
                append_str(&mut e, " not found on this system (cloud-safe: assertion deferred)");
                verdict(source, WarrantStatus::Unproven, e)
            }
        },
        _ => verdict(source, WarrantStatus::Unproven, String::new()),
    }
}

fn run_counter_nonzero(path: &str, key: &str, obs: &Observation, source: &CloseRef) -> (r: WarrantVerdict)
    requires
        obs is Read || obs is ReadFailed,
    ensures
        r@ == counter_verdict(path@, key@, obs@, source@),
{
    match obs {
        Observation::Read(content) => {
            let mut e = "counter ".to_owned();
            append_str(&mut e, debug_quoted(key).as_str());
            if counter_nonzero_exec(content.as_str(), key) {
                append_str(&mut e, " is non-zero in ");
                append_str(&mut e, path);
                append_str(&mut e, " \u{2014} assertion holds");
                verdict(source, WarrantStatus::Proven, e)
            } else {
                append_str(&mut e, " is zero or absent in ");
                append_str(&mut e, path);
                append_str(&mut e, " \u{2014} assertion refuted");
                verdict(source, WarrantStatus::Refuted, e)
            }
        },
        _ => {
            let mut e = "file ".to_owned();
            append_str(&mut e, path);
            append_str(&mut e, " not found (cloud-safe: assertion deferred)");
            verdict(source, WarrantStatus::Unproven, e)
        },
    }
}

/// Decide the verdict of one assertion from what was observed. Assertions
/// are attached to mechanism claims, so the verdict's kind is
/// `MechanismAsserted`.
pub fn run_one(spec: &AssertionSpec, obs: &Observation, source: &CloseRef) -> (r: WarrantVerdict)
    requires
        fits(spec@, obs@),
    ensures
        r@ == verdict_for(spec@, obs@, source@),
{
    match spec {
        AssertionSpec::CommandExit { cmd, expect_code } => run_command_exit(
            cmd.as_str(),
            *expect_code,
            obs,
            source,
        ),
        AssertionSpec::FileExists { path } => run_file_exists(path.as_str(), obs, source),
        AssertionSpec::GrepAbsent { path, pattern } => run_grep_absent(
            path.as_str(),
            pattern.as_str(),
            obs,
            source,
        ),
        AssertionSpec::CounterNonzero { path, key } => run_counter_nonzero(
            path.as_str(),
            key.as_str(),
            obs,
            source,
        ),
    }
}

// ── The audit pass ───────────────────────────────────────────────────────────

/// Tally of verdicts from one audit pass.
#[derive(Debug, Clone, Copy, PartialEq, Eq, Structural)]
pub struct AuditTally {
    /// Number of `Proven` verdicts.
    pub proven: usize,
    /// Number of `Refuted` verdicts.
    pub refuted: usize,
    /// Number of `Unproven` verdicts.
    pub unproven: usize,
    /// Number of `Unwarranted` verdicts.
    pub unwarranted: usize,
}

impl Default for AuditTally {
    fn default() -> (r: Self)
        ensures
            r.proven == 0 && r.refuted == 0 && r.unproven == 0 && r.unwarranted == 0,
    {
        AuditTally { proven: 0, refuted: 0, unproven: 0, unwarranted: 0 }
    }
}

/// The number of occurrences of status `s` in `ss`.
pub open spec fn count_status(ss: Seq<WarrantStatus>, s: WarrantStatus) -> nat
    decreases ss.len(),
{
    if ss.len() == 0 {
        0
    } else {
        count_status(ss.drop_last(), s) + if ss.last() == s {
            1nat
        } else {
            0nat
        }
    }
}

/// The statuses of a list of verdicts.
pub open spec fn statuses(vs: Seq<VerdictView>) -> Seq<WarrantStatus> {
    vs.map_values(|v: VerdictView| v.status)
}

/// `t` counts each counted status exactly as often as it occurs in `ss`.
pub open spec fn tallies_statuses(t: AuditTally, ss: Seq<WarrantStatus>) -> bool {
    &&& t.proven == count_status(ss, WarrantStatus::Proven)
    &&& t.refuted == count_status(ss, WarrantStatus::Refuted)
    &&& t.unproven == count_status(ss, WarrantStatus::Unproven)
    &&& t.unwarranted == count_status(ss, WarrantStatus::Unwarranted)
}

/// The counts of all statuses add up to the number of entries.
pub proof fn lemma_status_counts_sum(ss: Seq<WarrantStatus>)
    ensures
        count_status(ss, WarrantStatus::Proven) + count_status(ss, WarrantStatus::Refuted)
            + count_status(ss, WarrantStatus::Unproven) + count_status(ss, WarrantStatus::Unwarranted)
            + count_status(ss, WarrantStatus::NotApplicable) == ss.len(),
    decreases ss.len(),
{
    if ss.len() > 0 {
        lemma_status_counts_sum(ss.drop_last());
    }
}

impl AuditTally {
    /// The sum of all counters.
    pub open spec fn sum(self) -> int {
        self.proven + self.refuted + self.unproven + self.unwarranted
    }

    /// Total number of verdicts.
    pub fn total(&self) -> (r: usize)
        requires
            self.sum() <= usize::MAX,
        ensures
            r == self.sum(),
    {
        self.proven + self.refuted + self.unproven + self.unwarranted
    }

    fn increment(&mut self, status: WarrantStatus)
        requires
            old(self).sum() < usize::MAX,
        ensures
            final(self).proven == old(self).proven + if status == WarrantStatus::Proven {
                1int
            } else {
                0int
            },
            final(self).refuted == old(self).refuted + if status == WarrantStatus::Refuted {
                1int
            } else {
                0int
            },
            final(self).unproven == old(self).unproven + if status == WarrantStatus::Unproven {
                1int
            } else {
                0int
            },
            final(self).unwarranted == old(self).unwarranted + if status
                == WarrantStatus::Unwarranted {
                1int
            } else {
                0int
            },
    {
        match status {
            WarrantStatus::Proven => self.proven = self.proven + 1,
            WarrantStatus::Refuted => self.refuted = self.refuted + 1,
            WarrantStatus::Unproven => self.unproven = self.unproven + 1,
            WarrantStatus::Unwarranted => self.unwarranted = self.unwarranted + 1,
            WarrantStatus::NotApplicable => {},
        }
    }
}

/// The result of one full audit pass.
#[derive(Debug)]
pub struct AuditResult {
    /// The verdicts that pass the status filter, in corpus order.
    pub verdicts: Vec<WarrantVerdict>,
    /// Summary tally over all verdicts, before filtering.
    pub tally: AuditTally,
}

/// Status filter for the audit output.
#[derive(Debug, Clone, Copy, PartialEq, Eq, Structural)]
pub enum StatusFilter {
    /// Show all verdicts.
    All,
    /// Show only `Refuted` verdicts.
    Refuted,
    /// Show only `Unwarranted` verdicts.
    Unwarranted,
}

/// The filter lets a verdict of status `s` through.
pub open spec fn keeps(f: StatusFilter, s: WarrantStatus) -> bool {
    match f {
        StatusFilter::All => true,
        StatusFilter::Refuted => s == WarrantStatus::Refuted,
        StatusFilter::Unwarranted => s == WarrantStatus::Unwarranted,
    }
}

/// The verdicts of `vs` that the filter lets through, in order.
pub open spec fn kept(vs: Seq<VerdictView>, f: StatusFilter) -> Seq<VerdictView>
    decreases vs.len(),
{
    if vs.len() == 0 {
        seq![]
    } else if keeps(f, vs.last().status) {
        kept(vs.drop_last(), f).push(vs.last())
    } else {
        kept(vs.drop_last(), f)
    }
}

/// The name that a close reference is looked up under in the registry: the
/// final path component of a PRD path (empty when there is none), or the
/// docket identifier.
pub open spec fn basename_of(r: CloseRefView) -> Seq<char> {
    match r {
        CloseRefView::Prd(p) => match file_name(p) {
            Some(n) => n,
            None => seq![],
        },
        CloseRefView::Docket(s) => s,
    }
}

fn basename(r: &CloseRef) -> (b: String)
    ensures
        b@ == basename_of(r@),
{
    match r {
        CloseRef::Prd(p) => {
            let cs = chars_of(p.as_str());
            match file_name_exec(&cs) {
                Some(n) => string_of(&n),
                None => String::new(),
            }
        },
        CloseRef::Docket(s) => s.clone(),
    }
}

/// The assertion registered for a note, if any.
pub open spec fn probe_for(raw: RawCloseView, reg: Seq<EntryView>) -> Option<AssertionView> {
    match find_index(reg, basename_of(raw.reference)) {
        Some(k) => Some(reg[k].assertion),
        None => None,
    }
}

/// The view of an optional assertion.
pub open spec fn opt_assertion(a: Option<AssertionSpec>) -> Option<AssertionView> {
    match a {
        Some(s) => Some(s@),
        None => None,
    }
}

/// The view of an optional observation.
pub open spec fn opt_observation(o: Option<Observation>) -> Option<ObservationView> {
    match o {
        Some(x) => Some(x@),
        None => None,
    }
}

/// Every note that has a registered assertion comes with an observation of
/// the sort that assertion calls for.
pub open spec fn observations_fit(
    notes: Seq<RawCloseView>,
    reg: Seq<EntryView>,
    obs: Seq<Option<ObservationView>>,
) -> bool {
    &&& obs.len() == notes.len()
    &&& forall|i: int|
        0 <= i < notes.len() ==> match #[trigger] probe_for(notes[i], reg) {
            Some(a) => obs[i] matches Some(o) && fits(a, o),
            None => true,
        }
}

/// The verdict of one note of the corpus: the registered assertion's verdict
/// (carrying the note's own claim kind), or `Unwarranted` when the registry
/// has no entry for it.
pub open spec fn audit_verdict(
    raw: RawCloseView,
    reg: Seq<EntryView>,
    obs: Option<ObservationView>,
) -> VerdictView {
    let kind = classified(raw).kind;
    match find_index(reg, basename_of(raw.reference)) {
        Some(k) => {
            let v = verdict_for(reg[k].assertion, obs.unwrap(), raw.reference);
            VerdictView { kind, ..v }
        },
        None => VerdictView {
            source: raw.reference,
            kind,
            status: WarrantStatus::Unwarranted,
            evidence: "no warrant registered for "@ + basename_of(raw.reference),
        },
    }
}

/// The verdicts of all notes, in corpus order.
pub open spec fn audit_verdicts(
    notes: Seq<RawCloseView>,
    reg: Seq<EntryView>,
    obs: Seq<Option<ObservationView>>,
) -> Seq<VerdictView> {
    Seq::new(notes.len(), |i: int| audit_verdict(notes[i], reg, obs[i]))
}

/// The view of an [`AuditResult`].
pub struct AuditResultView {
    pub verdicts: Seq<VerdictView>,
    pub tally: AuditTally,
}

impl View for AuditResult {
    type V = AuditResultView;

    open spec fn view(&self) -> AuditResultView {
        AuditResultView {
            verdicts: self.verdicts@.map_values(|v: WarrantVerdict| v@),
            tally: self.tally,
        }
    }
}

/// The view of a list of notes.
pub open spec fn note_views(notes: Seq<RawClose>) -> Seq<RawCloseView> {
    notes.map_values(|n: RawClose| n@)
}

/// The view of a list of optional observations.
pub open spec fn observation_views(obs: Seq<Option<Observation>>) -> Seq<Option<ObservationView>> {
    obs.map_values(|o: Option<Observation>| opt_observation(o))
}

/// The assertion that the program has to carry out for each note: the one
/// registered under the note's basename, or none.
pub fn audit_probes(notes: &[RawClose], registry: &WarrantRegistry) -> (r: Vec<Option<AssertionSpec>>)
    ensures
        r@.len() == notes@.len(),
        forall|i: int|
            0 <= i < notes@.len() ==> opt_assertion(#[trigger] r@[i]) == probe_for(
                notes@[i]@,
                registry@,
            ),
{
    let mut r: Vec<Option<AssertionSpec>> = Vec::new();
    let n = notes.len();
    for i in 0..n
        invariant
            n == notes@.len(),
            r@.len() == i,
            forall|j: int|
                0 <= j < i ==> opt_assertion(#[trigger] r@[j]) == probe_for(notes@[j]@, registry@),
    {
        let b = basename(&notes[i].reference);
        proof {
            lemma_find_from(registry@, b@, 0);
        }
        match registry.find(b.as_str()) {
            Some(e) => r.push(Some(e.assertion.clone())),
            None => r.push(None),
        }
    }
    r
}

/// Run a full audit pass over a corpus and a registry, given what the
/// program observed for each note's registered assertion.
///
/// Every note gets a verdict; a note absent from the registry is
/// `Unwarranted`. The tally counts all verdicts; the returned list holds the
/// ones that pass the filter.
pub fn run_audit(
    notes: &[RawClose],
    registry: &WarrantRegistry,
    observations: &[Option<Observation>],
    filter: StatusFilter,
) -> (result: AuditResult)
    requires
        observations_fit(note_views(notes@), registry@, observation_views(observations@)),
    ensures
        result@.verdicts == kept(
            audit_verdicts(note_views(notes@), registry@, observation_views(observations@)),
            filter,
        ),
        tallies_statuses(
            result.tally,
            statuses(
                audit_verdicts(note_views(notes@), registry@, observation_views(observations@)),
            ),
        ),
        result.tally.sum() == notes@.len(),
{
    let ghost nv = note_views(notes@);
    let ghost ov = observation_views(observations@);
    let ghost all = audit_verdicts(nv, registry@, ov);
    let mut tally = AuditTally::default();
    let mut verdicts: Vec<WarrantVerdict> = Vec::new();
    let n = notes.len();
    for i in 0..n
        invariant
            n == notes@.len(),
            nv == note_views(notes@),
            ov == observation_views(observations@),
            all == audit_verdicts(nv, registry@, ov),
            observations_fit(nv, registry@, ov),
            verdicts@.len() == i,
            forall|j: int| 0 <= j < i ==> #[trigger] verdicts@[j]@ == all[j],
            tallies_statuses(tally, statuses(all.take(i as int))),
            tally.sum() == i,
            forall|j: int| 0 <= j < i ==> all[j].status != WarrantStatus::NotApplicable,
    {
        let raw = &notes[i];
        let b = basename(&raw.reference);
        let kind = classify_one(raw).kind;
        assert(nv[i as int] == raw@);
        proof {
            lemma_find_from(registry@, b@, 0);
        }
        let v = match registry.find(b.as_str()) {
            Some(entry) => {
                assert(probe_for(nv[i as int], registry@) is Some);
                let obs = match &observations[i as usize] {
                    Some(o) => o,
                    None => {
                        assert(false);
                        return AuditResult { verdicts, tally };
                    },
                };
                assert(ov[i as int] == Some(obs@));
                let mut v = run_one(&entry.assertion, obs, &raw.reference);
                v.kind = kind;
                v
            },
            None => {
                let mut e = "no warrant registered for ".to_owned();
                append_str(&mut e, b.as_str());
                WarrantVerdict {
                    source: raw.reference.clone(),
                    kind,
                    status: WarrantStatus::Unwarranted,
                    evidence: e,
                }
            },
        };
        assert(v@ == all[i as int]);
        let ghost before = statuses(all.take(i as int));
        proof {
            lemma_status_counts_sum(before);
        }
        tally.increment(v.status);
        verdicts.push(v);
        assert(statuses(all.take(i + 1)).drop_last() =~= before);
    }
    assert(all.take(n as int) =~= all);
    let ghost allv = verdicts@.map_values(|v: WarrantVerdict| v@);
    assert(allv =~= all);
    if filter == StatusFilter::All {
        proof {
            lemma_kept_all(all);
        }
        let result = AuditResult { verdicts, tally };
        return result;
    }
    let mut out: Vec<WarrantVerdict> = Vec::new();
    for i in 0..n
        invariant
            n == verdicts@.len(),
            forall|j: int| 0 <= j < n ==> #[trigger] verdicts@[j]@ == all[j],
            all.len() == n,
            out@.map_values(|v: WarrantVerdict| v@) == kept(all.take(i as int), filter),
    {
        let st = verdicts[i].status;
        let keep = match filter {
            StatusFilter::All => true,
            StatusFilter::Refuted => st == WarrantStatus::Refuted,
            StatusFilter::Unwarranted => st == WarrantStatus::Unwarranted,
        };
        let ghost prev = out@.map_values(|v: WarrantVerdict| v@);
        assert(all.take(i + 1).drop_last() =~= all.take(i as int));
        assert(all.take(i + 1).last() == all[i as int]);
        assert(verdicts@[i as int]@ == all[i as int]);
        assert(keep == keeps(filter, all[i as int].status));
        if keep {
            out.push(verdicts[i].clone());
            assert(out@.map_values(|v: WarrantVerdict| v@) =~= prev.push(all[i as int]));
        }
    }
    AuditResult { verdicts: out, tally }
}

/// Run the audit pass on observations handed in by the caller, after
/// checking them: one per note, and for each registered note an observation
/// of the kind its assertion needs. `None` when they do not fit; otherwise
/// the result of [`run_audit`].
pub fn run_audit_checked(
    notes: &[RawClose],
    registry: &WarrantRegistry,
    observations: &[Option<Observation>],
    filter: StatusFilter,
) -> (r: Option<AuditResult>)
    ensures
        r is Some <==> observations_fit(note_views(notes@), registry@, observation_views(observations@)),
        r matches Some(result) ==> {
            &&& result@.verdicts == kept(
                audit_verdicts(note_views(notes@), registry@, observation_views(observations@)),
                filter,
            )
            &&& tallies_statuses(
                result.tally,
                statuses(
                    audit_verdicts(note_views(notes@), registry@, observation_views(observations@)),
                ),
            )
            &&& result.tally.sum() == notes@.len()
        },
{
    let ghost nv = note_views(notes@);
    let ghost ov = observation_views(observations@);
    let n = notes.len();
    if observations.len() != n {
        return None;
    }
    let probes = audit_probes(notes, registry);
    for i in 0..n
        invariant
            n == notes@.len(),
            n == observations@.len(),
            nv == note_views(notes@),
            ov == observation_views(observations@),
            probes@.len() == n,
            forall|j: int|
                0 <= j < n ==> opt_assertion(#[trigger] probes@[j]) == probe_for(nv[j], registry@),
            forall|j: int|
                0 <= j < i ==> match #[trigger] probe_for(nv[j], registry@) {
                    Some(a) => ov[j] matches Some(o) && fits(a, o),
                    None => true,
                },
    {
        assert(opt_assertion(probes@[i as int]) == probe_for(nv[i as int], registry@));
        match &probes[i] {
            Some(a) => match &observations[i] {
                Some(o) => {
                    if !o.fits(a) {
                        assert(!observations_fit(nv, registry@, ov)) by {
                            assert(ov[i as int] == Some(o@));
                        }
                        return None;
                    }
                    assert(ov[i as int] == Some(o@));
                },
                None => {
                    assert(!observations_fit(nv, registry@, ov)) by {
                        assert(ov[i as int] is None);
                    }
                    return None;
                },
            },
            None => {},
        }
    }
    Some(run_audit(notes, registry, observations, filter))
}

/// Keeping everything keeps the list as it is.
pub proof fn lemma_kept_all(vs: Seq<VerdictView>)
    ensures
        kept(vs, StatusFilter::All) == vs,
    decreases vs.len(),
{
    if vs.len() > 0 {
        lemma_kept_all(vs.drop_last());
        assert(vs.drop_last().push(vs.last()) =~= vs);
    }
}


// ── Laws of the audit pass ───────────────────────────────────────────────────

/// Per-assertion failures are non-fatal: without a filter, every note of the
/// corpus gets exactly one verdict, in corpus order.
pub proof fn lemma_every_note_gets_a_verdict(
    notes: Seq<RawCloseView>,
    reg: Seq<EntryView>,
    obs: Seq<Option<ObservationView>>,
)
    ensures
        kept(audit_verdicts(notes, reg, obs), StatusFilter::All) == audit_verdicts(notes, reg, obs),
        audit_verdicts(notes, reg, obs).len() == notes.len(),
{
    lemma_kept_all(audit_verdicts(notes, reg, obs));
}

/// A note's verdict is `Unwarranted` exactly when the registry has no entry
/// for its basename; a registered note is never `Unwarranted`.
pub proof fn lemma_unwarranted_iff_unregistered(
    raw: RawCloseView,
    reg: Seq<EntryView>,
    obs: Option<ObservationView>,
)
    ensures
        (audit_verdict(raw, reg, obs).status == WarrantStatus::Unwarranted) <==> find_index(
            reg,
            basename_of(raw.reference),
        ) is None,
{
}

/// The filter keeps only verdicts whose status it lets through, and keeps
/// all of those.
pub proof fn lemma_kept_exactly_passing(vs: Seq<VerdictView>, f: StatusFilter)
    ensures
        forall|i: int| 0 <= i < kept(vs, f).len() ==> keeps(f, #[trigger] kept(vs, f)[i].status),
        forall|i: int| 0 <= i < vs.len() && keeps(f, #[trigger] vs[i].status) ==> kept(vs, f).contains(vs[i]),
    decreases vs.len(),
{
    if vs.len() > 0 {
        lemma_kept_exactly_passing(vs.drop_last(), f);
        let prev = kept(vs.drop_last(), f);
        assert forall|i: int| 0 <= i < vs.len() && keeps(f, #[trigger] vs[i].status) implies kept(vs, f).contains(vs[i]) by {
            if i < vs.len() - 1 {
                assert(vs.drop_last()[i] == vs[i]);
                assert(prev.contains(vs[i]));
                let k = choose|k: int| 0 <= k < prev.len() && prev[k] == vs[i];
                if keeps(f, vs.last().status) {
                    assert(kept(vs, f)[k] == vs[i]);
                }
            } else {
                assert(vs[i] == vs.last());
                assert(kept(vs, f)[kept(vs, f).len() - 1] == vs[i]);
            }
        }
    }
}

// ── Laws of the assertion verdicts ───────────────────────────────────────────

/// The number that starts at `i` is greater than zero exactly when one of
/// its digits (the run of digits from `i` on) is not `0`.
pub proof fn lemma_nonzero_run_any_digit(t: Seq<char>, i: int)
    requires
        0 <= i,
    ensures
        nonzero_run(t, i) <==> exists|k: int|
            i <= k < t.len() && t[k] != '0' && forall|j: int| i <= j <= k ==> #[trigger] is_digit(t[j]),
    decreases t.len() - i,
{
    if i < t.len() && is_digit(t[i]) {
        lemma_nonzero_run_any_digit(t, i + 1);
        if t[i] != '0' {
            assert forall|j: int| i <= j <= i implies #[trigger] is_digit(t[j]) by {}
        } else if nonzero_run(t, i + 1) {
            let k = choose|k: int|
                i + 1 <= k < t.len() && t[k] != '0' && forall|j: int| i + 1 <= j <= k ==> #[trigger] is_digit(t[j]);
            assert forall|j: int| i <= j <= k implies #[trigger] is_digit(t[j]) by {
                if j > i {
                    assert(is_digit(t[j]));
                }
            }
        } else {
            if exists|k: int|
                i <= k < t.len() && t[k] != '0' && forall|j: int| i <= j <= k ==> #[trigger] is_digit(t[j]) {
                let k = choose|k: int|
                    i <= k < t.len() && t[k] != '0' && forall|j: int| i <= j <= k ==> #[trigger] is_digit(t[j]);
                assert(k != i);
                assert forall|j: int| i + 1 <= j <= k implies #[trigger] is_digit(t[j]) by {
                    assert(is_digit(t[j]));
                }
            }
        }
    } else {
        if exists|k: int|
            i <= k < t.len() && t[k] != '0' && forall|j: int| i <= j <= k ==> #[trigger] is_digit(t[j]) {
            let k = choose|k: int|
                i <= k < t.len() && t[k] != '0' && forall|j: int| i <= j <= k ==> #[trigger] is_digit(t[j]);
            assert(is_digit(t[i]));
        }
    }
}

/// A counter assertion on a file that was read is proven exactly when some
/// line, in lowercase, holds the lowercase key followed (after optional
/// whitespace and one `:` or `=`) by digits of which one is not `0`, and
/// refuted otherwise.
pub proof fn lemma_counter_verdict(path: Seq<char>, key: Seq<char>, content: Seq<char>, source: CloseRefView)
    ensures
        verdict_for(AssertionView::CounterNonzero { path, key }, ObservationView::Read(content), source).status
            == (if counter_nonzero(content, key) {
            WarrantStatus::Proven
        } else {
            WarrantStatus::Refuted
        }),
        forall|line: Seq<char>, i: int|
            #![trigger key_nonzero_at(lowercase_of(line), lowercase_of(key), i)]
            0 <= i ==> (key_nonzero_at(lowercase_of(line), lowercase_of(key), i) <==> {
                let low = lowercase_of(line);
                let k = lowercase_of(key);
                let v = value_start(low, i + k.len());
                &&& occurs_at(low, k, i)
                &&& exists|m: int|
                    v <= m < low.len() && low[m] != '0' && forall|j: int|
                        v <= j <= m ==> #[trigger] is_digit(low[j])
            }),
{
    assert forall|line: Seq<char>, i: int|
        #![trigger key_nonzero_at(lowercase_of(line), lowercase_of(key), i)]
        0 <= i implies (key_nonzero_at(lowercase_of(line), lowercase_of(key), i) <==> {
            let low = lowercase_of(line);
            let k = lowercase_of(key);
            let v = value_start(low, i + k.len());
            &&& occurs_at(low, k, i)
            &&& exists|m: int|
                v <= m < low.len() && low[m] != '0' && forall|j: int|
                    v <= j <= m ==> #[trigger] is_digit(low[j])
        }) by {
        let low = lowercase_of(line);
        let k = lowercase_of(key);
        lemma_value_start_bounds(low, i + k.len());
        lemma_nonzero_run_any_digit(low, value_start(low, i + k.len()));
    }
}

/// `value_start` does not go back before where the key ends.
pub proof fn lemma_value_start_bounds(t: Seq<char>, i: int)
    requires
        0 <= i,
    ensures
        i <= value_start(t, i),
{
    lemma_ws_prefix_end_from(t, i);
    let j = ws_prefix_end(t, i);
    if 0 <= j < t.len() && (t[j] == ':' || t[j] == '=') {
        lemma_ws_prefix_end_from(t, j + 1);
    }
}

/// Skipping whitespace never moves backwards.
pub proof fn lemma_ws_prefix_end_from(t: Seq<char>, i: int)
    ensures
        i <= ws_prefix_end(t, i),
    decreases t.len() - i,
{
    if 0 <= i < t.len() && is_ws(t[i]) {
        lemma_ws_prefix_end_from(t, i + 1);
    }
}

/// A command assertion on a command that exited is proven exactly when its
/// exit code (`-1` when it had none) equals the expected code, and refuted
/// otherwise.
pub proof fn lemma_command_verdict(cmd: Seq<char>, expect: i32, code: Option<i32>, source: CloseRefView)
    ensures
        code matches Some(c) && c == expect ==> verdict_for(
            AssertionView::CommandExit { cmd, expect_code: expect },
            ObservationView::Exited(code),
            source,
        ).status == WarrantStatus::Proven,
        code matches Some(c) && c != expect ==> verdict_for(
            AssertionView::CommandExit { cmd, expect_code: expect },
            ObservationView::Exited(code),
            source,
        ).status == WarrantStatus::Refuted,
        code is None ==> verdict_for(
            AssertionView::CommandExit { cmd, expect_code: expect },
            ObservationView::Exited(code),
            source,
        ).status == (if expect == -1 {
            WarrantStatus::Proven
        } else {
            WarrantStatus::Refuted
        }),
{
}

/// A grep-absent assertion on a file that was read is refuted exactly when
/// the pattern occurs somewhere in the text, as a substring, and proven
/// exactly when it occurs nowhere.
pub proof fn lemma_grep_absent_verdict(path: Seq<char>, pattern: Seq<char>, content: Seq<char>, source: CloseRefView)
    ensures
        (verdict_for(
            AssertionView::GrepAbsent { path, pattern },
            ObservationView::Read(content),
            source,
        ).status == WarrantStatus::Refuted) <==> exists|i: int|
            0 <= i && i + pattern.len() <= content.len() && #[trigger] content.subrange(i, i + pattern.len())
                == pattern,
        (verdict_for(
            AssertionView::GrepAbsent { path, pattern },
            ObservationView::Read(content),
            source,
        ).status == WarrantStatus::Proven) <==> forall|i: int|
            0 <= i && i + pattern.len() <= content.len() ==> #[trigger] content.subrange(i, i + pattern.len())
                != pattern,
{
    if exists|i: int|
        0 <= i && i + pattern.len() <= content.len() && #[trigger] content.subrange(i, i + pattern.len())
            == pattern {
        let i = choose|i: int|
            0 <= i && i + pattern.len() <= content.len() && #[trigger] content.subrange(i, i + pattern.len())
                == pattern;
        assert(occurs_at(content, pattern, i));
    }
}

/// The status filters by name: `All` keeps every verdict; `Refuted` keeps
/// exactly the refuted verdicts and `Unwarranted` exactly the unwarranted
/// ones, each in the order they came.
pub proof fn lemma_filters_by_status(vs: Seq<VerdictView>)
    ensures
        kept(vs, StatusFilter::All) == vs,
        kept(vs, StatusFilter::Refuted) == vs.filter(|v: VerdictView| v.status == WarrantStatus::Refuted),
        kept(vs, StatusFilter::Unwarranted) == vs.filter(
            |v: VerdictView| v.status == WarrantStatus::Unwarranted,
        ),
    decreases vs.len(),
{
    lemma_kept_all(vs);
    reveal(Seq::filter);
    if vs.len() > 0 {
        lemma_filters_by_status(vs.drop_last());
    }
}

} // verus!
