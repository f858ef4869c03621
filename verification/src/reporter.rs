//! Reporting decisions: `Refuted` verdicts become docket reopen requests,
//! edge-triggered on the reported state, and `Proven` verdicts auto-close
//! slugs that were reported before.

use vstd::prelude::*;

use crate::docket::{DocketSink, ReportedState};
use crate::model::{kind_name, CloseRef, CloseRefView, VerdictView, WarrantStatus, WarrantVerdict};
use crate::paths::{file_name, file_name_exec, file_stem, stem_exec};
use crate::text::{append_str, chars_of, debug_form, debug_quoted_chars, push_chars};

verus! {

/// The action taken for a single verdict entry.
#[derive(Debug, Clone, Copy, PartialEq, Eq, Structural)]
pub enum ReportAction {
    /// The verdict will reopen (or would reopen, in dry-run) a docket entry.
    WouldReopen,
    /// The verdict was already reported in a previous run (edge-trigger no-op).
    AlreadyReported,
    /// The verdict is `Proven` and clears a previously-reported slug.
    AutoClosed,
    /// The verdict status does not trigger a docket action.
    NoAction,
}

/// A single entry in the report output.
#[derive(Debug)]
pub struct ReportEntry {
    /// The docket slug.
    pub slug: String,
    /// One-line summary.
    pub summary: String,
    /// Evidence string.
    pub evidence: String,
    /// What action was (or would be) taken.
    pub action: ReportAction,
}

/// The view of a [`ReportEntry`].
pub struct ReportEntryView {
    pub slug: Seq<char>,
    pub summary: Seq<char>,
    pub evidence: Seq<char>,
    pub action: ReportAction,
}

impl View for ReportEntry {
    type V = ReportEntryView;

    open spec fn view(&self) -> ReportEntryView {
        ReportEntryView {
            slug: self.slug@,
            summary: self.summary@,
            evidence: self.evidence@,
            action: self.action,
        }
    }
}

/// The result of a reporting pass.
#[derive(Debug)]
pub struct ReportResult {
    /// All entries, one per verdict.
    pub entries: Vec<ReportEntry>,
    /// Number of reopen calls that the sink accepted (only non-zero when
    /// applying).
    pub reopened: usize,
    /// Number of auto-closes performed.
    pub auto_closed: usize,
    /// Reopen calls that the sink refused: `(slug, error)`. The pass fails
    /// open on them.
    pub sink_failures: Vec<(String, String)>,
}

// ── Slugs and summaries ──────────────────────────────────────────────────────

/// The docket slug of a verdict source: `warrant:` and the file stem of a
/// PRD path (`unknown` when there is none), or the docket identifier.
pub open spec fn slug_of(r: CloseRefView) -> Seq<char> {
    "warrant:"@ + match r {
        CloseRefView::Prd(p) => match file_stem(p) {
            Some(s) => s,
            None => "unknown"@,
        },
        CloseRefView::Docket(s) => s,
    }
}

/// The name a summary gives a source: the file name of a PRD path
/// (`unknown` when there is none), or the docket identifier.
pub open spec fn source_label(r: CloseRefView) -> Seq<char> {
    match r {
        CloseRefView::Prd(p) => match file_name(p) {
            Some(n) => n,
            None => "unknown"@,
        },
        CloseRefView::Docket(s) => s,
    }
}

/// The one-line summary of a refuted verdict.
pub open spec fn summary_of(v: VerdictView) -> Seq<char> {
    "close "@ + debug_form(source_label(v.source))
        + " claims mechanism delivered; assertion shows it is not ("@ + kind_name(v.kind) + ")"@
}

/// Derive the docket slug for a verdict source.
pub fn slug_for(source: &CloseRef) -> (r: String)
    ensures
        r@ == slug_of(source@),
{
    let mut s = "warrant:".to_owned();
    match source {
        CloseRef::Prd(p) => {
            let cs = chars_of(p.as_str());
            match file_name_exec(&cs) {
                Some(n) => {
                    let stem = stem_exec(&n);
                    push_chars(&mut s, &stem);
                },
                None => append_str(&mut s, "unknown"),
            }
        },
        CloseRef::Docket(d) => append_str(&mut s, d.as_str()),
    }
    s
}

/// Derive a one-line summary for a `Refuted` verdict.
pub fn summary_for(verdict: &WarrantVerdict) -> (r: String)
    ensures
        r@ == summary_of(verdict@),
{
    let label = match &verdict.source {
        CloseRef::Prd(p) => {
            let cs = chars_of(p.as_str());
            match file_name_exec(&cs) {
                Some(n) => n,
                None => chars_of("unknown"),
            }
        },
        CloseRef::Docket(d) => chars_of(d.as_str()),
    };
    let mut s = "close ".to_owned();
    append_str(&mut s, debug_quoted_chars(&label).as_str());
    append_str(&mut s, " claims mechanism delivered; assertion shows it is not (");
    append_str(&mut s, verdict.kind.name().as_str());
    append_str(&mut s, ")");
    s
}

// ── The reporting plan ───────────────────────────────────────────────────────

/// A reopen call: `(slug, summary, evidence)` and whether the sink accepted
/// it.
pub type SinkCall = (Seq<char>, Seq<char>, Seq<char>, bool);

/// What a reporting pass decides: the state afterwards, the entries, the
/// reopen calls it makes, how many of them the sink accepted, the slugs of
/// those it refused, and the number of auto-closes.
pub struct ReportPlan {
    pub state: Map<Seq<char>, Seq<char>>,
    pub entries: Seq<ReportEntryView>,
    pub calls: Seq<SinkCall>,
    pub reopened: nat,
    pub failed: Seq<Seq<char>>,
    pub auto_closed: nat,
}

/// The entry for a verdict.
pub open spec fn entry(slug: Seq<char>, summary: Seq<char>, v: VerdictView, action: ReportAction) -> ReportEntryView {
    ReportEntryView { slug, summary, evidence: v.evidence, action }
}

/// One step of a reporting pass over verdict `v`; `answers[j]` is the
/// sink's answer to the `j`-th reopen call of the pass. A refused call is
/// not recorded in the state, so a later pass tries it again.
pub open spec fn report_step(p: ReportPlan, v: VerdictView, apply: bool, answers: Seq<bool>) -> ReportPlan {
    let slug = slug_of(v.source);
    match v.status {
        WarrantStatus::Refuted => if p.state.contains_key(slug) && p.state[slug] == "Refuted"@ {
            ReportPlan {
                entries: p.entries.push(
                    entry(slug, summary_of(v), v, ReportAction::AlreadyReported),
                ),
                ..p
            }
        } else if apply {
            let ok = answers[p.calls.len() as int];
            ReportPlan {
                state: if ok {
                    p.state.insert(slug, "Refuted"@)
                } else {
                    p.state
                },
                entries: p.entries.push(entry(slug, summary_of(v), v, ReportAction::WouldReopen)),
                calls: p.calls.push((slug, summary_of(v), v.evidence, ok)),
                reopened: if ok {
                    p.reopened + 1
                } else {
                    p.reopened
                },
                failed: if ok {
                    p.failed
                } else {
                    p.failed.push(slug)
                },
                auto_closed: p.auto_closed,
            }
        } else {
            ReportPlan {
                entries: p.entries.push(entry(slug, summary_of(v), v, ReportAction::WouldReopen)),
                ..p
            }
        },
        WarrantStatus::Proven => if p.state.contains_key(slug) {
            let e = entry(
                slug,
                "verdict now Proven \u{2014} auto-closing slug"@,
                v,
                ReportAction::AutoClosed,
            );
            if apply {
                ReportPlan {
                    state: p.state.remove(slug),
                    entries: p.entries.push(e),
                    auto_closed: p.auto_closed + 1,
                    ..p
                }
            } else {
                ReportPlan { entries: p.entries.push(e), ..p }
            }
        } else {
            ReportPlan {
                entries: p.entries.push(entry(slug, seq![], v, ReportAction::NoAction)),
                ..p
            }
        },
        _ => ReportPlan {
            entries: p.entries.push(entry(slug, seq![], v, ReportAction::NoAction)),
            ..p
        },
    }
}

/// The reporting pass over all of `vs`, from reported state `init`, with
/// the sink giving `answers` to its reopen calls in turn.
pub open spec fn report_plan(
    init: Map<Seq<char>, Seq<char>>,
    vs: Seq<VerdictView>,
    apply: bool,
    answers: Seq<bool>,
) -> ReportPlan
    decreases vs.len(),
{
    if vs.len() == 0 {
        ReportPlan {
            state: init,
            entries: seq![],
            calls: seq![],
            reopened: 0,
            failed: seq![],
            auto_closed: 0,
        }
    } else {
        report_step(report_plan(init, vs.drop_last(), apply, answers), vs.last(), apply, answers)
    }
}

/// The answers a sink gave to the calls it received after `before`.
pub open spec fn answers_since(before: Seq<SinkCall>, after: Seq<SinkCall>) -> Seq<bool> {
    after.skip(before.len() as int).map_values(|c: SinkCall| c.3)
}

/// The views of a list of verdicts.
pub open spec fn verdict_views(vs: Seq<WarrantVerdict>) -> Seq<VerdictView> {
    vs.map_values(|v: WarrantVerdict| v@)
}

/// The views of a list of entries.
pub open spec fn entry_views(es: Seq<ReportEntry>) -> Seq<ReportEntryView> {
    es.map_values(|e: ReportEntry| e@)
}

/// The slugs of a list of sink failures.
pub open spec fn failure_slugs(fs: Seq<(String, String)>) -> Seq<Seq<char>> {
    fs.map_values(|f: (String, String)| f.0@)
}

/// A pass makes one entry per verdict and at most one reopen call and one
/// auto-close per verdict; each call is either accepted or refused.
pub proof fn lemma_plan_sizes(init: Map<Seq<char>, Seq<char>>, vs: Seq<VerdictView>, apply: bool, answers: Seq<bool>)
    ensures
        report_plan(init, vs, apply, answers).entries.len() == vs.len(),
        report_plan(init, vs, apply, answers).calls.len() <= vs.len(),
        report_plan(init, vs, apply, answers).auto_closed <= vs.len(),
        report_plan(init, vs, apply, answers).reopened + report_plan(init, vs, apply, answers).failed.len()
            == report_plan(init, vs, apply, answers).calls.len(),
    decreases vs.len(),
{
    if vs.len() > 0 {
        lemma_plan_sizes(init, vs.drop_last(), apply, answers);
    }
}

/// A pass reads only the answers to the calls it makes: answers given
/// after those change nothing.
pub proof fn lemma_plan_answers_extend(
    init: Map<Seq<char>, Seq<char>>,
    vs: Seq<VerdictView>,
    apply: bool,
    answers: Seq<bool>,
    more: Seq<bool>,
)
    requires
        report_plan(init, vs, apply, answers).calls.len() <= answers.len(),
    ensures
        report_plan(init, vs, apply, answers + more) == report_plan(init, vs, apply, answers),
    decreases vs.len(),
{
    if vs.len() > 0 {
        let p = report_plan(init, vs.drop_last(), apply, answers);
        assert(p.calls.len() <= report_plan(init, vs, apply, answers).calls.len());
        lemma_plan_answers_extend(init, vs.drop_last(), apply, answers, more);
        if p.calls.len() < answers.len() {
            assert((answers + more)[p.calls.len() as int] == answers[p.calls.len() as int]);
        }
    }
}

/// Run the reporting pass over a list of verdicts.
///
/// - With `apply`, each new `Refuted` verdict is sent to `sink.reopen`; an
///   accepted request is recorded in `state`, a refused one is kept in
///   `sink_failures` (and tried again by a later pass), and the pass goes
///   on. Each `Proven` verdict of a recorded slug clears it.
/// - Without `apply`, nothing is sent and `state` is left as it is; the
///   entries say what would happen.
pub fn report_verdicts<S: DocketSink>(
    verdicts: &[WarrantVerdict],
    state: &mut ReportedState,
    sink: &mut S,
    apply: bool,
) -> (r: ReportResult)
    ensures
        final(sink).log() == old(sink).log() + report_plan(
            old(state)@,
            verdict_views(verdicts@),
            apply,
            answers_since(old(sink).log(), final(sink).log()),
        ).calls,
        final(state)@ == report_plan(
            old(state)@,
            verdict_views(verdicts@),
            apply,
            answers_since(old(sink).log(), final(sink).log()),
        ).state,
        entry_views(r.entries@) == report_plan(
            old(state)@,
            verdict_views(verdicts@),
            apply,
            answers_since(old(sink).log(), final(sink).log()),
        ).entries,
        r.reopened == report_plan(
            old(state)@,
            verdict_views(verdicts@),
            apply,
            answers_since(old(sink).log(), final(sink).log()),
        ).reopened,
        failure_slugs(r.sink_failures@) == report_plan(
            old(state)@,
            verdict_views(verdicts@),
            apply,
            answers_since(old(sink).log(), final(sink).log()),
        ).failed,
        r.auto_closed == report_plan(
            old(state)@,
            verdict_views(verdicts@),
            apply,
            answers_since(old(sink).log(), final(sink).log()),
        ).auto_closed,
        !apply ==> *final(sink) == *old(sink),
{
    let ghost vv = verdict_views(verdicts@);
    let ghost init = state@;
    let ghost log0 = sink.log();
    let mut entries: Vec<ReportEntry> = Vec::new();
    let mut reopened: usize = 0;
    let mut auto_closed: usize = 0;
    let mut sink_failures: Vec<(String, String)> = Vec::new();
    let n = verdicts.len();
    let refuted = "Refuted";
    assert(answers_since(log0, sink.log()) =~= Seq::<bool>::empty());
    assert(log0 + Seq::<SinkCall>::empty() =~= log0);
    for i in 0..n
        invariant
            n == verdicts@.len(),
            vv == verdict_views(verdicts@),
            refuted@ == "Refuted"@,
            sink.log() == log0 + report_plan(
                init,
                vv.take(i as int),
                apply,
                answers_since(log0, sink.log()),
            ).calls,
            state@ == report_plan(init, vv.take(i as int), apply, answers_since(log0, sink.log())).state,
            entry_views(entries@) == report_plan(
                init,
                vv.take(i as int),
                apply,
                answers_since(log0, sink.log()),
            ).entries,
            auto_closed == report_plan(
                init,
                vv.take(i as int),
                apply,
                answers_since(log0, sink.log()),
            ).auto_closed,
            reopened == report_plan(
                init,
                vv.take(i as int),
                apply,
                answers_since(log0, sink.log()),
            ).reopened,
            failure_slugs(sink_failures@) == report_plan(
                init,
                vv.take(i as int),
                apply,
                answers_since(log0, sink.log()),
            ).failed,
            !apply ==> *sink == *old(sink),
    {
        let verdict = &verdicts[i];
        let ghost prefix = vv.take(i as int);
        let ghost ans = answers_since(log0, sink.log());
        let ghost p = report_plan(init, prefix, apply, ans);
        assert(vv.take(i + 1).drop_last() =~= prefix);
        assert(vv.take(i + 1).last() == verdict@);
        proof {
            lemma_plan_sizes(init, prefix, apply, ans);
            assert(sink.log().skip(log0.len() as int) =~= p.calls);
            assert(ans.len() == p.calls.len());
        }
        let slug = slug_for(&verdict.source);
        let ghost before = entry_views(entries@);
        let ghost fbefore = failure_slugs(sink_failures@);
        match verdict.status {
            WarrantStatus::Refuted => {
                if state.already_reported(slug.as_str(), refuted) {
                    entries.push(
                        ReportEntry {
                            slug,
                            summary: summary_for(verdict),
                            evidence: verdict.evidence.clone(),
                            action: ReportAction::AlreadyReported,
                        },
                    );
                } else {
                    let summary = summary_for(verdict);
                    if apply {
                        let res = sink.reopen(slug.as_str(), summary.as_str(), verdict.evidence.as_str());
                        let ghost ok = res is Ok;
                        proof {
                            let ans2 = answers_since(log0, sink.log());
                            assert(ans2 =~= ans + seq![ok]) by {
                                assert(sink.log().skip(log0.len() as int) =~= p.calls.push(
                                    (slug@, summary@, verdict.evidence@, ok),
                                ));
                            }
                            lemma_plan_answers_extend(init, prefix, apply, ans, seq![ok]);
                            assert(ans2[p.calls.len() as int] == ok);
                        }
                        match res {
                            Ok(()) => {
                                reopened = reopened + 1;
                                state.mark_reported(slug.as_str(), refuted);
                            },
                            Err(e) => {
                                sink_failures.push((slug.clone(), e));
                                assert(failure_slugs(sink_failures@) =~= fbefore.push(slug@));
                            },
                        }
                    }
                    entries.push(
                        ReportEntry {
                            slug,
                            summary,
                            evidence: verdict.evidence.clone(),
                            action: ReportAction::WouldReopen,
                        },
                    );
                }
            },
            WarrantStatus::Proven => {
                if state.contains_key(slug.as_str()) {
                    if apply {
                        state.clear(slug.as_str());
                        auto_closed = auto_closed + 1;
                    }
                    let summary = "verdict now Proven \u{2014} auto-closing slug".to_owned();
                    entries.push(
                        ReportEntry {
                            slug,
                            summary,
                            evidence: verdict.evidence.clone(),
                            action: ReportAction::AutoClosed,
                        },
                    );
                } else {
                    entries.push(
                        ReportEntry {
                            slug,
                            summary: String::new(),
                            evidence: verdict.evidence.clone(),
                            action: ReportAction::NoAction,
                        },
                    );
                }
            },
            _ => {
                entries.push(
                    ReportEntry {
                        slug,
                        summary: String::new(),
                        evidence: verdict.evidence.clone(),
                        action: ReportAction::NoAction,
                    },
                );
            },
        }
        assert(entry_views(entries@) =~= before.push(entries@.last()@));
    }
    assert(vv.take(n as int) =~= vv);
    ReportResult { entries, reopened, auto_closed, sink_failures }
}

// ── Laws of the reporting pass ───────────────────────────────────────────────

/// No slug has both a `Refuted` and a `Proven` verdict in `vs`.
pub open spec fn no_flip_flop(vs: Seq<VerdictView>) -> bool {
    forall|i: int, j: int|
        0 <= i < vs.len() && 0 <= j < vs.len() && #[trigger] vs[i].status == WarrantStatus::Refuted
            && #[trigger] vs[j].status == WarrantStatus::Proven ==> slug_of(vs[i].source)
            != slug_of(vs[j].source)
}

/// Every slug of a `Refuted` verdict of `vs` is recorded as `Refuted` in `m`.
pub open spec fn refuted_recorded(m: Map<Seq<char>, Seq<char>>, vs: Seq<VerdictView>) -> bool {
    forall|i: int|
        0 <= i < vs.len() && #[trigger] vs[i].status == WarrantStatus::Refuted ==> m.contains_key(
            slug_of(vs[i].source),
        ) && m[slug_of(vs[i].source)] == "Refuted"@
}

/// The sink accepted every call that the pass made.
pub open spec fn all_accepted(p: ReportPlan, answers: Seq<bool>) -> bool {
    forall|j: int| 0 <= j < p.calls.len() ==> #[trigger] answers[j]
}

/// The action a verdict gets from the reported state `s` before it.
pub open spec fn action_for(s: Map<Seq<char>, Seq<char>>, v: VerdictView) -> ReportAction {
    let slug = slug_of(v.source);
    match v.status {
        WarrantStatus::Refuted => if s.contains_key(slug) && s[slug] == "Refuted"@ {
            ReportAction::AlreadyReported
        } else {
            ReportAction::WouldReopen
        },
        WarrantStatus::Proven => if s.contains_key(slug) {
            ReportAction::AutoClosed
        } else {
            ReportAction::NoAction
        },
        _ => ReportAction::NoAction,
    }
}

/// Whether a verdict makes a reopen call from the reported state `s`.
pub open spec fn makes_call(s: Map<Seq<char>, Seq<char>>, v: VerdictView, apply: bool) -> bool {
    apply && action_for(s, v) == ReportAction::WouldReopen
}

/// The reported state after a verdict, when the sink accepts its request.
pub open spec fn next_state(s: Map<Seq<char>, Seq<char>>, v: VerdictView, apply: bool) -> Map<Seq<char>, Seq<char>> {
    let slug = slug_of(v.source);
    if !apply {
        s
    } else if action_for(s, v) == ReportAction::WouldReopen {
        s.insert(slug, "Refuted"@)
    } else if action_for(s, v) == ReportAction::AutoClosed {
        s.remove(slug)
    } else {
        s
    }
}

/// The plan over a prefix of the verdicts is a prefix of the plan over all
/// of them: its entries are the first entries, its calls the first calls.
pub proof fn lemma_plan_prefix(
    init: Map<Seq<char>, Seq<char>>,
    vs: Seq<VerdictView>,
    apply: bool,
    answers: Seq<bool>,
    k: int,
)
    requires
        0 <= k <= vs.len(),
    ensures
        report_plan(init, vs.take(k), apply, answers).entries == report_plan(init, vs, apply, answers).entries.take(k),
        report_plan(init, vs.take(k), apply, answers).calls.len() <= report_plan(init, vs, apply, answers).calls.len(),
        report_plan(init, vs.take(k), apply, answers).calls == report_plan(init, vs, apply, answers).calls.take(
            report_plan(init, vs.take(k), apply, answers).calls.len() as int,
        ),
    decreases vs.len(),
{
    if k == vs.len() {
        assert(vs.take(k) =~= vs);
        assert(report_plan(init, vs, apply, answers).entries.take(k) =~= report_plan(init, vs, apply, answers).entries) by {
            lemma_plan_sizes(init, vs, apply, answers);
        }
        assert(report_plan(init, vs, apply, answers).calls.take(report_plan(init, vs, apply, answers).calls.len() as int)
            =~= report_plan(init, vs, apply, answers).calls);
    } else {
        let d = vs.drop_last();
        assert(vs.take(k) =~= d.take(k));
        lemma_plan_prefix(init, d, apply, answers, k);
        lemma_plan_sizes(init, d, apply, answers);
        let p = report_plan(init, d, apply, answers);
        let q = report_plan(init, vs, apply, answers);
        assert(q.entries.take(k) =~= p.entries.take(k));
        let m = report_plan(init, vs.take(k), apply, answers).calls.len() as int;
        assert(q.calls.take(m) =~= p.calls.take(m));
    }
}

/// A reporting pass, verdict by verdict, in the terms of the pass's
/// description: with `S_i` the reported state before verdict `i`, entry `i`
/// carries the verdict's slug, evidence and the action that `S_i` gives it
/// (a `Refuted` entry also its summary); a reopen call with the slug,
/// summary and evidence is made exactly for a new refutation when applying,
/// in verdict order; auto-closes count the `Proven` verdicts of recorded
/// slugs when applying; with a sink that accepts every call the state
/// follows `next_state`; and without applying it stays as it was.
pub proof fn lemma_report_pass_by_index(
    init: Map<Seq<char>, Seq<char>>,
    vs: Seq<VerdictView>,
    apply: bool,
    answers: Seq<bool>,
)
    ensures
        report_plan(init, vs, apply, answers).entries.len() == vs.len(),
        forall|i: int|
            #![trigger vs[i]]
            0 <= i < vs.len() ==> {
                let s = report_plan(init, vs.take(i), apply, answers).state;
                let e = report_plan(init, vs, apply, answers).entries[i];
                &&& e.slug == slug_of(vs[i].source)
                &&& e.evidence == vs[i].evidence
                &&& e.action == action_for(s, vs[i])
                &&& vs[i].status == WarrantStatus::Refuted ==> e.summary == summary_of(vs[i])
            },
        forall|i: int|
            #![trigger vs[i]]
            0 <= i < vs.len() ==> {
                let p = report_plan(init, vs.take(i), apply, answers);
                let q = report_plan(init, vs.take(i + 1), apply, answers);
                &&& q.calls == if makes_call(p.state, vs[i], apply) {
                    p.calls.push(
                        (
                            slug_of(vs[i].source),
                            summary_of(vs[i]),
                            vs[i].evidence,
                            answers[p.calls.len() as int],
                        ),
                    )
                } else {
                    p.calls
                }
                &&& q.auto_closed == p.auto_closed + if apply && action_for(p.state, vs[i])
                    == ReportAction::AutoClosed {
                    1nat
                } else {
                    0nat
                }
                &&& all_accepted(report_plan(init, vs, apply, answers), answers) ==> q.state
                    == next_state(p.state, vs[i], apply)
                &&& !apply ==> q.state == init
            },
        report_plan(init, vs.take(vs.len() as int), apply, answers) == report_plan(init, vs, apply, answers),
{
    lemma_plan_sizes(init, vs, apply, answers);
    assert(vs.take(vs.len() as int) =~= vs);
    let full = report_plan(init, vs, apply, answers);
    assert forall|i: int|
        #![trigger vs[i]]
        0 <= i < vs.len() implies {
            let s = report_plan(init, vs.take(i), apply, answers).state;
            let e = report_plan(init, vs, apply, answers).entries[i];
            &&& e.slug == slug_of(vs[i].source)
            &&& e.evidence == vs[i].evidence
            &&& e.action == action_for(s, vs[i])
            &&& vs[i].status == WarrantStatus::Refuted ==> e.summary == summary_of(vs[i])
        } by {
        assert(vs.take(i + 1).drop_last() =~= vs.take(i));
        assert(vs.take(i + 1).last() == vs[i]);
        lemma_plan_prefix(init, vs, apply, answers, i + 1);
        lemma_plan_sizes(init, vs.take(i), apply, answers);
        let q = report_plan(init, vs.take(i + 1), apply, answers);
        assert(q.entries[i] == full.entries[i]);
    }
    assert forall|i: int|
        #![trigger vs[i]]
        0 <= i < vs.len() implies {
            let p = report_plan(init, vs.take(i), apply, answers);
            let q = report_plan(init, vs.take(i + 1), apply, answers);
            &&& q.calls == if makes_call(p.state, vs[i], apply) {
                p.calls.push(
                    (slug_of(vs[i].source), summary_of(vs[i]), vs[i].evidence, answers[p.calls.len() as int]),
                )
            } else {
                p.calls
            }
            &&& q.auto_closed == p.auto_closed + if apply && action_for(p.state, vs[i])
                == ReportAction::AutoClosed {
                1nat
            } else {
                0nat
            }
            &&& all_accepted(full, answers) ==> q.state == next_state(p.state, vs[i], apply)
            &&& !apply ==> q.state == init
        } by {
        assert(vs.take(i + 1).drop_last() =~= vs.take(i));
        assert(vs.take(i + 1).last() == vs[i]);
        let p = report_plan(init, vs.take(i), apply, answers);
        let q = report_plan(init, vs.take(i + 1), apply, answers);
        lemma_plan_prefix(init, vs, apply, answers, i + 1);
        if !apply {
            lemma_dry_run_changes_nothing(init, vs.take(i + 1), answers);
        }
        if all_accepted(full, answers) && makes_call(p.state, vs[i], apply) {
            assert(answers[p.calls.len() as int]);
        }
    }
}

/// A sink that accepts every call: the pass counts every call as reopened
/// and has no failure.
pub proof fn lemma_accepting_sink(
    init: Map<Seq<char>, Seq<char>>,
    vs: Seq<VerdictView>,
    apply: bool,
    answers: Seq<bool>,
)
    requires
        all_accepted(report_plan(init, vs, apply, answers), answers),
    ensures
        report_plan(init, vs, apply, answers).reopened == report_plan(init, vs, apply, answers).calls.len(),
        report_plan(init, vs, apply, answers).failed.len() == 0,
    decreases vs.len(),
{
    if vs.len() > 0 {
        let p = report_plan(init, vs.drop_last(), apply, answers);
        let q = report_plan(init, vs, apply, answers);
        assert(p.calls.len() <= q.calls.len());
        assert forall|j: int| 0 <= j < p.calls.len() implies #[trigger] answers[j] by {
            assert(answers[j]);
        }
        lemma_accepting_sink(init, vs.drop_last(), apply, answers);
        if q.calls.len() > p.calls.len() {
            assert(answers[p.calls.len() as int]);
        }
    }
}

/// Without flip-flops, an applied pass over a prefix, with every call
/// accepted, records every `Refuted` slug of that prefix as refuted.
proof fn lemma_applied_pass_records(
    init: Map<Seq<char>, Seq<char>>,
    w: Seq<VerdictView>,
    n: int,
    answers: Seq<bool>,
)
    requires
        no_flip_flop(w),
        0 <= n <= w.len(),
        all_accepted(report_plan(init, w.take(n), true, answers), answers),
    ensures
        refuted_recorded(report_plan(init, w.take(n), true, answers).state, w.take(n)),
    decreases n,
{
    if n > 0 {
        assert(w.take(n).drop_last() =~= w.take(n - 1));
        let prevp = report_plan(init, w.take(n - 1), true, answers);
        let curp = report_plan(init, w.take(n), true, answers);
        assert(prevp.calls.len() <= curp.calls.len());
        assert forall|j: int| 0 <= j < prevp.calls.len() implies #[trigger] answers[j] by {
            assert(answers[j]);
        }
        lemma_applied_pass_records(init, w, n - 1, answers);
        let prev = prevp.state;
        let cur = curp.state;
        let v = w[n - 1];
        assert(w.take(n).last() == v);
        if curp.calls.len() > prevp.calls.len() {
            assert(answers[prevp.calls.len() as int]);
        }
        assert forall|i: int|
            0 <= i < n && #[trigger] w.take(n)[i].status == WarrantStatus::Refuted implies cur.contains_key(
            slug_of(w.take(n)[i].source),
        ) && cur[slug_of(w.take(n)[i].source)] == "Refuted"@ by {
            if i < n - 1 {
                assert(w.take(n)[i] == w.take(n - 1)[i]);
                assert(w[i].status == WarrantStatus::Refuted);
                if v.status == WarrantStatus::Proven {
                    assert(slug_of(w[i].source) != slug_of(w[n - 1].source));
                }
            }
        }
    }
}

/// From a state that already records every `Refuted` slug, an applied pass
/// makes no call and keeps those records.
proof fn lemma_quiet_pass(t: Map<Seq<char>, Seq<char>>, w: Seq<VerdictView>, n: int, answers: Seq<bool>)
    requires
        no_flip_flop(w),
        refuted_recorded(t, w),
        0 <= n <= w.len(),
    ensures
        report_plan(t, w.take(n), true, answers).calls.len() == 0,
        refuted_recorded(report_plan(t, w.take(n), true, answers).state, w),
    decreases n,
{
    if n > 0 {
        lemma_quiet_pass(t, w, n - 1, answers);
        assert(w.take(n).drop_last() =~= w.take(n - 1));
        let v = w[n - 1];
        assert(w.take(n).last() == v);
        let prev = report_plan(t, w.take(n - 1), true, answers).state;
        let cur = report_plan(t, w.take(n), true, answers).state;
        if v.status == WarrantStatus::Refuted {
            assert(prev.contains_key(slug_of(w[n - 1].source)));
        }
        assert forall|i: int|
            0 <= i < w.len() && #[trigger] w[i].status == WarrantStatus::Refuted implies cur.contains_key(
            slug_of(w[i].source),
        ) && cur[slug_of(w[i].source)] == "Refuted"@ by {
            assert(prev.contains_key(slug_of(w[i].source)));
            if v.status == WarrantStatus::Proven {
                assert(slug_of(w[i].source) != slug_of(w[n - 1].source));
            }
        }
    }
}

/// Edge-triggering: once a pass has reported every refutation (the sink
/// accepted each call), applying a pass again over the same verdicts, from
/// the state the first pass left, makes no reopen call, provided no slug
/// has both a `Refuted` and a `Proven` verdict among them.
pub proof fn lemma_second_pass_reopens_nothing(
    init: Map<Seq<char>, Seq<char>>,
    vs: Seq<VerdictView>,
    first: Seq<bool>,
    second: Seq<bool>,
)
    requires
        no_flip_flop(vs),
        all_accepted(report_plan(init, vs, true, first), first),
    ensures
        report_plan(report_plan(init, vs, true, first).state, vs, true, second).calls.len() == 0,
{
    assert(vs.take(vs.len() as int) =~= vs);
    lemma_applied_pass_records(init, vs, vs.len() as int, first);
    lemma_quiet_pass(report_plan(init, vs, true, first).state, vs, vs.len() as int, second);
}

/// A print-only pass leaves the reported state as it was, makes no reopen
/// call and closes nothing.
pub proof fn lemma_dry_run_changes_nothing(init: Map<Seq<char>, Seq<char>>, vs: Seq<VerdictView>, answers: Seq<bool>)
    ensures
        report_plan(init, vs, false, answers).state == init,
        report_plan(init, vs, false, answers).calls.len() == 0,
        report_plan(init, vs, false, answers).reopened == 0,
        report_plan(init, vs, false, answers).auto_closed == 0,
    decreases vs.len(),
{
    if vs.len() > 0 {
        lemma_dry_run_changes_nothing(init, vs.drop_last(), answers);
    }
}

/// Only `Refuted` verdicts make reopen calls: a pass over verdicts none of
/// which is `Refuted` makes none.
pub proof fn lemma_only_refuted_reopens(
    init: Map<Seq<char>, Seq<char>>,
    vs: Seq<VerdictView>,
    apply: bool,
    answers: Seq<bool>,
)
    requires
        forall|i: int| 0 <= i < vs.len() ==> #[trigger] vs[i].status != WarrantStatus::Refuted,
    ensures
        report_plan(init, vs, apply, answers).calls.len() == 0,
    decreases vs.len(),
{
    if vs.len() > 0 {
        assert forall|i: int| 0 <= i < vs.drop_last().len() implies #[trigger] vs.drop_last()[i].status
            != WarrantStatus::Refuted by {
            assert(vs.drop_last()[i] == vs[i]);
        }
        lemma_only_refuted_reopens(init, vs.drop_last(), apply, answers);
        assert(vs.last() == vs[vs.len() - 1]);
    }
}

/// A `Refuted` verdict whose slug is not yet recorded as refuted makes
/// exactly one reopen call, with its slug, summary and evidence; accepted,
/// it is counted and recorded.
pub proof fn lemma_new_refutation_reopens_once(init: Map<Seq<char>, Seq<char>>, v: VerdictView)
    requires
        v.status == WarrantStatus::Refuted,
        !(init.contains_key(slug_of(v.source)) && init[slug_of(v.source)] == "Refuted"@),
    ensures
        report_plan(init, seq![v], true, seq![true]).calls == seq![
            (slug_of(v.source), summary_of(v), v.evidence, true),
        ],
        report_plan(init, seq![v], true, seq![true]).reopened == 1,
        report_plan(init, seq![v], true, seq![true]).state == init.insert(slug_of(v.source), "Refuted"@),
        report_plan(init, seq![v], true, seq![true]).entries[0].action == ReportAction::WouldReopen,
{
    reveal_with_fuel(report_plan, 2);
    assert(seq![v].drop_last() =~= Seq::<VerdictView>::empty());
    assert(seq![v].last() == v);
    assert(Seq::<SinkCall>::empty().push((slug_of(v.source), summary_of(v), v.evidence, true))
        =~= seq![(slug_of(v.source), summary_of(v), v.evidence, true)]);
}

/// A reopen call that the sink refuses is not recorded: the state is left
/// as it was, the slug is listed as failed, and the next applied pass calls
/// the sink for it again.
pub proof fn lemma_refused_reopen_is_retried(
    init: Map<Seq<char>, Seq<char>>,
    v: VerdictView,
    second: Seq<bool>,
)
    requires
        v.status == WarrantStatus::Refuted,
        !(init.contains_key(slug_of(v.source)) && init[slug_of(v.source)] == "Refuted"@),
    ensures
        report_plan(init, seq![v], true, seq![false]).state == init,
        report_plan(init, seq![v], true, seq![false]).reopened == 0,
        report_plan(init, seq![v], true, seq![false]).failed == seq![slug_of(v.source)],
        report_plan(report_plan(init, seq![v], true, seq![false]).state, seq![v], true, second).calls.len()
            == 1,
        report_plan(report_plan(init, seq![v], true, seq![false]).state, seq![v], true, second).entries[0].action
            == ReportAction::WouldReopen,
{
    reveal_with_fuel(report_plan, 2);
    assert(seq![v].drop_last() =~= Seq::<VerdictView>::empty());
    assert(seq![v].last() == v);
    assert(Seq::<Seq<char>>::empty().push(slug_of(v.source)) =~= seq![slug_of(v.source)]);
}

/// Auto-close: once a refutation has been reported, a `Proven` verdict for
/// the same slug closes it and clears the slug from the state.
pub proof fn lemma_proven_after_refuted_auto_closes(
    init: Map<Seq<char>, Seq<char>>,
    r: VerdictView,
    p: VerdictView,
    second: Seq<bool>,
)
    requires
        r.status == WarrantStatus::Refuted,
        p.status == WarrantStatus::Proven,
        slug_of(r.source) == slug_of(p.source),
    ensures
        ({
            let after = report_plan(
                report_plan(init, seq![r], true, seq![true]).state,
                seq![p],
                true,
                second,
            );
            &&& after.auto_closed == 1
            &&& !after.state.contains_key(slug_of(p.source))
            &&& after.entries[0].action == ReportAction::AutoClosed
            &&& after.calls.len() == 0
        }),
{
    reveal_with_fuel(report_plan, 2);
    assert(seq![r].drop_last() =~= Seq::<VerdictView>::empty());
    assert(seq![r].last() == r);
    assert(seq![p].drop_last() =~= Seq::<VerdictView>::empty());
    assert(seq![p].last() == p);
}

} // verus!
