//! Reporting passes: reopen requests, edge-triggering, auto-close, dry runs.

use warrant::docket::{DocketSink, FakeDocketSink, ReportedState};
use warrant::model::{ClaimKind, CloseRef, WarrantStatus, WarrantVerdict};
use warrant::reporter::{report_verdicts, slug_for, summary_for, ReportAction};

fn refuted_verdict(source_basename: &str) -> WarrantVerdict {
    WarrantVerdict {
        source: CloseRef::Prd(format!("PRDs-archive/{source_basename}")),
        kind: ClaimKind::MechanismAsserted,
        status: WarrantStatus::Refuted,
        evidence: format!("test evidence for {source_basename}"),
    }
}

fn proven_verdict(source_basename: &str) -> WarrantVerdict {
    WarrantVerdict {
        source: CloseRef::Prd(format!("PRDs-archive/{source_basename}")),
        kind: ClaimKind::MechanismAsserted,
        status: WarrantStatus::Proven,
        evidence: format!("test evidence proven for {source_basename}"),
    }
}

#[test]
fn refuted_verdict_reopens_once_with_apply() {
    let mut state = ReportedState::new();
    let mut sink = FakeDocketSink::new();
    let verdicts = vec![refuted_verdict("PRD-ctrace-session-end-resilient.md")];

    let result = report_verdicts(&verdicts, &mut state, &mut sink, /*apply=*/ true);

    let calls = sink.recorded_calls();
    assert_eq!(calls.len(), 1, "Refuted verdict must produce exactly one reopen call");
    let (slug, _summary, evidence) = calls.first().expect("one call");
    assert!(
        slug.contains("ctrace-session-end-resilient"),
        "slug must reference the source basename, got: {slug}"
    );
    assert!(
        evidence.contains("ctrace-session-end-resilient"),
        "evidence must be passed through, got: {evidence}"
    );
    assert_eq!(result.reopened, 1);
}

#[test]
fn proven_verdict_produces_no_reopen_call() {
    let mut state = ReportedState::new();
    let mut sink = FakeDocketSink::new();
    let verdicts = vec![proven_verdict("PRD-some-thing.md")];

    let result = report_verdicts(&verdicts, &mut state, &mut sink, /*apply=*/ true);

    let calls = sink.recorded_calls();
    assert!(
        calls.is_empty(),
        "Proven verdict must produce zero reopen calls, got: {calls:?}"
    );
    assert_eq!(result.reopened, 0);
}

#[test]
fn second_apply_over_same_refuted_is_noop() {
    let mut state = ReportedState::new();
    let mut sink = FakeDocketSink::new();
    let verdicts = vec![refuted_verdict("PRD-ctrace-session-end-resilient.md")];

    let r1 = report_verdicts(&verdicts, &mut state, &mut sink, true);
    assert_eq!(r1.reopened, 1);

    let r2 = report_verdicts(&verdicts, &mut state, &mut sink, true);
    assert_eq!(r2.reopened, 0, "second run must be a no-op (edge-triggered)");

    let calls = sink.recorded_calls();
    assert_eq!(calls.len(), 1, "reopen must be called exactly once across two runs");

    let entry = r2.entries.first().expect("entry");
    assert_eq!(
        entry.action,
        ReportAction::AlreadyReported,
        "second run must mark entry AlreadyReported"
    );
}

#[test]
fn proven_after_refuted_clears_slug() {
    let mut state = ReportedState::new();
    let mut sink = FakeDocketSink::new();

    let verdicts_refuted = vec![refuted_verdict("PRD-ctrace-session-end-resilient.md")];
    let r1 = report_verdicts(&verdicts_refuted, &mut state, &mut sink, true);
    assert_eq!(r1.reopened, 1);

    let mut sink2 = FakeDocketSink::new();
    let verdicts_proven = vec![proven_verdict("PRD-ctrace-session-end-resilient.md")];
    let r2 = report_verdicts(&verdicts_proven, &mut state, &mut sink2, true);

    assert_eq!(r2.auto_closed, 1, "auto-close must fire when Proven after Refuted");
    let entry = r2.entries.first().expect("entry");
    assert_eq!(entry.action, ReportAction::AutoClosed, "entry must be marked AutoClosed");

    let slug = "warrant:PRD-ctrace-session-end-resilient";
    assert!(
        !state.contains_key(slug),
        "slug must be cleared from state after auto-close"
    );
}

/// A sink that always errors.
struct ErrorSink;

impl DocketSink for ErrorSink {
    fn reopen(&mut self, _slug: &str, _summary: &str, _evidence: &str) -> Result<(), String> {
        Err("simulated docket sink unavailable".to_string())
    }
}

#[test]
fn fail_open_with_erroring_sink_exits_ok() {
    let mut state = ReportedState::new();
    let mut sink = ErrorSink;
    let verdicts = vec![refuted_verdict("PRD-ctrace-session-end-resilient.md")];

    let result = report_verdicts(&verdicts, &mut state, &mut sink, /*apply=*/ true);
    assert_eq!(result.reopened, 0);
    assert_eq!(
        result.sink_failures,
        vec![(
            "warrant:PRD-ctrace-session-end-resilient".to_string(),
            "simulated docket sink unavailable".to_string()
        )]
    );
    assert_eq!(result.entries[0].action, ReportAction::WouldReopen);
    assert!(!state.contains_key("warrant:PRD-ctrace-session-end-resilient"));
}

#[test]
fn refused_reopen_is_retried_on_next_pass() {
    let mut state = ReportedState::new();
    let verdicts = vec![refuted_verdict("PRD-ctrace-session-end-resilient.md")];

    let mut failing = ErrorSink;
    let r1 = report_verdicts(&verdicts, &mut state, &mut failing, true);
    assert_eq!(r1.reopened, 0);
    assert_eq!(r1.sink_failures.len(), 1);

    let mut sink = FakeDocketSink::new();
    let r2 = report_verdicts(&verdicts, &mut state, &mut sink, true);
    assert_eq!(r2.reopened, 1);
    assert!(r2.sink_failures.is_empty());
    assert_eq!(r2.entries[0].action, ReportAction::WouldReopen);
    let calls = sink.recorded_calls();
    assert_eq!(calls.len(), 1);
    assert_eq!(calls[0].0, "warrant:PRD-ctrace-session-end-resilient");
    assert_eq!(
        calls[0].1,
        "close \"PRD-ctrace-session-end-resilient.md\" claims mechanism delivered; assertion shows it is not (MechanismAsserted)"
    );
    assert_eq!(calls[0].2, "test evidence for PRD-ctrace-session-end-resilient.md");
    assert!(state.already_reported("warrant:PRD-ctrace-session-end-resilient", "Refuted"));
}

#[test]
fn print_only_without_apply_produces_zero_reopen_calls() {
    let mut state = ReportedState::new();
    let mut sink = FakeDocketSink::new();
    let verdicts = vec![
        refuted_verdict("PRD-ctrace-session-end-resilient.md"),
        refuted_verdict("PRD-another-thing.md"),
    ];

    let result = report_verdicts(&verdicts, &mut state, &mut sink, /*apply=*/ false);

    let calls = sink.recorded_calls();
    assert!(
        calls.is_empty(),
        "print-only mode must produce zero reopen calls on FakeDocketSink, got: {calls:?}"
    );
    assert_eq!(result.reopened, 0);

    for entry in &result.entries {
        assert_eq!(entry.action, ReportAction::WouldReopen, "print-only entries must be WouldReopen");
    }
    assert!(state.entries().is_empty());
}

// ── Further cases ────────────────────────────────────────────────────────────

#[test]
fn slugs_and_summaries() {
    assert_eq!(
        slug_for(&CloseRef::Prd("PRDs-archive/PRD-x.md".to_string())),
        "warrant:PRD-x"
    );
    assert_eq!(slug_for(&CloseRef::Prd("/a/.hidden".to_string())), "warrant:.hidden");
    assert_eq!(slug_for(&CloseRef::Prd("/a/..".to_string())), "warrant:unknown");
    assert_eq!(slug_for(&CloseRef::Docket("dk-3".to_string())), "warrant:dk-3");
    assert_eq!(
        summary_for(&refuted_verdict("PRD-x.md")),
        "close \"PRD-x.md\" claims mechanism delivered; assertion shows it is not (MechanismAsserted)"
    );
}

#[test]
fn fake_sink_records_arguments() {
    let mut sink = FakeDocketSink::new();
    assert!(sink.reopen("s", "sum", "ev").is_ok());
    assert_eq!(
        sink.recorded_calls(),
        vec![("s".to_string(), "sum".to_string(), "ev".to_string())]
    );
}

#[test]
fn reported_state_read_after_write() {
    let mut state = ReportedState::new();
    assert!(!state.already_reported("a", "Refuted"));
    state.mark_reported("a", "Refuted");
    state.mark_reported("b", "Refuted");
    assert!(state.already_reported("a", "Refuted"));
    assert!(!state.already_reported("a", "Proven"));
    state.mark_reported("a", "Proven");
    assert_eq!(state.status_of("a"), Some("Proven".to_string()));
    state.clear("a");
    assert!(!state.contains_key("a"));
    assert!(state.contains_key("b"));
    assert_eq!(state.entries(), vec![("b".to_string(), "Refuted".to_string())]);
}

#[test]
fn other_statuses_take_no_action() {
    let mut state = ReportedState::new();
    let mut sink = FakeDocketSink::new();
    let mut v = refuted_verdict("PRD-q.md");
    v.status = WarrantStatus::Unwarranted;
    let r = report_verdicts(&[v], &mut state, &mut sink, true);
    assert_eq!(r.entries[0].action, ReportAction::NoAction);
    assert_eq!(r.entries[0].summary, "");
    assert!(sink.recorded_calls().is_empty());
}
