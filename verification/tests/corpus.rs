//! Classifier tests over the close-note corpus.

use warrant::classifier::{
    classify, classify_one, first_close_date, first_mechanism_line, lowered_lines, outcome_after_status,
};
use warrant::model::{ClaimKind, ClaimKindTally, CloseRef};
use warrant::source::{CloseSource, FakeSource, RawClose};

/// CloseSource that panics if `close_notes` is ever called.
struct PanicSource;

impl CloseSource for PanicSource {
    fn close_notes(&self) -> Result<Vec<RawClose>, String> {
        panic!("classify must not call CloseSource::close_notes — it is pure");
    }
}

fn prd(path: &str) -> CloseRef {
    CloseRef::Prd(path.to_string())
}

#[test]
fn classify_is_pure_no_source_calls() {
    let _panic_source = PanicSource;
    let notes: Vec<RawClose> = vec![RawClose {
        reference: prd("test/example.md"),
        text: "Status: Closed (2026-01-01)\n\nAll ACs verified.\n".to_string(),
    }];
    let plan = classify(&notes);
    assert_eq!(plan.claims.len(), 1);
    assert_eq!(plan.claims[0].kind, ClaimKind::AcsMet);
}

#[test]
fn session_end_resilient_classified_as_mechanism_asserted() {
    let note = RawClose {
        reference: prd("PRDs-archive/PRD-ctrace-session-end-resilient.md"),
        text: "Status: Closed (2026-06-02) — outcome achieved live by a different mechanism\n\nThe ctrace-reap.timer now handles orphaned session logs. The reaper's\n`render_log` step summarizes any orphaned `*.ndjson` that session.bt left\nbehind. The mechanism: ctrace-orphan-reap backfills summaries on a schedule.\n"
        .to_string(),
    };

    let plan = classify(std::slice::from_ref(&note));
    assert_eq!(plan.claims.len(), 1);
    let claim = &plan.claims[0];
    assert_eq!(
        claim.kind,
        ClaimKind::MechanismAsserted,
        "session-end-resilient must be classified MechanismAsserted"
    );
    assert!(
        claim.mechanism_text.is_some(),
        "mechanism_text must be captured for MechanismAsserted"
    );
    let mech = claim.mechanism_text.as_deref().unwrap_or("");
    assert!(
        mech.to_lowercase().contains("mechanism") || mech.to_lowercase().contains("achieved"),
        "mechanism_text should reference the mechanism signal, got: {mech:?}"
    );
    assert_eq!(plan.tally.mechanism_asserted, 1);
}

#[test]
fn agentns_wrap_classified_as_superseded() {
    let note = RawClose {
        reference: prd("PRDs-archive/PRD-agentns-wrap.md"),
        text: "Status: Closed (2026-06-06) — superseded by PRD-agentns-prctl.md\n\nThe agentns-wrap approach (CLONE_NEWAGENT=0x100 collision with CLONE_VM)\nis futile. The correct fix is the prctl path defined in the new PRD.\n"
        .to_string(),
    };

    let plan = classify(std::slice::from_ref(&note));
    assert_eq!(plan.claims.len(), 1);
    let claim = &plan.claims[0];
    assert_eq!(
        claim.kind,
        ClaimKind::Superseded,
        "agentns-wrap must be classified Superseded"
    );
    assert_eq!(plan.tally.superseded, 1);
}

#[test]
fn tally_total_sums_all_kinds() {
    let mut t = ClaimKindTally::default();
    t.increment(ClaimKind::AcsMet);
    t.increment(ClaimKind::MechanismAsserted);
    t.increment(ClaimKind::MechanismAsserted);
    t.increment(ClaimKind::Superseded);
    t.increment(ClaimKind::LiveDeferred);
    t.increment(ClaimKind::Unclassified);
    assert_eq!(t.total(), 6);
    assert_eq!(t.acs_met, 1);
    assert_eq!(t.mechanism_asserted, 2);
}

#[test]
fn close_date_is_extracted() {
    let note = RawClose {
        reference: prd("test/dated.md"),
        text: "Status: Closed (2026-03-15)\n\nAll ACs met.\n".to_string(),
    };
    let plan = classify(std::slice::from_ref(&note));
    assert_eq!(
        plan.claims[0].close_date.as_deref(),
        Some("2026-03-15"),
        "close_date must be extracted from the Status line"
    );
}

#[test]
fn live_deferred_classification() {
    let note = RawClose {
        reference: prd("test/deferred.md"),
        text: "Status: Closed (2026-04-01)\n\ndeferred_acs: [3,4]\n\nPartial close.\n".to_string(),
    };
    let plan = classify(std::slice::from_ref(&note));
    assert_eq!(plan.claims[0].kind, ClaimKind::LiveDeferred);
    assert_eq!(plan.tally.live_deferred, 1);
}

#[test]
fn unclassified_when_no_status_line() {
    let note = RawClose {
        reference: prd("test/noheader.md"),
        text: "Some random prose with no status line at all.\n".to_string(),
    };
    let plan = classify(std::slice::from_ref(&note));
    assert_eq!(plan.claims[0].kind, ClaimKind::Unclassified);
    assert_eq!(plan.tally.unclassified, 1);
}

// ── Further cases ────────────────────────────────────────────────────────────

#[test]
fn illustrative_fixtures_classify_and_tally() {
    let source = FakeSource::with_illustrative_fixtures();
    let notes = source.close_notes().expect("FakeSource::close_notes must not fail");
    assert_eq!(notes.len(), 3);
    let plan = classify(&notes);
    let kinds: Vec<ClaimKind> = plan.claims.iter().map(|c| c.kind).collect();
    assert_eq!(
        kinds,
        vec![ClaimKind::MechanismAsserted, ClaimKind::Superseded, ClaimKind::AcsMet]
    );
    assert_eq!(plan.tally.total(), 3);
    assert_eq!(plan.tally.mechanism_asserted, 1);
    assert_eq!(plan.tally.superseded, 1);
    assert_eq!(plan.tally.acs_met, 1);
    assert_eq!(plan.claims[1].close_date.as_deref(), Some("2026-06-06"));
}

#[test]
fn mechanism_text_is_first_signal_line_trimmed() {
    let note = RawClose {
        reference: prd("x.md"),
        text: "Status: Closed (2026-06-02)\n\n   Delivered by the reaper timer.  \nmechanism: other\n"
            .to_string(),
    };
    let claim = classify_one(&note);
    assert_eq!(claim.kind, ClaimKind::MechanismAsserted);
    assert_eq!(
        claim.mechanism_text.as_deref(),
        Some("Delivered by the reaper timer.")
    );
    assert_eq!(claim.outcome_text.as_deref(), Some("Delivered by the reaper timer."));
    assert_eq!(claim.raw_excerpt, note.text);
    assert_eq!(claim.source, note.reference);
}

#[test]
fn mechanism_wins_over_superseded() {
    let note = RawClose {
        reference: prd("x.md"),
        text: "Status: Closed — superseded by PRD-y, outcome achieved\n".to_string(),
    };
    assert_eq!(classify_one(&note).kind, ClaimKind::MechanismAsserted);
}

#[test]
fn superseded_wins_over_deferred() {
    let note = RawClose {
        reference: prd("x.md"),
        text: "Status: Closed\nreplaced by PRD-z\ndeferred_acs: [1]\n".to_string(),
    };
    let claim = classify_one(&note);
    assert_eq!(claim.kind, ClaimKind::Superseded);
    assert!(claim.mechanism_text.is_none());
}

#[test]
fn uppercase_signals_are_matched() {
    let note = RawClose {
        reference: CloseRef::Docket("dk-1".to_string()),
        text: "STATUS: CLOSED (2026-05-05)\nOUTCOME ACHIEVED elsewhere\n".to_string(),
    };
    let claim = classify_one(&note);
    assert_eq!(claim.kind, ClaimKind::MechanismAsserted);
    assert_eq!(claim.close_date.as_deref(), Some("2026-05-05"));
}

#[test]
fn close_date_requires_iso_shape() {
    let bad = RawClose {
        reference: prd("x.md"),
        text: "Status: Closed (June 2026)\n".to_string(),
    };
    assert_eq!(classify_one(&bad).close_date, None);
    let later = RawClose {
        reference: prd("x.md"),
        text: "Status: Closed (soon)\nStatus: closed (2026-01-02) again\n".to_string(),
    };
    assert_eq!(classify_one(&later).close_date.as_deref(), Some("2026-01-02"));
    let no_paren = RawClose {
        reference: prd("x.md"),
        text: "Status: Closed 2026-01-02\n".to_string(),
    };
    assert_eq!(classify_one(&no_paren).close_date, None);
}

#[test]
fn outcome_text_is_first_nonblank_line_after_status() {
    let note = RawClose {
        reference: prd("x.md"),
        text: "preamble\r\nStatus: Draft\r\n\r\n  The thing shipped.\r\n".to_string(),
    };
    let claim = classify_one(&note);
    assert_eq!(claim.outcome_text.as_deref(), Some("The thing shipped."));
    assert_eq!(claim.kind, ClaimKind::Unclassified);
}

#[test]
fn empty_corpus_gives_empty_plan() {
    let plan = classify(&[]);
    assert!(plan.claims.is_empty());
    assert_eq!(plan.tally, ClaimKindTally::default());
    assert_eq!(plan.tally.total(), 0);
}

#[test]
fn fake_source_new_keeps_notes() {
    let notes = vec![RawClose {
        reference: prd("a.md"),
        text: "t".to_string(),
    }];
    let s = FakeSource::new(notes.clone());
    assert_eq!(s.close_notes().expect("ok"), notes);
}

#[test]
fn claim_kind_names() {
    assert_eq!(ClaimKind::AcsMet.name(), "AcsMet");
    assert_eq!(ClaimKind::MechanismAsserted.name(), "MechanismAsserted");
    assert_eq!(ClaimKind::LiveDeferred.name(), "LiveDeferred");
    assert_eq!(CloseRef::Docket("d-9".to_string()).display_string(), "d-9");
    assert_eq!(prd("a/b.md").display_string(), "a/b.md");
}

fn pair(line: &str, low: &str) -> (String, String) {
    (line.to_string(), low.to_string())
}

#[test]
fn steps_on_lowercased_lines() {
    let lines = vec![
        pair("Status: Closed (soon)", "status: closed (soon)"),
        pair("", ""),
        pair("  Delivered BY the timer  ", "  delivered by the timer  "),
    ];
    assert_eq!(first_mechanism_line(&lines), Some("Delivered BY the timer".to_string()));
    assert_eq!(first_close_date(&lines), None);
    assert_eq!(outcome_after_status(&lines), Some("Delivered BY the timer".to_string()));

    let flush = vec![pair("Status: Closed (2026-05-04)", "status: closed (2026-05-04)")];
    assert_eq!(first_close_date(&flush), Some("2026-05-04".to_string()));
    assert_eq!(outcome_after_status(&flush), None);

    // A status line that does not start the line is not one.
    let indented = vec![
        pair("  Status: Closed (2026-05-04)", "  status: closed (2026-05-04)"),
        pair("text", "text"),
    ];
    assert_eq!(first_close_date(&indented), None);
    assert_eq!(outcome_after_status(&indented), None);

    // Each step reads the lowercase form it is given, not the line itself.
    let given = vec![pair("Plain line", "mechanism: given")];
    assert_eq!(first_mechanism_line(&given), Some("Plain line".to_string()));
    assert_eq!(first_mechanism_line(&[pair("mechanism: x", "plain")]), None);

    assert_eq!(
        lowered_lines("Status: CLOSED\r\nNext"),
        vec![pair("Status: CLOSED", "status: closed"), pair("Next", "next")]
    );
}
