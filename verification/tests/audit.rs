//! Registry checks, assertion verdicts and audit passes.

use warrant::archive::{closed_notes, is_markdown};
use warrant::model::{AssertionSpec, ClaimKind, CloseRef, WarrantStatus};
use warrant::registry::{validate_command, RegistryError, RegistryLoader, WarrantEntry, WarrantRegistry};
use warrant::runner::{audit_probes, run_audit, run_audit_checked, run_one, AuditTally, Observation, StatusFilter};
use warrant::source::RawClose;

const SESSION_END: &str = "# PRD: ctrace-session-end-resilient\n\nStatus: Closed (2026-06-02) — outcome achieved live by a different mechanism\n\nThe ctrace-reap.timer now handles orphaned session logs. The reaper's\n`render_log` step summarizes any orphaned `*.ndjson` that session.bt left\nbehind. The mechanism: ctrace-orphan-reap backfills summaries on a schedule.\n";

fn fixture_notes() -> Vec<RawClose> {
    closed_notes(&vec![(
        "/archive/PRD-ctrace-session-end-resilient.md".to_string(),
        SESSION_END.to_string(),
    )])
}

fn entry(source: &str, assertion: AssertionSpec) -> WarrantEntry {
    WarrantEntry { source: source.to_string(), assertion }
}

fn command(cmd: &str) -> WarrantRegistry {
    WarrantRegistry {
        entries: vec![entry(
            "PRD-some-thing.md",
            AssertionSpec::CommandExit { cmd: cmd.to_string(), expect_code: 0 },
        )],
    }
}

#[test]
fn fs_docket_source_reads_closed_prd() {
    let notes = fixture_notes();
    assert_eq!(notes.len(), 1, "should read one closed PRD");
    let note = notes.first().expect("one note");
    assert!(note.text.contains("Status: Closed"), "note must contain Status: Closed");
}

#[test]
fn fs_docket_source_absent_archive_returns_empty() {
    // An absent archive lists no files, and no files contribute zero rows.
    let notes = closed_notes(&Vec::new());
    assert!(notes.is_empty(), "absent archive must return zero rows");
}

#[test]
fn fs_docket_source_skips_non_closed_prds() {
    let notes = closed_notes(&vec![(
        "/archive/PRD-open-thing.md".to_string(),
        "# PRD: open-thing\n\nStatus: Draft v0.1\n\nSome content.\n".to_string(),
    )]);
    assert!(notes.is_empty(), "non-closed PRD must be skipped");
}

#[test]
fn fixture_registry_with_grep_absent_produces_refuted() {
    let registry = WarrantRegistry {
        entries: vec![entry(
            "PRD-ctrace-session-end-resilient.md",
            AssertionSpec::GrepAbsent {
                path: "/scripts/ctrace-session-end.sh".to_string(),
                pattern: "scribe".to_string(),
            },
        )],
    };
    RegistryLoader::validate(&registry).expect("parse registry");
    let notes = fixture_notes();
    let probes = audit_probes(&notes, &registry);
    assert!(probes[0].is_some());
    // The script exists but does not contain "scribe" (old path still in use).
    let obs = vec![Some(Observation::Read(
        "#!/bin/bash\n# Session end handler\nbash summarize-ctrace-session.sh\n".to_string(),
    ))];
    let result = run_audit(&notes, &registry, &obs, StatusFilter::All);
    assert_eq!(result.verdicts.len(), 1);
    let v = result.verdicts.first().expect("one verdict");
    assert_eq!(
        v.status,
        WarrantStatus::Proven,
        "scribe absent from script → GrepAbsent holds (Proven that old mechanism persists)"
    );
    assert_eq!(v.kind, ClaimKind::MechanismAsserted);
}

#[test]
fn command_exit_with_apply_flag_rejected() {
    let result = RegistryLoader::validate(&command("ctrace-orphan-reap --apply"));
    assert!(result.is_err(), "CommandExit with --apply must be rejected at load");
    let err = result.err().expect("error");
    let msg = err.message();
    assert!(
        msg.contains("mutating") || msg.contains("--apply"),
        "error message must mention mutating or --apply, got: {msg}"
    );
}

#[test]
fn command_exit_with_rm_rejected() {
    let result = RegistryLoader::validate(&command("ls /tmp && rm /tmp/test.txt"));
    assert!(result.is_err(), "CommandExit with rm must be rejected");
}

#[test]
fn command_exit_without_mutating_verbs_accepted() {
    let result = RegistryLoader::validate(&command("ls /tmp"));
    assert!(result.is_ok(), "safe CommandExit must be accepted");
}

#[test]
fn absent_from_registry_resolves_unwarranted_not_unproven() {
    let registry = WarrantRegistry::default();
    let notes = fixture_notes();
    let probes = audit_probes(&notes, &registry);
    assert!(probes[0].is_none());
    let result = run_audit(&notes, &registry, &[None], StatusFilter::All);
    assert_eq!(result.verdicts.len(), 1);
    let v = result.verdicts.first().expect("verdict");
    assert_eq!(
        v.status,
        WarrantStatus::Unwarranted,
        "close absent from registry must be Unwarranted, not Unproven"
    );
    assert_eq!(
        v.evidence,
        "no warrant registered for PRD-ctrace-session-end-resilient.md"
    );
}

#[test]
fn status_refuted_filter_hides_unwarranted() {
    let registry = WarrantRegistry::default();
    let notes = fixture_notes();
    let result = run_audit(&notes, &registry, &[None], StatusFilter::Refuted);
    assert!(result.verdicts.is_empty(), "--status refuted must hide Unwarranted verdicts");
    assert_eq!(result.tally.unwarranted, 1);
    assert_eq!(result.tally.total(), 1);
}

#[test]
fn broken_warrant_plus_good_warrant_both_get_verdicts() {
    let notes = closed_notes(&vec![
        (
            "/a/PRD-broken-one.md".to_string(),
            "Status: Closed (2026-01-01) — outcome achieved live by a different mechanism\nBroken.\n"
                .to_string(),
        ),
        (
            "/a/PRD-good-one.md".to_string(),
            "Status: Closed (2026-02-01) — outcome achieved live by a different mechanism\nGood.\n"
                .to_string(),
        ),
    ]);
    let registry = WarrantRegistry {
        entries: vec![
            entry(
                "PRD-broken-one.md",
                AssertionSpec::FileExists {
                    path: "/nonexistent/path/that/does/not/exist/for/testing".to_string(),
                },
            ),
            entry("PRD-good-one.md", AssertionSpec::FileExists { path: "/tmp".to_string() }),
        ],
    };
    let obs = vec![Some(Observation::Exists(false)), Some(Observation::Exists(true))];
    let result = run_audit(&notes, &registry, &obs, StatusFilter::All);
    assert_eq!(result.verdicts.len(), 2, "both PRDs must get a verdict (non-fatal failure)");
    let broken = result
        .verdicts
        .iter()
        .find(|v| v.source.display_string().contains("PRD-broken-one"))
        .expect("broken verdict");
    assert_eq!(broken.status, WarrantStatus::Refuted, "absent file → FileExists Refuted");
    let good = result
        .verdicts
        .iter()
        .find(|v| v.source.display_string().contains("PRD-good-one"))
        .expect("good verdict");
    assert_eq!(good.status, WarrantStatus::Proven, "/tmp exists → FileExists Proven");
}

// ── Further cases ────────────────────────────────────────────────────────────

#[test]
fn validate_command_messages() {
    assert_eq!(
        validate_command("  rm -rf x"),
        Err("CommandExit cmd \"  rm -rf x\" contains mutating verb 'rm'".to_string())
    );
    assert_eq!(
        validate_command("rm"),
        Err("CommandExit cmd \"rm\" contains mutating verb 'rm'".to_string())
    );
    assert_eq!(
        validate_command("echo hi > f"),
        Err("CommandExit cmd \"echo hi > f\" contains mutating verb \">\"".to_string())
    );
    assert_eq!(
        validate_command("a\nrm b"),
        Err("CommandExit cmd \"a\\nrm b\" contains mutating verb \"\\nrm \"".to_string())
    );
    assert_eq!(validate_command("grep -c x file"), Ok(()));
    assert_eq!(validate_command("rmdir_listing"), Ok(()));
    assert_eq!(
        validate_command("ls /tmp/old | xargs rm"),
        Err("CommandExit cmd \"ls /tmp/old | xargs rm\" contains mutating verb 'rm'".to_string())
    );
    assert_eq!(
        validate_command("find . -name x\t rm\tfoo"),
        Err("CommandExit cmd \"find . -name x\\t rm\\tfoo\" contains mutating verb 'rm'".to_string())
    );
    assert_eq!(validate_command("echo firmware"), Ok(()));
}

#[test]
fn registry_error_messages() {
    assert_eq!(RegistryError::Io("gone".to_string()).message(), "registry I/O error: gone");
    assert_eq!(RegistryError::Parse("bad".to_string()).message(), "registry parse error: bad");
    let err = RegistryLoader::validate(&command("sudo ls")).err().expect("refused");
    assert_eq!(
        err.message(),
        "registry safety error: CommandExit cmd \"sudo ls\" contains mutating verb \"sudo\""
    );
}

#[test]
fn find_is_case_insensitive_and_first_wins() {
    let registry = WarrantRegistry {
        entries: vec![
            entry("PRD-A.md", AssertionSpec::FileExists { path: "/one".to_string() }),
            entry("prd-a.MD", AssertionSpec::FileExists { path: "/two".to_string() }),
        ],
    };
    let found = registry.find("prd-a.md").expect("found");
    assert_eq!(found.assertion, AssertionSpec::FileExists { path: "/one".to_string() });
    assert!(registry.find("prd-b.md").is_none());
}

#[test]
fn seed_registry_names_the_session_end_warrant() {
    let seed = RegistryLoader::seed_toml();
    assert!(seed.contains("PRD-ctrace-session-end-resilient.md"));
    assert!(seed.contains("grep_absent"));
}

fn src() -> CloseRef {
    CloseRef::Prd("PRDs-archive/PRD-x.md".to_string())
}

#[test]
fn command_exit_verdicts() {
    let spec = AssertionSpec::CommandExit { cmd: "true".to_string(), expect_code: 0 };
    let ok = run_one(&spec, &Observation::Exited(Some(0)), &src());
    assert_eq!(ok.status, WarrantStatus::Proven);
    assert_eq!(ok.evidence, "command \"true\" exited 0 (expected 0) — assertion holds");
    let bad = run_one(&spec, &Observation::Exited(Some(-12)), &src());
    assert_eq!(bad.status, WarrantStatus::Refuted);
    assert_eq!(bad.evidence, "command \"true\" exited -12 but expected 0 — assertion refuted");
    let killed = run_one(&spec, &Observation::Exited(None), &src());
    assert_eq!(killed.evidence, "command \"true\" exited -1 but expected 0 — assertion refuted");
    let failed = run_one(&spec, &Observation::SpawnFailed("no sh".to_string()), &src());
    assert_eq!(failed.status, WarrantStatus::Unproven);
    assert_eq!(failed.evidence, "command \"true\" failed to execute: no sh");
    assert_eq!(failed.kind, ClaimKind::MechanismAsserted);
}

#[test]
fn file_exists_verdicts() {
    let spec = AssertionSpec::FileExists { path: "/etc/x".to_string() };
    let yes = run_one(&spec, &Observation::Exists(true), &src());
    assert_eq!(yes.evidence, "file /etc/x exists — assertion holds");
    let no = run_one(&spec, &Observation::Exists(false), &src());
    assert_eq!(no.evidence, "file /etc/x does not exist — assertion refuted");
}

#[test]
fn grep_absent_verdicts() {
    let spec = AssertionSpec::GrepAbsent { path: "/s.sh".to_string(), pattern: "scribe".to_string() };
    let found = run_one(&spec, &Observation::Read("use scribe here".to_string()), &src());
    assert_eq!(found.status, WarrantStatus::Refuted);
    assert_eq!(
        found.evidence,
        "pattern \"scribe\" found in /s.sh — GrepAbsent assertion refuted (claimed mechanism absent, but old path persists)"
    );
    let unreadable = run_one(
        &spec,
        &Observation::ReadFailed { exists: true, error: "denied".to_string() },
        &src(),
    );
    assert_eq!(unreadable.status, WarrantStatus::Unproven);
    assert_eq!(unreadable.evidence, "cannot read /s.sh: denied");
    let missing = run_one(
        &spec,
        &Observation::ReadFailed { exists: false, error: "nope".to_string() },
        &src(),
    );
    assert_eq!(
        missing.evidence,
        "file /s.sh not found on this system (cloud-safe: assertion deferred)"
    );
}

#[test]
fn counter_nonzero_verdicts() {
    let spec = AssertionSpec::CounterNonzero { path: "/m".to_string(), key: "Reaped".to_string() };
    let yes = run_one(&spec, &Observation::Read("other: 5\nreaped = 0012;\n".to_string()), &src());
    assert_eq!(yes.status, WarrantStatus::Proven);
    assert_eq!(yes.evidence, "counter \"Reaped\" is non-zero in /m — assertion holds");
    let zero = run_one(&spec, &Observation::Read("reaped: 0\nother: 5\n".to_string()), &src());
    assert_eq!(zero.status, WarrantStatus::Refuted);
    assert_eq!(zero.evidence, "counter \"Reaped\" is zero or absent in /m — assertion refuted");
    let spaced = run_one(&spec, &Observation::Read("REAPED 1a2 x\n".to_string()), &src());
    assert_eq!(spaced.status, WarrantStatus::Proven);
    let huge = run_one(
        &spec,
        &Observation::Read("reaped 99999999999999999999999\n".to_string()),
        &src(),
    );
    assert_eq!(huge.status, WarrantStatus::Proven);
    let number_elsewhere =
        run_one(&spec, &Observation::Read("reaped: none, 7 pending\n".to_string()), &src());
    assert_eq!(number_elsewhere.status, WarrantStatus::Refuted);
    let hourly = AssertionSpec::CounterNonzero {
        path: "/m".to_string(),
        key: "reaped_24h".to_string(),
    };
    let zero_24h = run_one(&hourly, &Observation::Read("reaped_24h: 0\n".to_string()), &src());
    assert_eq!(zero_24h.status, WarrantStatus::Refuted);
    let later = run_one(
        &hourly,
        &Observation::Read("reaped_24h_total: 0 reaped_24h: 3\n".to_string()),
        &src(),
    );
    assert_eq!(later.status, WarrantStatus::Proven);
    let missing = run_one(
        &spec,
        &Observation::ReadFailed { exists: false, error: "x".to_string() },
        &src(),
    );
    assert_eq!(missing.status, WarrantStatus::Unproven);
    assert_eq!(missing.evidence, "file /m not found (cloud-safe: assertion deferred)");
}

#[test]
fn observation_fits_its_assertion() {
    let grep = AssertionSpec::GrepAbsent { path: "/p".to_string(), pattern: "q".to_string() };
    assert!(Observation::Read(String::new()).fits(&grep));
    assert!(!Observation::Exists(true).fits(&grep));
    let cmd = AssertionSpec::CommandExit { cmd: "ls".to_string(), expect_code: 0 };
    assert!(Observation::Exited(None).fits(&cmd));
}

#[test]
fn audit_keeps_note_kind_and_counts_all() {
    let notes = vec![
        RawClose {
            reference: CloseRef::Prd("/a/PRD-one.md".to_string()),
            text: "Status: Closed\nAll met.\n".to_string(),
        },
        RawClose {
            reference: CloseRef::Docket("dk-7".to_string()),
            text: "superseded by PRD-nine\n".to_string(),
        },
    ];
    let registry = WarrantRegistry {
        entries: vec![entry("prd-one.md", AssertionSpec::FileExists { path: "/x".to_string() })],
    };
    let obs = vec![Some(Observation::Exists(false)), None];
    let all = run_audit(&notes, &registry, &obs, StatusFilter::All);
    assert_eq!(all.verdicts[0].kind, ClaimKind::AcsMet);
    assert_eq!(all.verdicts[0].status, WarrantStatus::Refuted);
    assert_eq!(all.verdicts[1].kind, ClaimKind::Superseded);
    assert_eq!(all.verdicts[1].evidence, "no warrant registered for dk-7");
    assert_eq!(
        all.tally,
        AuditTally { proven: 0, refuted: 1, unproven: 0, unwarranted: 1 }
    );
    let unwarranted = run_audit(&notes, &registry, &obs, StatusFilter::Unwarranted);
    assert_eq!(unwarranted.verdicts.len(), 1);
    assert_eq!(unwarranted.verdicts[0].source, CloseRef::Docket("dk-7".to_string()));
}

#[test]
fn archive_markdown_and_order() {
    assert!(is_markdown("/a/PRD-x.md"));
    assert!(is_markdown("notes.md/"));
    assert!(!is_markdown("/a/.md"));
    assert!(!is_markdown("/a/readme.txt"));
    assert!(!is_markdown("/a/md"));
    let notes = closed_notes(&vec![
        ("/a/PRD-b.md".to_string(), "STATUS: CLOSED\n".to_string()),
        ("/a/PRD-c.md".to_string(), "Status: Draft\n".to_string()),
        ("/a/PRD-a.md".to_string(), "status: closed (2026-01-01)\n".to_string()),
    ]);
    let paths: Vec<String> = notes.iter().map(|n| n.reference.display_string()).collect();
    assert_eq!(paths, vec!["/a/PRD-a.md".to_string(), "/a/PRD-b.md".to_string()]);
}

#[test]
fn checked_audit_refuses_observations_that_do_not_fit() {
    let notes = fixture_notes();
    let registry = WarrantRegistry {
        entries: vec![entry(
            "PRD-ctrace-session-end-resilient.md",
            AssertionSpec::FileExists { path: "/tmp".to_string() },
        )],
    };
    assert!(run_audit_checked(&notes, &registry, &[], StatusFilter::All).is_none());
    assert!(run_audit_checked(&notes, &registry, &[None], StatusFilter::All).is_none());
    let wrong = vec![Some(Observation::Read("x".to_string()))];
    assert!(run_audit_checked(&notes, &registry, &wrong, StatusFilter::All).is_none());
    let right = vec![Some(Observation::Exists(true))];
    let result = run_audit_checked(&notes, &registry, &right, StatusFilter::All).expect("fits");
    assert_eq!(result.verdicts.len(), 1);
    assert_eq!(result.verdicts[0].status, WarrantStatus::Proven);
    assert_eq!(result.tally.proven, 1);

    let empty = WarrantRegistry { entries: vec![] };
    let unregistered = run_audit_checked(&notes, &empty, &[None], StatusFilter::All).expect("fits");
    assert_eq!(unregistered.verdicts[0].status, WarrantStatus::Unwarranted);
}
