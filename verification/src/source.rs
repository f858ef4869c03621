//! Raw close notes, the `CloseSource` trait and the in-memory `FakeSource`.

use vstd::prelude::*;

use crate::model::{CloseRef, CloseRefView};

verus! {

/// A raw, unclassified close note entry.
#[derive(Debug, PartialEq, Eq)]
pub struct RawClose {
    /// The source reference for this close note.
    pub reference: CloseRef,
    /// The raw text of the close note.
    pub text: String,
}

/// The view of a [`RawClose`].
pub struct RawCloseView {
    pub reference: CloseRefView,
    pub text: Seq<char>,
}

impl View for RawClose {
    type V = RawCloseView;

    open spec fn view(&self) -> RawCloseView {
        RawCloseView { reference: self.reference@, text: self.text@ }
    }
}

impl Clone for RawClose {
    fn clone(&self) -> (r: Self)
        ensures
            r == *self,
    {
        RawClose { reference: self.reference.clone(), text: self.text.clone() }
    }
}

/// Trait for sources that can yield raw close notes.
///
/// The filesystem implementation lives with the program; this library ships
/// only [`FakeSource`].
pub trait CloseSource {
    /// Return all raw close notes from this source, or a description of why
    /// the source cannot be read.
    fn close_notes(&self) -> Result<Vec<RawClose>, String>;
}

/// An in-memory fixture source for tests.
#[derive(Debug, Default)]
pub struct FakeSource {
    /// The pre-loaded raw close notes.
    pub notes: Vec<RawClose>,
}

/// The illustrative fixtures: a mechanism-asserted close, a superseded close
/// and a plain close.
pub open spec fn illustrative_fixtures() -> Seq<RawCloseView> {
    seq![
        RawCloseView {
            reference: CloseRefView::Prd("PRDs-archive/PRD-ctrace-session-end-resilient.md"@),
            text: "Status: Closed (2026-06-02) \u{2014} outcome achieved live by a different mechanism\n\nThe ctrace-reap.timer now handles orphaned session logs. The reaper's\n`render_log` step summarizes any orphaned `*.ndjson` that session.bt left\nbehind. The mechanism: ctrace-orphan-reap backfills summaries on a schedule.\n"@,
        },
        RawCloseView {
            reference: CloseRefView::Prd("PRDs-archive/PRD-agentns-wrap.md"@),
            text: "Status: Closed (2026-06-06) \u{2014} superseded by PRD-agentns-prctl.md\n\nThe agentns-wrap approach (CLONE_NEWAGENT=0x100 collision with CLONE_VM)\nis futile. The correct fix is the prctl path defined in the new PRD.\nThis PRD is closed by vision-assay and the replacement PRD.\n"@,
        },
        RawCloseView {
            reference: CloseRefView::Prd("PRDs-archive/PRD-simple-acs-met.md"@),
            text: "Status: Closed (2026-06-01)\n\nAll acceptance criteria verified. The binary ships and tests pass.\n"@,
        },
    ]
}

impl FakeSource {
    /// Create a new `FakeSource` with the given notes.
    pub fn new(notes: Vec<RawClose>) -> (r: Self)
        ensures
            r.notes == notes,
    {
        FakeSource { notes }
    }

    /// Create a `FakeSource` with the built-in illustrative fixtures: excerpts
    /// of `PRD-ctrace-session-end-resilient.md` (mechanism asserted),
    /// `PRD-agentns-wrap.md` (superseded) and a plain close.
    pub fn with_illustrative_fixtures() -> (r: Self)
        ensures
            r.notes@.map_values(|n: RawClose| n@) == illustrative_fixtures(),
    {
        let mut notes: Vec<RawClose> = Vec::new();
        notes.push(
            RawClose {
                reference: CloseRef::Prd(
                    "PRDs-archive/PRD-ctrace-session-end-resilient.md".to_owned(),
                ),
                text: "Status: Closed (2026-06-02) \u{2014} outcome achieved live by a different mechanism\n\nThe ctrace-reap.timer now handles orphaned session logs. The reaper's\n`render_log` step summarizes any orphaned `*.ndjson` that session.bt left\nbehind. The mechanism: ctrace-orphan-reap backfills summaries on a schedule.\n".to_owned(),
            },
        );
        notes.push(
            RawClose {
                reference: CloseRef::Prd("PRDs-archive/PRD-agentns-wrap.md".to_owned()),
                text: "Status: Closed (2026-06-06) \u{2014} superseded by PRD-agentns-prctl.md\n\nThe agentns-wrap approach (CLONE_NEWAGENT=0x100 collision with CLONE_VM)\nis futile. The correct fix is the prctl path defined in the new PRD.\nThis PRD is closed by vision-assay and the replacement PRD.\n".to_owned(),
            },
        );
        notes.push(
            RawClose {
                reference: CloseRef::Prd("PRDs-archive/PRD-simple-acs-met.md".to_owned()),
                text: "Status: Closed (2026-06-01)\n\nAll acceptance criteria verified. The binary ships and tests pass.\n".to_owned(),
            },
        );
        let r = FakeSource { notes };
        assert(r.notes@.map_values(|n: RawClose| n@) =~= illustrative_fixtures());
        r
    }
}

impl CloseSource for FakeSource {
    fn close_notes(&self) -> (r: Result<Vec<RawClose>, String>)
        ensures
            r matches Ok(v) && v@ == self.notes@,
    {
        let n = self.notes.len();
        let mut out: Vec<RawClose> = Vec::new();
        for i in 0..n
            invariant
                n == self.notes@.len(),
                out@ == self.notes@.subrange(0, i as int),
        {
            out.push(self.notes[i].clone());
            assert(out@ =~= self.notes@.subrange(0, i + 1));
        }
        assert(self.notes@.subrange(0, n as int) =~= self.notes@);
        Ok(out)
    }
}

} // verus!
