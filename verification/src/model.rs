//! Core domain types: close claims, their kinds and tallies, assertion
//! specifications, warrants and verdicts, each with a mathematical view.

use vstd::prelude::*;

verus! {

/// The view of an optional string.
pub open spec fn opt_view(o: Option<String>) -> Option<Seq<char>> {
    match o {
        Some(s) => Some(s@),
        None => None,
    }
}

/// A reference to the source of a close claim.
#[derive(Debug, PartialEq, Eq)]
pub enum CloseRef {
    /// A path to a PRD file.
    Prd(String),
    /// A docket identifier string.
    Docket(String),
}

/// The view of a [`CloseRef`].
pub enum CloseRefView {
    Prd(Seq<char>),
    Docket(Seq<char>),
}

impl CloseRefView {
    /// The text that the reference displays as: the path or the identifier.
    pub open spec fn text(self) -> Seq<char> {
        match self {
            CloseRefView::Prd(p) => p,
            CloseRefView::Docket(s) => s,
        }
    }
}

impl View for CloseRef {
    type V = CloseRefView;

    open spec fn view(&self) -> CloseRefView {
        match self {
            CloseRef::Prd(p) => CloseRefView::Prd(p@),
            CloseRef::Docket(s) => CloseRefView::Docket(s@),
        }
    }
}

impl Clone for CloseRef {
    fn clone(&self) -> (r: Self)
        ensures
            r == *self,
    {
        match self {
            CloseRef::Prd(p) => CloseRef::Prd(p.clone()),
            CloseRef::Docket(s) => CloseRef::Docket(s.clone()),
        }
    }
}

impl CloseRef {
    /// The displayed form of the reference: the path, or the docket identifier.
    pub fn display_string(&self) -> (r: String)
        ensures
            r@ == self@.text(),
    {
        match self {
            CloseRef::Prd(p) => p.clone(),
            CloseRef::Docket(s) => s.clone(),
        }
    }
}

/// The classification of a close claim.
#[derive(Debug, Clone, Copy, PartialEq, Eq, Structural, Hash)]
pub enum ClaimKind {
    /// All ACs were met; no special mechanism noted.
    AcsMet,
    /// "Achieved live by a different mechanism": the canonical false-close risk.
    MechanismAsserted,
    /// Superseded by another PRD or vision.
    Superseded,
    /// Has `deferred_acs` in the close note.
    LiveDeferred,
    /// Could not be classified by any known pattern.
    Unclassified,
}

/// The displayed name of a claim kind.
pub open spec fn kind_name(k: ClaimKind) -> Seq<char> {
    match k {
        ClaimKind::AcsMet => "AcsMet"@,
        ClaimKind::MechanismAsserted => "MechanismAsserted"@,
        ClaimKind::Superseded => "Superseded"@,
        ClaimKind::LiveDeferred => "LiveDeferred"@,
        ClaimKind::Unclassified => "Unclassified"@,
    }
}

impl ClaimKind {
    /// The displayed name of this kind.
    pub fn name(&self) -> (r: String)
        ensures
            r@ == kind_name(*self),
    {
        let s = match self {
            ClaimKind::AcsMet => "AcsMet",
            ClaimKind::MechanismAsserted => "MechanismAsserted",
            ClaimKind::Superseded => "Superseded",
            ClaimKind::LiveDeferred => "LiveDeferred",
            ClaimKind::Unclassified => "Unclassified",
        };
        s.to_owned()
    }
}

/// A parsed, typed close-note entry.
#[derive(Debug, PartialEq, Eq)]
pub struct CloseClaim {
    /// Where this close claim came from.
    pub source: CloseRef,
    /// The date the PRD was closed, if parseable.
    pub close_date: Option<String>,
    /// The classified kind of this close claim.
    pub kind: ClaimKind,
    /// The mechanism text, if `kind == MechanismAsserted`.
    pub mechanism_text: Option<String>,
    /// The outcome text, if present.
    pub outcome_text: Option<String>,
    /// The raw excerpt that was classified.
    pub raw_excerpt: String,
}

/// The view of a [`CloseClaim`].
pub struct CloseClaimView {
    pub source: CloseRefView,
    pub close_date: Option<Seq<char>>,
    pub kind: ClaimKind,
    pub mechanism_text: Option<Seq<char>>,
    pub outcome_text: Option<Seq<char>>,
    pub raw_excerpt: Seq<char>,
}

impl View for CloseClaim {
    type V = CloseClaimView;

    open spec fn view(&self) -> CloseClaimView {
        CloseClaimView {
            source: self.source@,
            close_date: opt_view(self.close_date),
            kind: self.kind,
            mechanism_text: opt_view(self.mechanism_text),
            outcome_text: opt_view(self.outcome_text),
            raw_excerpt: self.raw_excerpt@,
        }
    }
}

/// Per-kind tally of close claims.
#[derive(Debug, Clone, Copy, PartialEq, Eq, Structural)]
pub struct ClaimKindTally {
    /// Number of `AcsMet` claims.
    pub acs_met: usize,
    /// Number of `MechanismAsserted` claims.
    pub mechanism_asserted: usize,
    /// Number of `Superseded` claims.
    pub superseded: usize,
    /// Number of `LiveDeferred` claims.
    pub live_deferred: usize,
    /// Number of `Unclassified` claims.
    pub unclassified: usize,
}

impl Default for ClaimKindTally {
    fn default() -> (r: Self)
        ensures
            r == ClaimKindTally::zero(),
    {
        ClaimKindTally {
            acs_met: 0,
            mechanism_asserted: 0,
            superseded: 0,
            live_deferred: 0,
            unclassified: 0,
        }
    }
}

impl ClaimKindTally {
    /// The tally with every counter at zero.
    pub open spec fn zero() -> ClaimKindTally {
        ClaimKindTally {
            acs_met: 0,
            mechanism_asserted: 0,
            superseded: 0,
            live_deferred: 0,
            unclassified: 0,
        }
    }

    /// The sum of all counters.
    pub open spec fn sum(self) -> int {
        self.acs_met + self.mechanism_asserted + self.superseded + self.live_deferred
            + self.unclassified
    }

    /// The counter for one kind.
    pub open spec fn count(self, kind: ClaimKind) -> int {
        match kind {
            ClaimKind::AcsMet => self.acs_met as int,
            ClaimKind::MechanismAsserted => self.mechanism_asserted as int,
            ClaimKind::Superseded => self.superseded as int,
            ClaimKind::LiveDeferred => self.live_deferred as int,
            ClaimKind::Unclassified => self.unclassified as int,
        }
    }

    /// The tally with the counter of `kind` one higher.
    pub open spec fn bumped(self, kind: ClaimKind) -> ClaimKindTally {
        match kind {
            ClaimKind::AcsMet => ClaimKindTally { acs_met: (self.acs_met + 1) as usize, ..self },
            ClaimKind::MechanismAsserted => ClaimKindTally {
                mechanism_asserted: (self.mechanism_asserted + 1) as usize,
                ..self
            },
            ClaimKind::Superseded => ClaimKindTally {
                superseded: (self.superseded + 1) as usize,
                ..self
            },
            ClaimKind::LiveDeferred => ClaimKindTally {
                live_deferred: (self.live_deferred + 1) as usize,
                ..self
            },
            ClaimKind::Unclassified => ClaimKindTally {
                unclassified: (self.unclassified + 1) as usize,
                ..self
            },
        }
    }

    /// Total number of claims across all kinds.
    pub fn total(&self) -> (r: usize)
        requires
            self.sum() <= usize::MAX,
        ensures
            r == self.sum(),
    {
        self.acs_met + self.mechanism_asserted + self.superseded + self.live_deferred
            + self.unclassified
    }

    /// Increment the counter for the given kind.
    pub fn increment(&mut self, kind: ClaimKind)
        requires
            old(self).count(kind) < usize::MAX,
        ensures
            *final(self) == old(self).bumped(kind),
    {
        match kind {
            ClaimKind::AcsMet => self.acs_met = self.acs_met + 1,
            ClaimKind::MechanismAsserted => self.mechanism_asserted = self.mechanism_asserted + 1,
            ClaimKind::Superseded => self.superseded = self.superseded + 1,
            ClaimKind::LiveDeferred => self.live_deferred = self.live_deferred + 1,
            ClaimKind::Unclassified => self.unclassified = self.unclassified + 1,
        }
    }
}

/// The pure result of classifying a corpus of close notes.
#[derive(Debug, PartialEq, Eq)]
pub struct AuditPlan {
    /// All classified claims.
    pub claims: Vec<CloseClaim>,
    /// Per-kind tally.
    pub tally: ClaimKindTally,
}

/// The view of an [`AuditPlan`].
pub struct AuditPlanView {
    pub claims: Seq<CloseClaimView>,
    pub tally: ClaimKindTally,
}

impl View for AuditPlan {
    type V = AuditPlanView;

    open spec fn view(&self) -> AuditPlanView {
        AuditPlanView {
            claims: self.claims@.map_values(|c: CloseClaim| c@),
            tally: self.tally,
        }
    }
}

/// The status of a warrant check.
#[derive(Debug, Clone, Copy, PartialEq, Eq, Structural)]
pub enum WarrantStatus {
    /// The assertion was verified true.
    Proven,
    /// The assertion was verified false.
    Refuted,
    /// The assertion could not be evaluated.
    Unproven,
    /// The assertion was not applicable to this claim.
    Unwarranted,
    /// The assertion was not applicable (e.g., wrong claim kind).
    NotApplicable,
}

/// The name of a status, as its `Debug` form writes it.
pub open spec fn status_name(s: WarrantStatus) -> Seq<char> {
    match s {
        WarrantStatus::Proven => "Proven"@,
        WarrantStatus::Refuted => "Refuted"@,
        WarrantStatus::Unproven => "Unproven"@,
        WarrantStatus::Unwarranted => "Unwarranted"@,
        WarrantStatus::NotApplicable => "NotApplicable"@,
    }
}

impl WarrantStatus {
    /// The name of this status.
    pub fn name(&self) -> (r: String)
        ensures
            r@ == status_name(*self),
    {
        let s = match self {
            WarrantStatus::Proven => "Proven",
            WarrantStatus::Refuted => "Refuted",
            WarrantStatus::Unproven => "Unproven",
            WarrantStatus::Unwarranted => "Unwarranted",
            WarrantStatus::NotApplicable => "NotApplicable",
        };
        s.to_owned()
    }
}

/// A verifiable assertion specification.
#[derive(Debug, PartialEq, Eq)]
pub enum AssertionSpec {
    /// Run a command and check its exit code.
    CommandExit {
        /// The shell command to run.
        cmd: String,
        /// The expected exit code.
        expect_code: i32,
    },
    /// Check that a file exists.
    FileExists {
        /// The path to check.
        path: String,
    },
    /// Check that a pattern is absent in a file.
    GrepAbsent {
        /// The file to search.
        path: String,
        /// The pattern to search for (must be absent).
        pattern: String,
    },
    /// Check that a counter in a file is non-zero.
    CounterNonzero {
        /// The file containing the counter.
        path: String,
        /// The key to look up.
        key: String,
    },
}

/// The view of an [`AssertionSpec`].
pub enum AssertionView {
    CommandExit { cmd: Seq<char>, expect_code: i32 },
    FileExists { path: Seq<char> },
    GrepAbsent { path: Seq<char>, pattern: Seq<char> },
    CounterNonzero { path: Seq<char>, key: Seq<char> },
}

impl View for AssertionSpec {
    type V = AssertionView;

    open spec fn view(&self) -> AssertionView {
        match self {
            AssertionSpec::CommandExit { cmd, expect_code } => AssertionView::CommandExit {
                cmd: cmd@,
                expect_code: *expect_code,
            },
            AssertionSpec::FileExists { path } => AssertionView::FileExists { path: path@ },
            AssertionSpec::GrepAbsent { path, pattern } => AssertionView::GrepAbsent {
                path: path@,
                pattern: pattern@,
            },
            AssertionSpec::CounterNonzero { path, key } => AssertionView::CounterNonzero {
                path: path@,
                key: key@,
            },
        }
    }
}

impl Clone for AssertionSpec {
    fn clone(&self) -> (r: Self)
        ensures
            r == *self,
    {
        match self {
            AssertionSpec::CommandExit { cmd, expect_code } => AssertionSpec::CommandExit {
                cmd: cmd.clone(),
                expect_code: *expect_code,
            },
            AssertionSpec::FileExists { path } => AssertionSpec::FileExists { path: path.clone() },
            AssertionSpec::GrepAbsent { path, pattern } => AssertionSpec::GrepAbsent {
                path: path.clone(),
                pattern: pattern.clone(),
            },
            AssertionSpec::CounterNonzero { path, key } => AssertionSpec::CounterNonzero {
                path: path.clone(),
                key: key.clone(),
            },
        }
    }
}

/// A warrant: a close claim paired with an assertion to verify.
#[derive(Debug, PartialEq, Eq)]
pub struct Warrant {
    /// The close claim being warranted.
    pub source: CloseRef,
    /// The assertion to run against the claimed mechanism.
    pub assertion: AssertionSpec,
}

/// The verdict of running a warrant assertion.
#[derive(Debug, PartialEq, Eq)]
pub struct WarrantVerdict {
    /// The close claim source.
    pub source: CloseRef,
    /// The kind of the close claim.
    pub kind: ClaimKind,
    /// The result of evaluating the assertion.
    pub status: WarrantStatus,
    /// Human-readable evidence string.
    pub evidence: String,
}

/// The view of a [`WarrantVerdict`].
pub struct VerdictView {
    pub source: CloseRefView,
    pub kind: ClaimKind,
    pub status: WarrantStatus,
    pub evidence: Seq<char>,
}

impl View for WarrantVerdict {
    type V = VerdictView;

    open spec fn view(&self) -> VerdictView {
        VerdictView {
            source: self.source@,
            kind: self.kind,
            status: self.status,
            evidence: self.evidence@,
        }
    }
}

impl Clone for WarrantVerdict {
    fn clone(&self) -> (r: Self)
        ensures
            r == *self,
    {
        WarrantVerdict {
            source: self.source.clone(),
            kind: self.kind,
            status: self.status,
            evidence: self.evidence.clone(),
        }
    }
}

} // verus!
