//! Findings, run results and run errors.

use vstd::prelude::*;

use crate::kinds::{kind_severity, severity_ord, severity_rank, FuzzFindingKind, Severity};

verus! {

// ---------------------------------------------------------------------------
// FuzzFinding
// ---------------------------------------------------------------------------

/// A single fuzz finding.
#[derive(Debug, Clone)]
pub struct FuzzFinding {
    /// Kind of finding (crash / timeout / OOM).
    pub kind: FuzzFindingKind,
    /// Path to the input that triggered the finding ("reproducer").
    pub reproducer_path: String,
    /// Short human-readable summary captured from libFuzzer's output.
    pub summary: String,
}

/// A finding as plain values.
pub struct FindingView {
    /// Kind of finding.
    pub kind: FuzzFindingKind,
    /// Reproducer path.
    pub reproducer_path: Seq<char>,
    /// Summary line.
    pub summary: Seq<char>,
}

impl View for FuzzFinding {
    type V = FindingView;

    open spec fn view(&self) -> FindingView {
        FindingView {
            kind: self.kind,
            reproducer_path: self.reproducer_path@,
            summary: self.summary@,
        }
    }
}

impl FuzzFinding {
    /// A copy of this finding.
    pub(crate) fn duplicate(&self) -> (r: FuzzFinding)
        ensures
            r@ == self@,
    {
        FuzzFinding {
            kind: self.kind,
            reproducer_path: self.reproducer_path.clone(),
            summary: self.summary.clone(),
        }
    }
}

/// The views of a sequence of findings.
pub open spec fn finding_views(v: Seq<FuzzFinding>) -> Seq<FindingView> {
    v.map_values(|f: FuzzFinding| f@)
}

// ---------------------------------------------------------------------------
// FuzzResult
// ---------------------------------------------------------------------------

/// Result of a fuzz run.
#[derive(Debug, Clone)]
pub struct FuzzResult {
    /// Fuzz target name.
    pub target: String,
    /// Subject version (descriptive).
    pub version: String,
    /// Total executions completed by libFuzzer.
    pub executions: u64,
    /// Findings discovered during the run.
    pub findings: Vec<FuzzFinding>,
}

/// Number of findings of kind `k` in `s`.
pub open spec fn count_kind(s: Seq<FindingView>, k: FuzzFindingKind) -> nat
    decreases s.len(),
{
    if s.len() == 0 {
        0
    } else {
        count_kind(s.drop_last(), k) + if s.last().kind == k {
            1nat
        } else {
            0nat
        }
    }
}

/// `s` is the most severe severity among the findings `f`.
pub open spec fn is_worst_severity(f: Seq<FindingView>, s: Severity) -> bool {
    &&& exists|i: int| 0 <= i < f.len() && kind_severity(#[trigger] f[i].kind) == s
    &&& forall|i: int|
        0 <= i < f.len() ==> severity_rank(kind_severity(#[trigger] f[i].kind)) <= severity_rank(s)
}

impl FuzzResult {
    /// Total number of findings.
    pub fn total_findings(&self) -> (r: usize)
        ensures
            r == self.findings@.len(),
    {
        self.findings.len()
    }

    /// Number of findings whose kind equals `kind`.
    pub fn count_of(&self, kind: FuzzFindingKind) -> (r: usize)
        ensures
            r == count_kind(finding_views(self.findings@), kind),
    {
        let n = self.findings.len();
        let ghost fs = finding_views(self.findings@);
        let mut c: usize = 0;
        for i in 0..n
            invariant
                n == self.findings@.len(),
                fs == finding_views(self.findings@),
                c == count_kind(fs.take(i as int), kind),
                c <= i,
        {
            assert(fs.take(i + 1).drop_last() == fs.take(i as int));
            if self.findings[i].kind == kind {
                c += 1;
            }
        }
        assert(fs.take(n as int) == fs);
        c
    }

    /// Highest severity present across findings, if any.
    pub fn worst_severity(&self) -> (r: Option<Severity>)
        ensures
            r is None <==> self.findings@.len() == 0,
            r matches Some(s) ==> is_worst_severity(finding_views(self.findings@), s),
    {
        let n = self.findings.len();
        let ghost fs = finding_views(self.findings@);
        let mut best: Option<Severity> = None;
        for i in 0..n
            invariant
                n == self.findings@.len(),
                fs == finding_views(self.findings@),
                best is None <==> i == 0,
                best matches Some(s) ==> is_worst_severity(fs.take(i as int), s),
        {
            let s = self.findings[i].kind.severity();
            let ghost prev = fs.take(i as int);
            let ghost cur = fs.take(i + 1);
            assert(cur[i as int] == fs[i as int]);
            assert forall|j: int| 0 <= j < i implies #[trigger] cur[j] == prev[j] by {}
            match best {
                None => {
                    best = Some(s);
                    assert(kind_severity(cur[0].kind) == s);
                },
                Some(b) => {
                    if severity_ord(s) >= severity_ord(b) {
                        best = Some(s);
                        assert(kind_severity(cur[i as int].kind) == s);
                        assert forall|j: int| 0 <= j < cur.len() implies severity_rank(
                            kind_severity(#[trigger] cur[j].kind),
                        ) <= severity_rank(s) by {
                            if j < i {
                                assert(prev[j] == cur[j]);
                            }
                        }
                    } else {
                        let ghost w = choose|j: int|
                            0 <= j < prev.len() && kind_severity(#[trigger] prev[j].kind) == b;
                        assert(cur[w] == prev[w]);
                        assert forall|j: int| 0 <= j < cur.len() implies severity_rank(
                            kind_severity(#[trigger] cur[j].kind),
                        ) <= severity_rank(b) by {
                            if j < i {
                                assert(prev[j] == cur[j]);
                            }
                        }
                    }
                },
            }
        }
        assert(fs.take(n as int) == fs);
        best
    }
}

/// Every finding has exactly one of the three kinds: the per-kind counts add
/// up to the total number of findings.
pub proof fn lemma_counts_partition(s: Seq<FindingView>)
    ensures
        count_kind(s, FuzzFindingKind::Crash) + count_kind(s, FuzzFindingKind::Timeout)
            + count_kind(s, FuzzFindingKind::OutOfMemory) == s.len(),
    decreases s.len(),
{
    if s.len() > 0 {
        lemma_counts_partition(s.drop_last());
    }
}

// ---------------------------------------------------------------------------
// FuzzError
// ---------------------------------------------------------------------------

/// Errors that can arise during a fuzz run.
#[derive(Debug)]
pub enum FuzzError {
    /// `cargo-fuzz` is not installed on the system.
    ToolNotInstalled,
    /// The nightly Rust toolchain is required but not installed.
    NightlyRequired,
    /// Subprocess returned a fatal error (non-zero exit with no recoverable
    /// output).
    SubprocessFailed(String),
    /// The named fuzz target was not found in the project.
    TargetNotFound(String),
}

/// The human-readable message of each error.
pub open spec fn error_message(e: FuzzError) -> Seq<char> {
    match e {
        FuzzError::ToolNotInstalled => "cargo-fuzz is not installed; run `cargo install cargo-fuzz`"@,
        FuzzError::NightlyRequired => "nightly Rust required; run `rustup toolchain install nightly`"@,
        FuzzError::SubprocessFailed(s) => "cargo fuzz failed: "@ + s@,
        FuzzError::TargetNotFound(s) => "fuzz target not found: "@ + s@,
    }
}

impl FuzzError {
    /// Human-readable message, with the remedy where there is one.
    pub fn message(&self) -> (r: String)
        ensures
            r@ == error_message(*self),
    {
        match self {
            FuzzError::ToolNotInstalled => String::from_str(
                "cargo-fuzz is not installed; run `cargo install cargo-fuzz`",
            ),
            FuzzError::NightlyRequired => String::from_str(
                "nightly Rust required; run `rustup toolchain install nightly`",
            ),
            FuzzError::SubprocessFailed(s) => {
                let mut m = String::from_str("cargo fuzz failed: ");
                m.append(s.as_str());
                m
            },
            FuzzError::TargetNotFound(s) => {
                let mut m = String::from_str("fuzz target not found: ");
                m.append(s.as_str());
                m
            },
        }
    }
}

} // verus!
