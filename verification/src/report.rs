//! Conversion of run results into `dev_report` reports.
//!
//! A `dev_report::Report` is built through the calls of `dev_report`; what
//! each call puts into the report is stated over the models below
//! ([`ReportModel`], [`CheckModel`], [`EvidenceModel`]), which leave out the
//! timestamps that `dev_report` stamps on reports and checks.

use dev_report::{CheckResult, Evidence, Report};

use vstd::prelude::*;

use crate::findings::{error_message, finding_views, FindingView, FuzzError, FuzzResult};
use crate::kinds::{kind_label, kind_severity, Severity};
use crate::text::{decimal, decimal_string};

verus! {

/// `dev_report::Report`.
#[verifier::external_type_specification]
#[verifier::external_body]
pub struct ExReport(Report);

/// `dev_report::CheckResult`.
#[verifier::external_type_specification]
#[verifier::external_body]
pub struct ExCheckResult(CheckResult);

/// `dev_report::Evidence`.
#[verifier::external_type_specification]
#[verifier::external_body]
pub struct ExEvidence(Evidence);

// ---------------------------------------------------------------------------
// Models
// ---------------------------------------------------------------------------

/// Verdict of a check (mirrors `dev_report::Verdict`).
#[derive(Debug, Clone, Copy, PartialEq, Eq, Structural)]
pub enum CheckVerdict {
    /// The check passed.
    Pass,
    /// The check failed.
    Fail,
    /// The check warned.
    Warn,
    /// The check was skipped.
    Skip,
}

/// A piece of evidence, as plain values.
pub enum EvidenceModel {
    /// Numeric evidence recorded from an integer; `value` is the number
    /// `dev_report` records for it.
    Numeric { label: Seq<char>, value: int },
    /// A reference to a file.
    FileRef { label: Seq<char>, path: Seq<char> },
}

/// A check, as plain values (its timestamp left out).
pub struct CheckModel {
    /// Check name.
    pub name: Seq<char>,
    /// Verdict.
    pub verdict: CheckVerdict,
    /// Severity, if any.
    pub severity: Option<Severity>,
    /// Detail text, if any.
    pub detail: Option<Seq<char>>,
    /// Tags, in the order added.
    pub tags: Seq<Seq<char>>,
    /// Evidence, in the order added.
    pub evidence: Seq<EvidenceModel>,
}

/// A report, as plain values (its timestamps left out).
pub struct ReportModel {
    /// Subject name.
    pub subject: Seq<char>,
    /// Subject version.
    pub subject_version: Seq<char>,
    /// Producer name, if any.
    pub producer: Option<Seq<char>>,
    /// Checks, in the order pushed.
    pub checks: Seq<CheckModel>,
    /// The report has been finished (its finish time stamped).
    pub finished: bool,
}

/// What a `dev_report::Report` holds.
pub uninterp spec fn report_contents(r: Report) -> ReportModel;

/// What a `dev_report::CheckResult` holds.
pub uninterp spec fn check_contents(c: CheckResult) -> CheckModel;

/// What a `dev_report::Evidence` holds.
pub uninterp spec fn evidence_contents(e: Evidence) -> EvidenceModel;

/// The number `Evidence::numeric_int` records for the integer `v` (its
/// conversion to `f64`).
pub uninterp spec fn int_evidence_value(v: i64) -> int;

// ---------------------------------------------------------------------------
// Calls into dev_report
// ---------------------------------------------------------------------------

/// Calls `Report::new`: an unfinished report for `subject` at
/// `subject_version`, with no producer and no checks.
#[verifier::external_body]
fn new_report(subject: &str, subject_version: &str) -> (r: Report)
    ensures
        report_contents(r) == (ReportModel {
            subject: subject@,
            subject_version: subject_version@,
            producer: None,
            checks: Seq::empty(),
            finished: false,
        }),
{
    Report::new(subject, subject_version)
}

/// Calls `Report::with_producer`: sets the producer, nothing else.
#[verifier::external_body]
fn report_with_producer(r: Report, producer: &str) -> (out: Report)
    ensures
        report_contents(out) == (ReportModel {
            producer: Some(producer@),
            ..report_contents(r)
        }),
{
    r.with_producer(producer)
}

/// Calls `Report::push`: appends the check, nothing else.
#[verifier::external_body]
fn report_push(r: &mut Report, c: CheckResult)
    ensures
        report_contents(*final(r)) == (ReportModel {
            checks: report_contents(*old(r)).checks.push(check_contents(c)),
            ..report_contents(*old(r))
        }),
{
    r.push(c);
}

/// Calls `Report::finish`: stamps the finish time, nothing else.
#[verifier::external_body]
fn report_finish(r: &mut Report)
    ensures
        report_contents(*final(r)) == (ReportModel { finished: true, ..report_contents(*old(r)) }),
{
    r.finish();
}

/// Calls `CheckResult::pass`: a passing check named `name` with no
/// severity, detail, tags or evidence.
#[verifier::external_body]
fn check_pass(name: &str) -> (r: CheckResult)
    ensures
        check_contents(r) == (CheckModel {
            name: name@,
            verdict: CheckVerdict::Pass,
            severity: None,
            detail: None,
            tags: Seq::empty(),
            evidence: Seq::empty(),
        }),
{
    CheckResult::pass(name)
}

/// Calls `CheckResult::fail` with the `dev_report::Severity` of the same
/// name as `severity`: a failing check named `name` with that severity and
/// no detail, tags or evidence.
#[verifier::external_body]
fn check_fail(name: &str, severity: Severity) -> (r: CheckResult)
    ensures
        check_contents(r) == (CheckModel {
            name: name@,
            verdict: CheckVerdict::Fail,
            severity: Some(severity),
            detail: None,
            tags: Seq::empty(),
            evidence: Seq::empty(),
        }),
{
    let s = match severity {
        Severity::Info => dev_report::Severity::Info,
        Severity::Warning => dev_report::Severity::Warning,
        Severity::Error => dev_report::Severity::Error,
        Severity::Critical => dev_report::Severity::Critical,
    };
    CheckResult::fail(name, s)
}

/// Calls `CheckResult::with_detail`: sets the detail, nothing else.
#[verifier::external_body]
fn check_with_detail(c: CheckResult, detail: String) -> (r: CheckResult)
    ensures
        check_contents(r) == (CheckModel { detail: Some(detail@), ..check_contents(c) }),
{
    c.with_detail(detail)
}

/// Calls `CheckResult::with_tag`: appends the tag, nothing else.
#[verifier::external_body]
fn check_with_tag(c: CheckResult, tag: &str) -> (r: CheckResult)
    ensures
        check_contents(r) == (CheckModel {
            tags: check_contents(c).tags.push(tag@),
            ..check_contents(c)
        }),
{
    c.with_tag(tag)
}

/// Calls `CheckResult::with_evidence`: appends the evidence, nothing else.
#[verifier::external_body]
fn check_with_evidence(c: CheckResult, e: Evidence) -> (r: CheckResult)
    ensures
        check_contents(r) == (CheckModel {
            evidence: check_contents(c).evidence.push(evidence_contents(e)),
            ..check_contents(c)
        }),
{
    c.with_evidence(e)
}

/// Calls `Evidence::numeric_int`: numeric evidence labelled `label`
/// recording the integer `value` (as `value as f64`, which is exact for
/// magnitudes up to 2^53).
#[verifier::external_body]
fn evidence_numeric_int(label: &str, value: i64) -> (r: Evidence)
    ensures
        evidence_contents(r) == (EvidenceModel::Numeric {
            label: label@,
            value: int_evidence_value(value),
        }),
        -0x20_0000_0000_0000 <= value <= 0x20_0000_0000_0000 ==> evidence_contents(r) == (
        EvidenceModel::Numeric { label: label@, value: value as int }),
{
    Evidence::numeric_int(label, value)
}

/// Calls `Evidence::file_ref`: evidence labelled `label` referring to the
/// file `path`.
#[verifier::external_body]
fn evidence_file_ref(label: &str, path: &str) -> (r: Evidence)
    ensures
        evidence_contents(r) == (EvidenceModel::FileRef { label: label@, path: path@ }),
{
    Evidence::file_ref(label, path)
}

// ---------------------------------------------------------------------------
// What the reports hold
// ---------------------------------------------------------------------------

/// The check of a run without findings: passing, named `fuzz::<target>`,
/// tagged `fuzz`, with the execution count as detail and as numeric
/// evidence labelled `executions` (exactly the count up to 2^53, the
/// number `dev_report` records for it above).
pub open spec fn clean_run_check(target: Seq<char>, executions: u64) -> CheckModel {
    CheckModel {
        name: "fuzz::"@ + target,
        verdict: CheckVerdict::Pass,
        severity: None,
        detail: Some(decimal(executions as nat) + " executions, 0 findings"@),
        tags: seq!["fuzz"@],
        evidence: seq![
            EvidenceModel::Numeric {
                label: "executions"@,
                value: if executions <= 0x20_0000_0000_0000 {
                    executions as int
                } else {
                    int_evidence_value(executions as i64)
                },
            },
        ],
    }
}

/// The check of one finding: failing with the severity of its kind, named
/// `fuzz::<target>::<kind>`, with the summary as detail, tagged `fuzz` and
/// the kind label, with the reproducer path as file evidence labelled
/// `reproducer`.
pub open spec fn finding_check(target: Seq<char>, f: FindingView) -> CheckModel {
    CheckModel {
        name: "fuzz::"@ + target + "::"@ + kind_label(f.kind),
        verdict: CheckVerdict::Fail,
        severity: Some(kind_severity(f.kind)),
        detail: Some(f.summary),
        tags: seq!["fuzz"@, kind_label(f.kind)],
        evidence: seq![EvidenceModel::FileRef { label: "reproducer"@, path: f.reproducer_path }],
    }
}

/// The checks of a result: one passing check when there is no finding,
/// else one failing check per finding, in order.
pub open spec fn result_checks(
    target: Seq<char>,
    executions: u64,
    findings: Seq<FindingView>,
) -> Seq<CheckModel> {
    if findings.len() == 0 {
        seq![clean_run_check(target, executions)]
    } else {
        findings.map_values(|f: FindingView| finding_check(target, f))
    }
}

/// The report of a result: subject and version of the run, produced by
/// `dev-fuzz`, finished, with the result's checks.
pub open spec fn result_report(r: FuzzResult) -> ReportModel {
    ReportModel {
        subject: r.target@,
        subject_version: r.version@,
        producer: Some("dev-fuzz"@),
        checks: result_checks(r.target@, r.executions, finding_views(r.findings@)),
        finished: true,
    }
}

/// The report of a run that failed with `e`: one failing critical check
/// named `fuzz::<target>`, with the error message as detail, tagged `fuzz`
/// and `subprocess`.
pub open spec fn failure_report(target: Seq<char>, version: Seq<char>, e: FuzzError) -> ReportModel {
    ReportModel {
        subject: target,
        subject_version: version,
        producer: Some("dev-fuzz"@),
        checks: seq![
            CheckModel {
                name: "fuzz::"@ + target,
                verdict: CheckVerdict::Fail,
                severity: Some(Severity::Critical),
                detail: Some(error_message(e)),
                tags: seq!["fuzz"@, "subprocess"@],
                evidence: Seq::empty(),
            },
        ],
        finished: true,
    }
}

impl FuzzResult {
    /// Convert into a `dev_report::Report`: no findings give one passing
    /// check named `fuzz::<target>` with the execution count as evidence;
    /// otherwise each finding gives one failing check named
    /// `fuzz::<target>::<kind>`, with the severity of its kind, tagged
    /// `fuzz` and the kind label, with the reproducer path as evidence.
    pub fn into_report(self) -> (r: Report)
        ensures
            report_contents(r) == result_report(self),
    {
        let r0 = new_report(self.target.as_str(), self.version.as_str());
        let mut report = report_with_producer(r0, "dev-fuzz");
        let mut prefix = String::from_str("fuzz::");
        prefix.append(self.target.as_str());
        let ghost start = report_contents(report);
        let ghost target = self.target@;
        let ghost fs = finding_views(self.findings@);
        if self.findings.len() == 0 {
            let c0 = check_pass(prefix.as_str());
            let c1 = check_with_tag(c0, "fuzz");
            let mut detail = decimal_string(self.executions);
            detail.append(" executions, 0 findings");
            let c2 = check_with_detail(c1, detail);
            let e = evidence_numeric_int("executions", self.executions as i64);
            let c3 = check_with_evidence(c2, e);
            assert(check_contents(c3).tags =~= seq!["fuzz"@]);
            assert(check_contents(c3).evidence =~= clean_run_check(target, self.executions).evidence);
            assert(check_contents(c3) == clean_run_check(target, self.executions));
            report_push(&mut report, c3);
            assert(report_contents(report).checks == seq![clean_run_check(target, self.executions)]);
        } else {
            let n = self.findings.len();
            assert(fs.take(0).map_values(|f: FindingView| finding_check(target, f)) =~= Seq::<
                CheckModel,
            >::empty());
            for i in 0..n
                invariant
                    n == self.findings@.len(),
                    fs == finding_views(self.findings@),
                    target == self.target@,
                    prefix@ == "fuzz::"@ + target,
                    report_contents(report) == (ReportModel {
                        checks: fs.take(i as int).map_values(
                            |f: FindingView| finding_check(target, f),
                        ),
                        ..start
                    }),
            {
                let f = &self.findings[i];
                let label = f.kind.label();
                let mut name = String::from_str(prefix.as_str());
                name.append("::");
                name.append(label);
                let c0 = check_fail(name.as_str(), f.kind.severity());
                let c1 = check_with_detail(c0, f.summary.clone());
                let c2 = check_with_tag(c1, "fuzz");
                let c3 = check_with_tag(c2, label);
                let e = evidence_file_ref("reproducer", f.reproducer_path.as_str());
                let c4 = check_with_evidence(c3, e);
                assert(fs[i as int] == f@);
                assert(check_contents(c4).tags =~= seq!["fuzz"@, kind_label(f.kind)]);
                assert(check_contents(c4).evidence =~= finding_check(target, f@).evidence);
                assert(check_contents(c4) == finding_check(target, f@));
                let ghost before = report_contents(report).checks;
                report_push(&mut report, c4);
                assert(fs.take(i + 1).map_values(|f: FindingView| finding_check(target, f))
                    == before.push(finding_check(target, f@)));
            }
            assert(fs.take(n as int) == fs);
        }
        report_finish(&mut report);
        report
    }
}

/// The report of a result without findings holds exactly one check, and it
/// passes; the report of a result with findings holds one failing check per
/// finding, each carrying that finding's reproducer path as file evidence
/// labelled `reproducer` and the severity of its kind.
pub proof fn lemma_report_shape(r: FuzzResult)
    ensures
        r.findings@.len() == 0 ==> result_report(r).checks.len() == 1
            && result_report(r).checks[0].verdict == CheckVerdict::Pass,
        r.findings@.len() > 0 ==> {
            &&& result_report(r).checks.len() == r.findings@.len()
            &&& forall|i: int|
                0 <= i < r.findings@.len() ==> {
                    &&& (#[trigger] result_report(r).checks[i]).verdict == CheckVerdict::Fail
                    &&& result_report(r).checks[i].severity == Some(
                        kind_severity(r.findings@[i].kind),
                    )
                    &&& result_report(r).checks[i].evidence.contains(
                        EvidenceModel::FileRef {
                            label: "reproducer"@,
                            path: r.findings@[i].reproducer_path@,
                        },
                    )
                }
        },
{
    let fs = finding_views(r.findings@);
    if r.findings@.len() > 0 {
        assert forall|i: int| 0 <= i < r.findings@.len() implies {
            &&& (#[trigger] result_report(r).checks[i]).verdict == CheckVerdict::Fail
            &&& result_report(r).checks[i].severity == Some(kind_severity(r.findings@[i].kind))
            &&& result_report(r).checks[i].evidence.contains(
                EvidenceModel::FileRef {
                    label: "reproducer"@,
                    path: r.findings@[i].reproducer_path@,
                },
            )
        } by {
            assert(fs[i] == r.findings@[i]@);
            assert(result_report(r).checks[i].evidence[0] == EvidenceModel::FileRef {
                label: "reproducer"@,
                path: r.findings@[i].reproducer_path@,
            });
        }
    }
}

/// Each finding of a result, whatever its kind, is reported by the check at
/// its own position: named `fuzz::<target>::<kind>`, failing with the
/// severity of its kind, with the finding's summary (what went wrong) as
/// detail, tagged `fuzz` and the kind label, and with the finding's
/// reproducer path as its only evidence.
pub proof fn lemma_finding_reported_with_summary(r: FuzzResult, i: int)
    requires
        0 <= i < r.findings@.len(),
    ensures
        result_report(r).checks.len() == r.findings@.len(),
        result_report(r).checks[i].name == "fuzz::"@ + r.target@ + "::"@ + kind_label(
            r.findings@[i].kind,
        ),
        result_report(r).checks[i].verdict == CheckVerdict::Fail,
        result_report(r).checks[i].severity == Some(kind_severity(r.findings@[i].kind)),
        result_report(r).checks[i].detail == Some(r.findings@[i].summary@),
        result_report(r).checks[i].tags == seq!["fuzz"@, kind_label(r.findings@[i].kind)],
        result_report(r).checks[i].evidence == seq![
            EvidenceModel::FileRef {
                label: "reproducer"@,
                path: r.findings@[i].reproducer_path@,
            },
        ],
{
    assert(finding_views(r.findings@)[i] == r.findings@[i]@);
}

/// A run that failed, whatever the error, is reported as a single failing
/// check of critical severity named `fuzz::<target>`, with the error's
/// message as detail: a failure is never reported as a pass.
pub proof fn lemma_failure_reported_critical(target: Seq<char>, version: Seq<char>, e: FuzzError)
    ensures
        failure_report(target, version, e).checks.len() == 1,
        failure_report(target, version, e).checks[0].name == "fuzz::"@ + target,
        failure_report(target, version, e).checks[0].verdict == CheckVerdict::Fail,
        failure_report(target, version, e).checks[0].severity == Some(Severity::Critical),
        failure_report(target, version, e).checks[0].detail == Some(error_message(e)),
        failure_report(target, version, e).subject == target,
        failure_report(target, version, e).subject_version == version,
{
}

/// The report of a run's outcome, as `FuzzProducer::report_for` builds it:
/// the result's own report, or the failure report of the error.
pub open spec fn outcome_report(
    target: Seq<char>,
    version: Seq<char>,
    outcome: Result<FuzzResult, FuzzError>,
) -> ReportModel {
    match outcome {
        Ok(res) => result_report(res),
        Err(e) => failure_report(target, version, e),
    }
}

/// Some check of the report fails.
pub open spec fn has_failing_check(m: ReportModel) -> bool {
    exists|i: int| 0 <= i < m.checks.len() && (#[trigger] m.checks[i]).verdict == CheckVerdict::Fail
}

/// The report of a run's outcome holds a failing check exactly when the run
/// failed or found something; a clean run's report holds none.
pub proof fn lemma_report_fails_iff_run_failed_or_found(
    target: Seq<char>,
    version: Seq<char>,
    outcome: Result<FuzzResult, FuzzError>,
)
    ensures
        has_failing_check(outcome_report(target, version, outcome)) <==> (outcome is Err || (
        outcome matches Ok(res) && res.findings@.len() > 0)),
{
    let m = outcome_report(target, version, outcome);
    match outcome {
        Ok(res) => {
            if res.findings@.len() > 0 {
                lemma_finding_reported_with_summary(res, 0);
                assert(m.checks[0].verdict == CheckVerdict::Fail);
            } else {
                assert(finding_views(res.findings@).len() == 0);
                assert(m.checks == seq![clean_run_check(res.target@, res.executions)]);
                assert forall|i: int| 0 <= i < m.checks.len() implies (
                #[trigger] m.checks[i]).verdict != CheckVerdict::Fail by {}
            }
        },
        Err(e) => {
            assert(m.checks[0].verdict == CheckVerdict::Fail);
        },
    }
}

/// Results that agree on target, version, execution count and findings give
/// the same report (timestamps aside).
pub proof fn lemma_report_deterministic(a: FuzzResult, b: FuzzResult)
    requires
        a.target@ == b.target@,
        a.version@ == b.version@,
        a.executions == b.executions,
        finding_views(a.findings@) == finding_views(b.findings@),
    ensures
        result_report(a) == result_report(b),
{
}

/// Builds the report of a run that failed with `e`.
pub(crate) fn failure_report_for(target: &str, version: &str, e: &FuzzError) -> (r: Report)
    ensures
        report_contents(r) == failure_report(target@, version@, *e),
{
    let r0 = new_report(target, version);
    let mut report = report_with_producer(r0, "dev-fuzz");
    let mut name = String::from_str("fuzz::");
    name.append(target);
    let c0 = check_fail(name.as_str(), Severity::Critical);
    let c1 = check_with_detail(c0, e.message());
    let c2 = check_with_tag(c1, "fuzz");
    let c3 = check_with_tag(c2, "subprocess");
    assert(check_contents(c3).tags =~= seq!["fuzz"@, "subprocess"@]);
    assert(check_contents(c3) == failure_report(target@, version@, *e).checks[0]);
    report_push(&mut report, c3);
    assert(report_contents(report).checks =~= failure_report(target@, version@, *e).checks);
    report_finish(&mut report);
    report
}

} // verus!
