use dev_fuzz::{FuzzFinding, FuzzFindingKind, FuzzResult};
use dev_report::Severity;

#[test]
fn empty_findings_passes_with_executions_evidence() {
    let r = FuzzResult {
        target: "parse".into(),
        version: "0.1.0".into(),
        executions: 1_000_000,
        findings: Vec::new(),
    };
    let report = r.into_report();
    assert!(report.passed());
    assert_eq!(report.checks.len(), 1);
    let c = &report.checks[0];
    assert!(c.has_tag("fuzz"));
    assert!(c.evidence.iter().any(|e| e.label == "executions"));
}

#[test]
fn crash_finding_is_critical() {
    let r = FuzzResult {
        target: "parse".into(),
        version: "0.1.0".into(),
        executions: 500,
        findings: vec![FuzzFinding {
            kind: FuzzFindingKind::Crash,
            reproducer_path: "fuzz/artifacts/parse/crash-deadbeef".into(),
            summary: "panic in parse_input".into(),
        }],
    };
    let report = r.into_report();
    assert!(report.failed());
    assert_eq!(report.checks[0].severity, Some(Severity::Critical));
    assert!(report.checks[0].has_tag("crash"));
}

#[test]
fn each_kind_produces_one_check() {
    let r = FuzzResult {
        target: "p".into(),
        version: "0.1.0".into(),
        executions: 10,
        findings: vec![
            FuzzFinding {
                kind: FuzzFindingKind::Crash,
                reproducer_path: "a".into(),
                summary: "x".into(),
            },
            FuzzFinding {
                kind: FuzzFindingKind::OutOfMemory,
                reproducer_path: "b".into(),
                summary: "x".into(),
            },
            FuzzFinding {
                kind: FuzzFindingKind::Timeout,
                reproducer_path: "c".into(),
                summary: "x".into(),
            },
        ],
    };
    let report = r.into_report();
    assert_eq!(report.checks.len(), 3);
    assert!(report
        .checks
        .iter()
        .any(|c| c.severity == Some(Severity::Critical)));
    assert!(report
        .checks
        .iter()
        .any(|c| c.severity == Some(Severity::Error)));
    assert!(report
        .checks
        .iter()
        .any(|c| c.severity == Some(Severity::Warning)));
}
