use std::time::Duration;

use dev_fuzz::{
    FuzzBudget, FuzzFinding, FuzzFindingKind, FuzzResult, FuzzRun, Sanitizer, Severity,
};

#[test]
fn finding_kind_severity_mapping_matches_reps() {
    assert_eq!(FuzzFindingKind::Crash.severity(), Severity::Critical);
    assert_eq!(FuzzFindingKind::OutOfMemory.severity(), Severity::Error);
    assert_eq!(FuzzFindingKind::Timeout.severity(), Severity::Warning);
}

#[test]
fn finding_kind_labels_are_stable() {
    assert_eq!(FuzzFindingKind::Crash.label(), "crash");
    assert_eq!(FuzzFindingKind::OutOfMemory.label(), "oom");
    assert_eq!(FuzzFindingKind::Timeout.label(), "timeout");
}

#[test]
fn budget_as_libfuzzer_flag() {
    assert_eq!(
        FuzzBudget::time(Duration::from_secs(60)).as_libfuzzer_flag(),
        "-max_total_time=60"
    );
    assert_eq!(
        FuzzBudget::time(Duration::from_millis(500)).as_libfuzzer_flag(),
        "-max_total_time=1"
    );
    assert_eq!(
        FuzzBudget::executions(1_000_000).as_libfuzzer_flag(),
        "-runs=1000000"
    );
}

#[test]
fn sanitizer_flag_values() {
    assert_eq!(Sanitizer::Address.as_cargo_fuzz_flag(), "address");
    assert_eq!(Sanitizer::Leak.as_cargo_fuzz_flag(), "leak");
    assert_eq!(Sanitizer::Memory.as_cargo_fuzz_flag(), "memory");
    assert_eq!(Sanitizer::Thread.as_cargo_fuzz_flag(), "thread");
    assert_eq!(Sanitizer::NoSanitizer.as_cargo_fuzz_flag(), "none");
}

#[test]
fn run_builder_chains() {
    let run = FuzzRun::new("parse", "0.1.0")
        .budget(FuzzBudget::time(Duration::from_secs(30)))
        .sanitizer(Sanitizer::Memory)
        .timeout_per_iter(Duration::from_secs(5))
        .rss_limit_mb(2048)
        .allow("crash-deadbeef")
        .allow_all(["crash-cafebabe", "timeout-abc"]);
    assert_eq!(run.target_name(), "parse");
    assert_eq!(run.subject_version(), "0.1.0");
    assert_eq!(run.sanitizer_kind(), Sanitizer::Memory);
    assert_eq!(run.rss_limit_value(), Some(2048));
    assert_eq!(run.allow_list_view().len(), 3);
}

#[test]
fn count_of_filters_by_kind() {
    let r = FuzzResult {
        target: "p".into(),
        version: "0.1.0".into(),
        executions: 0,
        findings: vec![
            FuzzFinding {
                kind: FuzzFindingKind::Crash,
                reproducer_path: "a".into(),
                summary: "x".into(),
            },
            FuzzFinding {
                kind: FuzzFindingKind::Crash,
                reproducer_path: "b".into(),
                summary: "x".into(),
            },
            FuzzFinding {
                kind: FuzzFindingKind::Timeout,
                reproducer_path: "c".into(),
                summary: "x".into(),
            },
        ],
    };
    assert_eq!(r.count_of(FuzzFindingKind::Crash), 2);
    assert_eq!(r.count_of(FuzzFindingKind::Timeout), 1);
    assert_eq!(r.count_of(FuzzFindingKind::OutOfMemory), 0);
    assert_eq!(r.total_findings(), 3);
}

#[test]
fn worst_severity_picks_max() {
    let r = FuzzResult {
        target: "p".into(),
        version: "0.1.0".into(),
        executions: 0,
        findings: vec![
            FuzzFinding {
                kind: FuzzFindingKind::Timeout,
                reproducer_path: "a".into(),
                summary: "x".into(),
            },
            FuzzFinding {
                kind: FuzzFindingKind::Crash,
                reproducer_path: "b".into(),
                summary: "x".into(),
            },
        ],
    };
    assert_eq!(r.worst_severity(), Some(Severity::Critical));
    let empty = FuzzResult {
        target: "p".into(),
        version: "0.1.0".into(),
        executions: 0,
        findings: Vec::new(),
    };
    assert_eq!(empty.worst_severity(), None);
}
