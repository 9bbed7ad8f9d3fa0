use dev_fuzz::{
    apply_allow_list, extract_reproducer_path, parse_executions, parse_findings, summary_kind,
    FuzzFinding, FuzzFindingKind,
};

#[test]
fn parses_a_deadly_signal_crash() {
    let stderr = "==1234== ERROR: libFuzzer: deadly signal\n  some backtrace\nSUMMARY: libFuzzer: deadly signal\nartifact_prefix='./fuzz/artifacts/parse/'; Test unit written to ./fuzz/artifacts/parse/crash-deadbeef\n";
    let findings = parse_findings(stderr);
    assert_eq!(findings.len(), 1);
    assert_eq!(findings[0].kind, FuzzFindingKind::Crash);
    assert_eq!(
        findings[0].reproducer_path,
        "./fuzz/artifacts/parse/crash-deadbeef"
    );
    assert!(findings[0]
        .summary
        .contains("ERROR: libFuzzer: deadly signal"));
}

#[test]
fn parses_a_timeout() {
    let stderr = "==1234== ERROR: libFuzzer: timeout after 25 seconds\nSUMMARY: libFuzzer: timeout\nTest unit written to ./fuzz/artifacts/parse/timeout-abcdef\n";
    let findings = parse_findings(stderr);
    assert_eq!(findings.len(), 1);
    assert_eq!(findings[0].kind, FuzzFindingKind::Timeout);
}

#[test]
fn parses_an_oom() {
    let stderr = "==1234== libFuzzer: out-of-memory (used: 2049Mb; limit: 2048Mb)\nSUMMARY: libFuzzer: out-of-memory\nTest unit written to ./fuzz/artifacts/parse/oom-cafe\n";
    let findings = parse_findings(stderr);
    assert_eq!(findings.len(), 1);
    assert_eq!(findings[0].kind, FuzzFindingKind::OutOfMemory);
    assert_eq!(
        findings[0].reproducer_path,
        "./fuzz/artifacts/parse/oom-cafe"
    );
}

#[test]
fn parses_a_panic_summary() {
    let stderr = "thread '<unnamed>' panicked at 'assertion failed', src/lib.rs:42\nSUMMARY: libFuzzer: deadly signal\nTest unit written to ./fuzz/artifacts/parse/crash-1\n";
    let findings = parse_findings(stderr);
    assert_eq!(findings.len(), 1);
    assert!(findings[0].summary.contains("panicked"));
}

#[test]
fn no_summary_means_no_findings() {
    let stderr = "#1\tNEW    cov: 100 ft: 100 corp: 1/1b ...\n#1000\tpulse  cov: 100 ft: 100 corp: 1/1b ...\nDone 1000000 in 60s\n";
    assert!(parse_findings(stderr).is_empty());
}

#[test]
fn execution_count_takes_the_max_status_line() {
    let stderr = "#1\tINITED cov: 12 ft: 12 corp: 1/1b\n#10\tNEW    cov: 13 ft: 13 corp: 2/2b\n#1024\tpulse  cov: 14 ft: 14 corp: 3/3b\n#1234567\tDONE   cov: 14 ft: 14 corp: 3/3b\n";
    assert_eq!(parse_executions(stderr), Some(1_234_567));
}

#[test]
fn execution_count_returns_none_when_absent() {
    assert_eq!(parse_executions("no status lines here"), None);
}

#[test]
fn reproducer_path_emitted_before_summary_still_picked_up() {
    let stderr = "Test unit written to ./fuzz/artifacts/parse/crash-before\n==1234== ERROR: libFuzzer: deadly signal\nSUMMARY: libFuzzer: deadly signal\n";
    let findings = parse_findings(stderr);
    assert_eq!(findings.len(), 1);
    assert_eq!(
        findings[0].reproducer_path,
        "./fuzz/artifacts/parse/crash-before"
    );
}

#[test]
fn missing_reproducer_path_falls_back_to_unknown_marker() {
    let stderr = "==1234== ERROR: libFuzzer: deadly signal\nSUMMARY: libFuzzer: deadly signal\n";
    let findings = parse_findings(stderr);
    assert_eq!(findings.len(), 1);
    assert!(findings[0].reproducer_path.contains("unknown"));
}

#[test]
fn multiple_summaries_produce_multiple_findings() {
    let stderr = "SUMMARY: libFuzzer: deadly signal\nTest unit written to ./fuzz/artifacts/parse/crash-1\nSUMMARY: libFuzzer: timeout\nTest unit written to ./fuzz/artifacts/parse/timeout-1\n";
    let findings = parse_findings(stderr);
    assert_eq!(findings.len(), 2);
    assert_eq!(findings[0].kind, FuzzFindingKind::Crash);
    assert_eq!(findings[1].kind, FuzzFindingKind::Timeout);
}

#[test]
fn allow_list_filters_by_basename() {
    let mut findings = vec![
        FuzzFinding {
            kind: FuzzFindingKind::Crash,
            reproducer_path: "./fuzz/artifacts/parse/crash-deadbeef".into(),
            summary: "x".into(),
        },
        FuzzFinding {
            kind: FuzzFindingKind::Crash,
            reproducer_path: "./fuzz/artifacts/parse/crash-cafebabe".into(),
            summary: "x".into(),
        },
    ];
    apply_allow_list(&mut findings, &["crash-deadbeef".to_string()]);
    assert_eq!(findings.len(), 1);
    assert!(findings[0].reproducer_path.ends_with("crash-cafebabe"));
}

#[test]
fn empty_allow_list_is_a_noop() {
    let mut findings = vec![FuzzFinding {
        kind: FuzzFindingKind::Crash,
        reproducer_path: "a".into(),
        summary: "x".into(),
    }];
    apply_allow_list(&mut findings, &[]);
    assert_eq!(findings.len(), 1);
}

#[test]
fn extract_reproducer_path_handles_quoted_artifact_prefix() {
    let line = "artifact_prefix='./fuzz/artifacts/p/'; Test unit written to ./fuzz/artifacts/p/crash-1";
    assert_eq!(
        extract_reproducer_path(line).as_deref(),
        Some("./fuzz/artifacts/p/crash-1")
    );
}

#[test]
fn summary_kind_recognizes_each_variant() {
    assert_eq!(
        summary_kind("SUMMARY: libFuzzer: deadly signal"),
        Some(FuzzFindingKind::Crash)
    );
    assert_eq!(
        summary_kind("SUMMARY: libFuzzer: timeout"),
        Some(FuzzFindingKind::Timeout)
    );
    assert_eq!(
        summary_kind("SUMMARY: libFuzzer: out-of-memory"),
        Some(FuzzFindingKind::OutOfMemory)
    );
    assert_eq!(
        summary_kind("SUMMARY: libFuzzer: weird new mode"),
        Some(FuzzFindingKind::Crash)
    );
    assert_eq!(summary_kind("not a summary line"), None);
}
