use std::path::PathBuf;
use std::time::Duration;

use dev_fuzz::{
    accepts, apply_allow_list, chars_of, filter_by_basenames, has_nightly_toolchain, lists_fuzz_target, parse_executions,
    parse_findings, string_of, summary_kind, FuzzBudget, FuzzError, FuzzFinding,
    FuzzFindingKind, FuzzProducer, FuzzResult, FuzzRun, RunAction, RunEvent, RunStage, Sanitizer,
    Severity,
};
use dev_report::{EvidenceData, Verdict};

fn finding(kind: FuzzFindingKind, path: &str, summary: &str) -> FuzzFinding {
    FuzzFinding {
        kind,
        reproducer_path: path.to_string(),
        summary: summary.to_string(),
    }
}

fn result_with(findings: Vec<FuzzFinding>) -> FuzzResult {
    FuzzResult {
        target: "parse".into(),
        version: "1.2.3".into(),
        executions: 77,
        findings,
    }
}

#[test]
fn worst_severity_of_oom_and_timeout_is_error() {
    let r = result_with(vec![
        finding(FuzzFindingKind::Timeout, "a", "x"),
        finding(FuzzFindingKind::OutOfMemory, "b", "x"),
        finding(FuzzFindingKind::Timeout, "c", "x"),
    ]);
    assert_eq!(r.worst_severity(), Some(Severity::Error));
}

#[test]
fn per_kind_counts_add_up_to_total() {
    let r = result_with(vec![
        finding(FuzzFindingKind::Timeout, "a", "x"),
        finding(FuzzFindingKind::OutOfMemory, "b", "x"),
        finding(FuzzFindingKind::Crash, "c", "x"),
        finding(FuzzFindingKind::Crash, "d", "x"),
    ]);
    let sum = r.count_of(FuzzFindingKind::Crash)
        + r.count_of(FuzzFindingKind::Timeout)
        + r.count_of(FuzzFindingKind::OutOfMemory);
    assert_eq!(sum, r.total_findings());
    assert_eq!(r.count_of(FuzzFindingKind::Crash), 2);
}

#[test]
fn clean_run_report_has_exact_check() {
    let mut r = result_with(Vec::new());
    r.executions = 1_000_000;
    let report = r.into_report();
    assert_eq!(report.subject, "parse");
    assert_eq!(report.subject_version, "1.2.3");
    assert_eq!(report.producer.as_deref(), Some("dev-fuzz"));
    assert!(report.finished_at.is_some());
    assert_eq!(report.checks.len(), 1);
    let c = &report.checks[0];
    assert_eq!(c.name, "fuzz::parse");
    assert_eq!(c.verdict, Verdict::Pass);
    assert_eq!(c.severity, None);
    assert_eq!(c.detail.as_deref(), Some("1000000 executions, 0 findings"));
    assert_eq!(c.tags, vec!["fuzz".to_string()]);
    assert_eq!(c.evidence.len(), 1);
    assert_eq!(c.evidence[0].label, "executions");
    assert_eq!(c.evidence[0].data, EvidenceData::Numeric(1_000_000.0));
}

#[test]
fn finding_report_has_exact_checks() {
    let r = result_with(vec![
        finding(FuzzFindingKind::OutOfMemory, "fuzz/artifacts/parse/oom-1", "too big"),
        finding(FuzzFindingKind::Timeout, "fuzz/artifacts/parse/timeout-2", "slow"),
    ]);
    let report = r.into_report();
    assert_eq!(report.checks.len(), 2);
    let c = &report.checks[0];
    assert_eq!(c.name, "fuzz::parse::oom");
    assert_eq!(c.verdict, Verdict::Fail);
    assert_eq!(c.severity, Some(dev_report::Severity::Error));
    assert_eq!(c.detail.as_deref(), Some("too big"));
    assert_eq!(c.tags, vec!["fuzz".to_string(), "oom".to_string()]);
    assert_eq!(c.evidence.len(), 1);
    assert_eq!(c.evidence[0].label, "reproducer");
    match &c.evidence[0].data {
        EvidenceData::FileRef(f) => assert_eq!(f.path, "fuzz/artifacts/parse/oom-1"),
        other => panic!("unexpected evidence {other:?}"),
    }
    let c = &report.checks[1];
    assert_eq!(c.name, "fuzz::parse::timeout");
    assert_eq!(c.severity, Some(dev_report::Severity::Warning));
    assert_eq!(c.tags, vec!["fuzz".to_string(), "timeout".to_string()]);
}

#[test]
fn producer_reports_errors_as_one_critical_check() {
    let producer = FuzzProducer::new(FuzzRun::new("nonexistent_target", "0.0.0"));
    let report = producer.report_for(Err(FuzzError::ToolNotInstalled));
    assert_eq!(report.subject, "nonexistent_target");
    assert_eq!(report.subject_version, "0.0.0");
    assert_eq!(report.checks.len(), 1);
    let c = &report.checks[0];
    assert_eq!(c.name, "fuzz::nonexistent_target");
    assert_eq!(c.verdict, Verdict::Fail);
    assert_eq!(c.severity, Some(dev_report::Severity::Critical));
    assert_eq!(
        c.detail.as_deref(),
        Some("cargo-fuzz is not installed; run `cargo install cargo-fuzz`")
    );
    assert_eq!(c.tags, vec!["fuzz".to_string(), "subprocess".to_string()]);
    assert!(report.failed());
}

#[test]
fn producer_reports_results_as_their_own_report() {
    let producer = FuzzProducer::new(FuzzRun::new("parse", "1.2.3"));
    assert_eq!(producer.run().target_name(), "parse");
    let report = producer.report_for(Ok(result_with(Vec::new())));
    assert!(report.passed());
    assert_eq!(report.checks[0].name, "fuzz::parse");
}

#[test]
fn error_messages() {
    assert_eq!(
        FuzzError::NightlyRequired.message(),
        "nightly Rust required; run `rustup toolchain install nightly`"
    );
    assert_eq!(
        FuzzError::SubprocessFailed("boom".into()).message(),
        "cargo fuzz failed: boom"
    );
    assert_eq!(
        FuzzError::TargetNotFound("parse".into()).message(),
        "fuzz target not found: parse"
    );
}

#[test]
fn time_budget_flag_uses_whole_seconds_at_least_one() {
    assert_eq!(
        FuzzBudget::time(Duration::from_secs(0)).as_libfuzzer_flag(),
        "-max_total_time=1"
    );
    assert_eq!(
        FuzzBudget::time(Duration::from_millis(90_500)).as_libfuzzer_flag(),
        "-max_total_time=90"
    );
    assert_eq!(FuzzBudget::executions(0).as_libfuzzer_flag(), "-runs=0");
}

#[test]
fn new_run_defaults() {
    let run = FuzzRun::new("t", "v");
    assert_eq!(run.sanitizer_kind(), Sanitizer::Address);
    assert_eq!(run.timeout_per_iter_value(), None);
    assert_eq!(run.rss_limit_value(), None);
    assert!(run.allow_list_view().is_empty());
    assert!(run.workdir_path().is_none());
    let run = run.in_dir(PathBuf::from("fuzzdir"));
    assert_eq!(run.workdir_path(), Some(&PathBuf::from("fuzzdir")));
    assert_eq!(run.target_name(), "t");
}

#[test]
fn cargo_fuzz_arguments() {
    let run = FuzzRun::new("parse", "0.1.0");
    assert_eq!(
        run.cargo_fuzz_args(),
        vec![
            "+nightly",
            "fuzz",
            "run",
            "--sanitizer",
            "address",
            "parse",
            "--",
            "-max_total_time=60"
        ]
    );
    let run = run
        .sanitizer(Sanitizer::NoSanitizer)
        .budget(FuzzBudget::executions(5))
        .timeout_per_iter(Duration::from_millis(200))
        .rss_limit_mb(2048);
    assert_eq!(
        run.cargo_fuzz_args(),
        vec![
            "+nightly",
            "fuzz",
            "run",
            "--sanitizer",
            "none",
            "parse",
            "--",
            "-runs=5",
            "-timeout=1",
            "-rss_limit_mb=2048"
        ]
    );
}

fn finish(action: RunAction) -> Result<FuzzResult, FuzzError> {
    match action {
        RunAction::Finish(r) => r,
        _ => panic!("expected the run to finish"),
    }
}

#[test]
fn step_probes_then_lists_then_launches() {
    let run = FuzzRun::new("parse", "0.1.0");
    let (s, a) = run.step(RunStage::Start, RunEvent::Begin);
    assert_eq!(s, RunStage::AwaitTool);
    assert!(matches!(a, RunAction::ProbeTool));
    let (s, a) = run.step(s, RunEvent::ToolProbed { succeeded: true });
    assert_eq!(s, RunStage::AwaitToolchains);
    assert!(matches!(a, RunAction::ListToolchains));
    let listing = "stable-x86_64-unknown-linux-gnu (default)\nnightly-x86_64-unknown-linux-gnu\n";
    let (s, a) = run.step(
        s,
        RunEvent::ToolchainsListed {
            listing: Some(listing.into()),
        },
    );
    assert_eq!(s, RunStage::AwaitTargets);
    assert!(matches!(a, RunAction::ListTargets));
    let (s, a) = run.step(
        s,
        RunEvent::TargetsListed {
            listing: Some("other\n  parse  \n".into()),
        },
    );
    assert_eq!(s, RunStage::AwaitFuzzer);
    match a {
        RunAction::Launch(args) => assert_eq!(args, run.cargo_fuzz_args()),
        _ => panic!("expected a launch"),
    }
    let (s, a) = run.step(
        s,
        RunEvent::FuzzerExited {
            success: false,
            stdout: String::new(),
            stderr: "#10 pulse\nSUMMARY: libFuzzer: timeout\nTest unit written to t-1\n".into(),
        },
    );
    assert_eq!(s, RunStage::Done);
    let res = finish(a).unwrap();
    assert_eq!(res.executions, 10);
    assert_eq!(res.findings.len(), 1);
    assert_eq!(res.findings[0].reproducer_path, "t-1");
}

#[test]
fn step_errors() {
    let run = FuzzRun::new("parse", "0.1.0");
    let (s, a) = run.step(RunStage::AwaitTool, RunEvent::ToolProbed { succeeded: false });
    assert_eq!(s, RunStage::Done);
    assert!(matches!(finish(a), Err(FuzzError::ToolNotInstalled)));
    let (_, a) = run.step(
        RunStage::AwaitToolchains,
        RunEvent::ToolchainsListed { listing: None },
    );
    assert!(matches!(finish(a), Err(FuzzError::NightlyRequired)));
    let (_, a) = run.step(
        RunStage::AwaitToolchains,
        RunEvent::ToolchainsListed {
            listing: Some("stable-x86_64\n  nightly-indented\n".into()),
        },
    );
    assert!(matches!(finish(a), Err(FuzzError::NightlyRequired)));
    let (_, a) = run.step(
        RunStage::AwaitTargets,
        RunEvent::TargetsListed {
            listing: Some("parser\nother\n".into()),
        },
    );
    match finish(a) {
        Err(FuzzError::TargetNotFound(t)) => assert_eq!(t, "parse"),
        _ => panic!("expected TargetNotFound"),
    }
    let (s, a) = run.step(RunStage::AwaitTargets, RunEvent::TargetsListed { listing: None });
    assert_eq!(s, RunStage::AwaitFuzzer);
    assert!(matches!(a, RunAction::Launch(_)));
    let (_, a) = run.step(
        RunStage::AwaitFuzzer,
        RunEvent::LaunchFailed {
            message: "no such file".into(),
        },
    );
    match finish(a) {
        Err(FuzzError::SubprocessFailed(m)) => assert_eq!(m, "no such file"),
        _ => panic!("expected SubprocessFailed"),
    }
}

#[test]
fn failed_run_without_findings_is_a_hard_error() {
    let run = FuzzRun::new("parse", "0.1.0");
    match run.finish_run(false, "", "error: could not compile\n") {
        Err(FuzzError::SubprocessFailed(s)) => assert_eq!(s, "error: could not compile\n"),
        _ => panic!("expected SubprocessFailed"),
    }
    let ok = run.finish_run(true, "#5 DONE\n", "no status here\n").unwrap();
    assert_eq!(ok.executions, 5);
    assert!(ok.findings.is_empty());
    assert_eq!(ok.target, "parse");
    let none = run.finish_run(true, "", "").unwrap();
    assert_eq!(none.executions, 0);
}

#[test]
fn failed_run_with_only_allow_listed_findings_is_no_hard_error() {
    let run = FuzzRun::new("parse", "0.1.0").allow("crash-1");
    let stderr = "SUMMARY: libFuzzer: deadly signal\nTest unit written to ./fuzz/artifacts/parse/crash-1\n";
    let res = run.finish_run(false, "", stderr).unwrap();
    assert!(res.findings.is_empty());
    let run = FuzzRun::new("parse", "0.1.0").allow("crash-2");
    let res = run.finish_run(false, "", stderr).unwrap();
    assert_eq!(res.findings.len(), 1);
}

#[test]
fn filter_by_basenames_is_exact() {
    let findings = vec![
        finding(FuzzFindingKind::Crash, "x/a", "1"),
        finding(FuzzFindingKind::Timeout, "x/b", "2"),
        finding(FuzzFindingKind::Crash, "x/c", "3"),
    ];
    let names = vec!["a".to_string(), "b".to_string(), "c".to_string()];
    let kept = filter_by_basenames(findings, &names, &["a".to_string(), "c".to_string()]);
    assert_eq!(kept.len(), 1);
    assert_eq!(kept[0].reproducer_path, "x/b");
}

#[test]
fn listing_checks() {
    assert!(has_nightly_toolchain("nightly-2024-01-01\n"));
    assert!(!has_nightly_toolchain("stable\n beta\n"));
    assert!(!has_nightly_toolchain(""));
    assert!(lists_fuzz_target("a\r\n\tparse \r\n", "parse"));
    assert!(!lists_fuzz_target("parse_input\n", "parse"));
    assert!(!lists_fuzz_target("\n  \n", ""));
}

#[test]
fn parser_handles_crlf_and_indentation() {
    let stderr = "  ERROR: boom\r\n   SUMMARY: libFuzzer: out-of-memory (malloc)\r\nTest unit written to   oom-9  \r\n";
    let f = parse_findings(stderr);
    assert_eq!(f.len(), 1);
    assert_eq!(f[0].kind, FuzzFindingKind::OutOfMemory);
    assert_eq!(f[0].summary, "ERROR: boom");
    assert_eq!(f[0].reproducer_path, "oom-9");
}

#[test]
fn summary_without_descriptive_line_keeps_the_raw_line() {
    let stderr = "  SUMMARY: libFuzzer: timeout  \n";
    let f = parse_findings(stderr);
    assert_eq!(f[0].summary, "  SUMMARY: libFuzzer: timeout  ");
    assert_eq!(f[0].reproducer_path, "<unknown reproducer for timeout>");
}

#[test]
fn repeated_summary_prefix_is_stripped() {
    assert_eq!(
        summary_kind("SUMMARY: libFuzzer:SUMMARY: libFuzzer: timeout"),
        Some(FuzzFindingKind::Timeout)
    );
    assert_eq!(
        summary_kind("\u{a0}SUMMARY: libFuzzer:out-of-memory\u{3000}"),
        Some(FuzzFindingKind::OutOfMemory)
    );
    assert_eq!(summary_kind("SUMMARY: libFuzzer"), None);
}

#[test]
fn search_windows_are_bounded() {
    let mut stderr = String::from("ERROR: far away\n");
    for _ in 0..20 {
        stderr.push_str("noise\n");
    }
    stderr.push_str("SUMMARY: libFuzzer: deadly signal\n");
    for _ in 0..10 {
        stderr.push_str("noise\n");
    }
    stderr.push_str("Test unit written to too-late\n");
    let f = parse_findings(&stderr);
    assert_eq!(f.len(), 1);
    assert_eq!(f[0].summary, "SUMMARY: libFuzzer: deadly signal");
    assert_eq!(f[0].reproducer_path, "<unknown reproducer for crash>");
}

#[test]
fn status_lines_that_do_not_fit_are_ignored() {
    let stderr = "#99999999999999999999999 INITED\n  #42\tpulse\n#abc\n#\n";
    assert_eq!(parse_executions(stderr), Some(42));
    assert_eq!(parse_executions("#18446744073709551615 x\n#7\n"), Some(u64::MAX));
}

#[test]
fn chars_and_strings_round_trip() {
    let s = "héllo\u{1F600}";
    assert_eq!(string_of(&chars_of(s)), s);
}

#[test]
fn allow_list_matches_whole_final_component_only() {
    let mut findings = vec![
        finding(FuzzFindingKind::Crash, "./fuzz/artifacts/parse/xcrash-1", "x"),
        finding(FuzzFindingKind::Timeout, "./fuzz/artifacts/parse/crash-1", "y"),
    ];
    apply_allow_list(
        &mut findings,
        &["crash-1".to_string(), "./fuzz/artifacts/parse/xcrash-1".to_string()],
    );
    assert_eq!(findings.len(), 1);
    assert_eq!(findings[0].reproducer_path, "./fuzz/artifacts/parse/xcrash-1");
}

#[test]
fn accepts_only_the_expected_events() {
    assert!(accepts(RunStage::Start, &RunEvent::Begin));
    assert!(!accepts(RunStage::Start, &RunEvent::ToolProbed { succeeded: true }));
    assert!(accepts(
        RunStage::AwaitFuzzer,
        &RunEvent::LaunchFailed { message: String::new() }
    ));
    assert!(!accepts(RunStage::Done, &RunEvent::Begin));
}

#[test]
fn joined_texts_count_the_higher_of_their_counts() {
    let a = "#30 pulse\r";
    let b = "#12 INITED\n#7\n";
    let joined = format!("{}\n{}", a, b);
    assert_eq!(parse_executions(&joined), Some(30));
    assert_eq!(parse_executions(&format!("{}\n{}", b, a)), Some(30));
    assert_eq!(parse_executions(&format!("{}\n{}", "", b)), Some(12));
}

#[test]
fn clean_run_evidence_is_the_execution_count() {
    let mut r = result_with(Vec::new());
    r.executions = 1000;
    let report = r.into_report();
    assert_eq!(report.checks[0].evidence[0].data, EvidenceData::Numeric(1000.0));
}

#[test]
fn allow_list_basenames_follow_path_file_name() {
    let mut findings = vec![
        finding(FuzzFindingKind::Crash, "a/b/", "1"),
        finding(FuzzFindingKind::Crash, "a/..", "2"),
        finding(FuzzFindingKind::Crash, "", "3"),
        finding(FuzzFindingKind::Crash, "./x/.", "4"),
        finding(FuzzFindingKind::Crash, "c/d", "5"),
    ];
    apply_allow_list(
        &mut findings,
        &["b".to_string(), "a/..".to_string(), "".to_string(), "x".to_string()],
    );
    assert_eq!(findings.len(), 1);
    assert_eq!(findings[0].summary, "5");
}

#[test]
fn allow_names_appends_runtime_names() {
    let names = vec!["crash-1".to_string(), "timeout-2".to_string()];
    let run = FuzzRun::new("p", "v").allow("oom-0").allow_names(&names);
    assert_eq!(
        run.allow_list_view(),
        &["oom-0".to_string(), "crash-1".to_string(), "timeout-2".to_string()]
    );
}
