//! Fuzzing harness integration: configuration of libFuzzer runs, the
//! libFuzzer stderr parser, the severity policy and the conversion of
//! findings into `dev_report` reports.

mod config;
mod findings;
mod kinds;
mod parse;
mod producer;
mod report;
mod runner;
mod text;

pub use config::{FuzzRun, FuzzRunView};
pub use findings::{FindingView, FuzzError, FuzzFinding, FuzzResult};
pub use kinds::{FuzzBudget, FuzzFindingKind, Sanitizer, Severity};
pub use parse::{extract_reproducer_path, parse_executions, parse_findings, summary_kind};
pub use producer::FuzzProducer;
pub use report::{CheckModel, CheckVerdict, EvidenceModel, ReportModel};
pub use runner::{
    accepts, apply_allow_list, filter_by_basenames, has_nightly_toolchain, lists_fuzz_target, RunAction,
    RunEvent, RunStage,
};
pub use text::{chars_of, string_of};
