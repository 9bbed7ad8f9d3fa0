//! Report production for a configured run.

use dev_report::Report;

use vstd::prelude::*;

use crate::config::FuzzRun;
use crate::findings::{FuzzError, FuzzResult};
use crate::report::{
    failure_report, failure_report_for, outcome_report, report_contents, result_report,
};

verus! {

/// Drives a [`FuzzRun`] and turns its outcome into a `dev_report::Report`.
///
/// A run that fails (missing tool, missing nightly, missing target, harness
/// error) gives a report with a single failing critical check named
/// `fuzz::<target>`; nothing panics.
pub struct FuzzProducer {
    run: FuzzRun,
}

impl FuzzProducer {
    /// Build a producer that drives the given run.
    pub fn new(run: FuzzRun) -> (r: Self)
        ensures
            r.run_config()@ == run@,
    {
        FuzzProducer { run }
    }

    /// The run this producer drives.
    pub closed spec fn run_config(&self) -> FuzzRun {
        self.run
    }

    /// The run this producer drives.
    pub fn run(&self) -> (r: &FuzzRun)
        ensures
            r@ == self.run_config()@,
    {
        &self.run
    }

    /// The report for the outcome of the run: the result's own report, or
    /// the failure report of the error for the run's target and version.
    pub fn report_for(&self, outcome: Result<FuzzResult, FuzzError>) -> (r: Report)
        ensures
            outcome matches Ok(res) ==> report_contents(r) == result_report(res),
            outcome matches Err(e) ==> report_contents(r) == failure_report(
                self.run_config()@.target,
                self.run_config()@.version,
                e,
            ),
            report_contents(r) == outcome_report(
                self.run_config()@.target,
                self.run_config()@.version,
                outcome,
            ),
    {
        match outcome {
            Ok(res) => res.into_report(),
            Err(e) => failure_report_for(self.run.target_name(), self.run.subject_version(), &e),
        }
    }
}

} // verus!
