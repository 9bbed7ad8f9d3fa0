//! Finding kinds, the severity policy, sanitizers and run budgets.

use std::time::Duration;

use vstd::prelude::*;

use crate::text::{decimal, decimal_string};

verus! {

// ---------------------------------------------------------------------------
// Severity
// ---------------------------------------------------------------------------

/// Severity of a check, from least to most severe.
///
/// The variants mirror `dev_report::Severity`; reports are built with the
/// corresponding `dev_report` value.
#[derive(Debug, Clone, Copy, PartialEq, Eq, Structural)]
pub enum Severity {
    /// Informational.
    Info,
    /// Worth a look.
    Warning,
    /// A real problem.
    Error,
    /// A problem that must be fixed first.
    Critical,
}

/// Rank of a severity: `Info` < `Warning` < `Error` < `Critical`.
pub open spec fn severity_rank(s: Severity) -> nat {
    match s {
        Severity::Info => 0,
        Severity::Warning => 1,
        Severity::Error => 2,
        Severity::Critical => 3,
    }
}

/// Rank of a severity: `Info` < `Warning` < `Error` < `Critical`.
pub(crate) fn severity_ord(s: Severity) -> (r: u8)
    ensures
        r as nat == severity_rank(s),
{
    match s {
        Severity::Info => 0,
        Severity::Warning => 1,
        Severity::Error => 2,
        Severity::Critical => 3,
    }
}

/// Two severities of equal rank are equal.
pub proof fn lemma_severity_rank_injective(a: Severity, b: Severity)
    ensures
        severity_rank(a) == severity_rank(b) <==> a == b,
{
}

// ---------------------------------------------------------------------------
// FuzzFindingKind
// ---------------------------------------------------------------------------

/// Type of finding discovered during a fuzz run.
#[derive(Debug, Clone, Copy, PartialEq, Eq, Structural)]
pub enum FuzzFindingKind {
    /// A crash (panic, signal, libFuzzer "deadly signal").
    Crash,
    /// libFuzzer reported the input exceeded the per-execution timeout.
    Timeout,
    /// libFuzzer reported the input exceeded the configured memory limit.
    OutOfMemory,
}

/// The severity policy: crash is critical, out-of-memory an error, timeout
/// a warning.
pub open spec fn kind_severity(k: FuzzFindingKind) -> Severity {
    match k {
        FuzzFindingKind::Crash => Severity::Critical,
        FuzzFindingKind::OutOfMemory => Severity::Error,
        FuzzFindingKind::Timeout => Severity::Warning,
    }
}

/// The short label of each kind.
pub open spec fn kind_label(k: FuzzFindingKind) -> Seq<char> {
    match k {
        FuzzFindingKind::Crash => "crash"@,
        FuzzFindingKind::Timeout => "timeout"@,
        FuzzFindingKind::OutOfMemory => "oom"@,
    }
}

impl FuzzFindingKind {
    /// Severity of this kind of finding, per the severity policy.
    pub fn severity(self) -> (r: Severity)
        ensures
            r == kind_severity(self),
    {
        match self {
            FuzzFindingKind::Crash => Severity::Critical,
            FuzzFindingKind::OutOfMemory => Severity::Error,
            FuzzFindingKind::Timeout => Severity::Warning,
        }
    }

    /// Lowercase short label (`crash`, `timeout`, `oom`), used in check
    /// names and as a tag.
    pub fn label(self) -> (r: &'static str)
        ensures
            r@ == kind_label(self),
    {
        match self {
            FuzzFindingKind::Crash => "crash",
            FuzzFindingKind::Timeout => "timeout",
            FuzzFindingKind::OutOfMemory => "oom",
        }
    }
}

// ---------------------------------------------------------------------------
// Sanitizer
// ---------------------------------------------------------------------------

/// Which sanitizer to enable on the fuzz target build.
#[derive(Debug, Clone, Copy, PartialEq, Eq, Structural)]
pub enum Sanitizer {
    /// AddressSanitizer (the default of `cargo fuzz`).
    Address,
    /// LeakSanitizer.
    Leak,
    /// MemorySanitizer.
    Memory,
    /// ThreadSanitizer.
    Thread,
    /// No sanitizer.
    NoSanitizer,
}

/// The value `cargo fuzz run --sanitizer` takes for each sanitizer.
pub open spec fn sanitizer_flag(s: Sanitizer) -> Seq<char> {
    match s {
        Sanitizer::Address => "address"@,
        Sanitizer::Leak => "leak"@,
        Sanitizer::Memory => "memory"@,
        Sanitizer::Thread => "thread"@,
        Sanitizer::NoSanitizer => "none"@,
    }
}

impl Sanitizer {
    /// The value passed to `cargo fuzz run --sanitizer`.
    pub fn as_cargo_fuzz_flag(self) -> (r: &'static str)
        ensures
            r@ == sanitizer_flag(self),
    {
        match self {
            Sanitizer::Address => "address",
            Sanitizer::Leak => "leak",
            Sanitizer::Memory => "memory",
            Sanitizer::Thread => "thread",
            Sanitizer::NoSanitizer => "none",
        }
    }
}

// ---------------------------------------------------------------------------
// Durations
// ---------------------------------------------------------------------------

/// The whole seconds of `d`, as `Duration::as_secs` returns them.
pub uninterp spec fn duration_secs(d: Duration) -> u64;

/// Calls `Duration::as_secs`, which returns the number of whole seconds in
/// `d` (the fractional part is dropped); the result is named `duration_secs`.
#[verifier::external_body]
pub(crate) fn whole_secs(d: &Duration) -> (r: u64)
    ensures
        r == duration_secs(*d),
{
    d.as_secs()
}

/// The fractional part of `d` in nanoseconds, as `Duration::subsec_nanos`
/// returns it.
pub uninterp spec fn duration_subsec_nanos(d: Duration) -> u32;

/// Calls `Duration::from_secs`, which builds a duration of exactly `n`
/// seconds: its whole seconds are `n` and its fractional part is zero.
#[verifier::external_body]
pub(crate) fn duration_from_secs(n: u64) -> (r: Duration)
    ensures
        duration_secs(r) == n,
        duration_subsec_nanos(r) == 0,
{
    Duration::from_secs(n)
}

// ---------------------------------------------------------------------------
// FuzzBudget
// ---------------------------------------------------------------------------

/// Budget for a fuzz run.
#[derive(Debug, Clone, Copy)]
pub enum FuzzBudget {
    /// Run for the given wall-clock duration (`-max_total_time=<secs>`).
    Time(Duration),
    /// Run for the given number of executions (`-runs=<N>`).
    Executions(u64),
}

/// The larger of `a` and `b`.
pub open spec fn max_u64(a: u64, b: u64) -> u64 {
    if a >= b {
        a
    } else {
        b
    }
}

/// The libFuzzer flag of a budget: whole seconds, at least one, for a time
/// budget; the execution count for an execution budget.
pub open spec fn budget_flag(b: FuzzBudget) -> Seq<char> {
    match b {
        FuzzBudget::Time(d) => "-max_total_time="@ + decimal(max_u64(duration_secs(d), 1) as nat),
        FuzzBudget::Executions(n) => "-runs="@ + decimal(n as nat),
    }
}

impl FuzzBudget {
    /// Build a time-based budget.
    pub fn time(d: Duration) -> (r: Self)
        ensures
            r == FuzzBudget::Time(d),
    {
        FuzzBudget::Time(d)
    }

    /// Build an execution-count budget.
    pub fn executions(n: u64) -> (r: Self)
        ensures
            r == FuzzBudget::Executions(n),
    {
        FuzzBudget::Executions(n)
    }

    /// libFuzzer flag for this budget.
    pub fn as_libfuzzer_flag(&self) -> (r: String)
        ensures
            r@ == budget_flag(*self),
    {
        match self {
            FuzzBudget::Time(d) => {
                let secs = whole_secs(d);
                let secs = if secs >= 1 {
                    secs
                } else {
                    1
                };
                let mut s = String::from_str("-max_total_time=");
                let digits = decimal_string(secs);
                s.append(digits.as_str());
                s
            },
            FuzzBudget::Executions(n) => {
                let mut s = String::from_str("-runs=");
                let digits = decimal_string(*n);
                s.append(digits.as_str());
                s
            },
        }
    }
}

} // verus!
