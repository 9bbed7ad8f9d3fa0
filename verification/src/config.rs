//! Configuration of a fuzz run.

use std::path::PathBuf;
use std::time::Duration;

use vstd::prelude::*;

use crate::kinds::{duration_from_secs, duration_secs, duration_subsec_nanos, FuzzBudget, Sanitizer};

verus! {

/// `std::path::PathBuf`, carried through unopened.
#[verifier::external_type_specification]
#[verifier::external_body]
pub struct ExPathBuf(PathBuf);

/// Configuration for a fuzz run.
#[derive(Debug, Clone)]
pub struct FuzzRun {
    target: String,
    version: String,
    budget: FuzzBudget,
    workdir: Option<PathBuf>,
    sanitizer: Sanitizer,
    timeout_per_iter: Option<Duration>,
    rss_limit_mb: Option<u32>,
    allow_list: Vec<String>,
}

/// The settings of a [`FuzzRun`], as plain values.
pub struct FuzzRunView {
    /// Target name.
    pub target: Seq<char>,
    /// Subject version.
    pub version: Seq<char>,
    /// Run budget.
    pub budget: FuzzBudget,
    /// Directory to run `cargo fuzz` from, if not the current one.
    pub workdir: Option<PathBuf>,
    /// Sanitizer.
    pub sanitizer: Sanitizer,
    /// Per-iteration timeout.
    pub timeout_per_iter: Option<Duration>,
    /// Per-iteration RSS limit in megabytes.
    pub rss_limit_mb: Option<u32>,
    /// Reproducer basenames whose findings are suppressed, in the order given.
    pub allow_list: Seq<Seq<char>>,
}

/// The views of a sequence of strings.
pub open spec fn string_views(v: Seq<String>) -> Seq<Seq<char>> {
    v.map_values(|s: String| s@)
}

impl View for FuzzRun {
    type V = FuzzRunView;

    closed spec fn view(&self) -> FuzzRunView {
        FuzzRunView {
            target: self.target@,
            version: self.version@,
            budget: self.budget,
            workdir: self.workdir,
            sanitizer: self.sanitizer,
            timeout_per_iter: self.timeout_per_iter,
            rss_limit_mb: self.rss_limit_mb,
            allow_list: string_views(self.allow_list@),
        }
    }
}

/// The default budget: a time budget of exactly 60 seconds (60 whole
/// seconds, no fractional part), as `Duration::from_secs(60)` builds it.
pub open spec fn is_default_budget(b: FuzzBudget) -> bool {
    b matches FuzzBudget::Time(d) && duration_secs(d) == 60 && duration_subsec_nanos(d) == 0
}

impl FuzzRun {
    /// Begin a new fuzz run against the given fuzz target, with a 60 s time
    /// budget, AddressSanitizer, no limits and an empty allow-list.
    pub fn new(target: &str, version: &str) -> (r: Self)
        ensures
            r@.target == target@,
            r@.version == version@,
            is_default_budget(r@.budget),
            r@.workdir is None,
            r@.sanitizer == Sanitizer::Address,
            r@.timeout_per_iter is None,
            r@.rss_limit_mb is None,
            r@.allow_list == Seq::<Seq<char>>::empty(),
    {
        let r = FuzzRun {
            target: String::from_str(target),
            version: String::from_str(version),
            budget: FuzzBudget::Time(duration_from_secs(60)),
            workdir: None,
            sanitizer: Sanitizer::Address,
            timeout_per_iter: None,
            rss_limit_mb: None,
            allow_list: Vec::new(),
        };
        assert(string_views(r.allow_list@) == Seq::<Seq<char>>::empty());
        r
    }

    /// Set the run budget.
    pub fn budget(self, budget: FuzzBudget) -> (r: Self)
        ensures
            r@ == (FuzzRunView { budget, ..self@ }),
    {
        let mut s = self;
        s.budget = budget;
        s
    }

    /// Selected budget.
    pub fn fuzz_budget(&self) -> (r: FuzzBudget)
        ensures
            r == self@.budget,
    {
        self.budget
    }

    /// Run `cargo fuzz` from `dir` instead of the current directory.
    pub fn in_dir(self, dir: PathBuf) -> (r: Self)
        ensures
            r@ == (FuzzRunView { workdir: Some(dir), ..self@ }),
    {
        let mut s = self;
        s.workdir = Some(dir);
        s
    }

    /// Pick the sanitizer to enable.
    pub fn sanitizer(self, sanitizer: Sanitizer) -> (r: Self)
        ensures
            r@ == (FuzzRunView { sanitizer, ..self@ }),
    {
        let mut s = self;
        s.sanitizer = sanitizer;
        s
    }

    /// Per-iteration timeout (libFuzzer's `-timeout=<secs>`).
    pub fn timeout_per_iter(self, d: Duration) -> (r: Self)
        ensures
            r@ == (FuzzRunView { timeout_per_iter: Some(d), ..self@ }),
    {
        let mut s = self;
        s.timeout_per_iter = Some(d);
        s
    }

    /// Per-iteration RSS limit in megabytes (libFuzzer's `-rss_limit_mb=<N>`).
    pub fn rss_limit_mb(self, mb: u32) -> (r: Self)
        ensures
            r@ == (FuzzRunView { rss_limit_mb: Some(mb), ..self@ }),
    {
        let mut s = self;
        s.rss_limit_mb = Some(mb);
        s
    }

    /// Suppress findings whose reproducer-path basename is `name`.
    pub fn allow(self, name: &str) -> (r: Self)
        ensures
            r@ == (FuzzRunView { allow_list: self@.allow_list.push(name@), ..self@ }),
    {
        let mut s = self;
        let ghost before = s.allow_list@;
        s.allow_list.push(String::from_str(name));
        assert(string_views(s.allow_list@) == string_views(before).push(name@));
        s
    }

    /// Suppress findings whose reproducer-path basename is any of `names`.
    pub fn allow_all<const N: usize>(self, names: [&str; N]) -> (r: Self)
        ensures
            r@ == (FuzzRunView {
                allow_list: self@.allow_list + names@.map_values(|n: &str| n@),
                ..self@
            }),
    {
        let mut s = self;
        let ghost start = string_views(s.allow_list@);
        for i in 0..N
            invariant
                N == names@.len(),
                string_views(s.allow_list@) == start + names@.take(i as int).map_values(
                    |n: &str| n@,
                ),
                s.target == self.target,
                s.version == self.version,
                s.budget == self.budget,
                s.workdir == self.workdir,
                s.sanitizer == self.sanitizer,
                s.timeout_per_iter == self.timeout_per_iter,
                s.rss_limit_mb == self.rss_limit_mb,
                start == self@.allow_list,
        {
            let ghost before = s.allow_list@;
            s.allow_list.push(String::from_str(names[i]));
            assert(string_views(s.allow_list@) == string_views(before).push(names@[i as int]@));
            assert(names@.take(i + 1).map_values(|n: &str| n@) == names@.take(i as int).map_values(
                |n: &str| n@,
            ).push(names@[i as int]@));
        }
        assert(names@.take(N as int) == names@);
        s
    }

    /// Suppress findings whose reproducer-path basename is any of `names`
    /// (the same as [`allow_all`](Self::allow_all), for names held at run
    /// time).
    pub fn allow_names(self, names: &[String]) -> (r: Self)
        ensures
            r@ == (FuzzRunView { allow_list: self@.allow_list + string_views(names@), ..self@ }),
    {
        let mut s = self;
        let ghost start = string_views(s.allow_list@);
        let n = names.len();
        for i in 0..n
            invariant
                n == names@.len(),
                string_views(s.allow_list@) == start + string_views(names@.take(i as int)),
                s.target == self.target,
                s.version == self.version,
                s.budget == self.budget,
                s.workdir == self.workdir,
                s.sanitizer == self.sanitizer,
                s.timeout_per_iter == self.timeout_per_iter,
                s.rss_limit_mb == self.rss_limit_mb,
                start == self@.allow_list,
        {
            let ghost before = s.allow_list@;
            s.allow_list.push(names[i].clone());
            assert(string_views(s.allow_list@) == string_views(before).push(names@[i as int]@));
            assert(string_views(names@.take(i + 1)) == string_views(names@.take(i as int)).push(
                names@[i as int]@,
            ));
        }
        assert(names@.take(n as int) == names@);
        s
    }

    /// Target name (the `fuzz_targets/<name>.rs` file).
    pub fn target_name(&self) -> (r: &str)
        ensures
            r@ == self@.target,
    {
        self.target.as_str()
    }

    /// Descriptive subject version.
    pub fn subject_version(&self) -> (r: &str)
        ensures
            r@ == self@.version,
    {
        self.version.as_str()
    }

    /// Directory to run `cargo fuzz` from, if one was set.
    pub fn workdir_path(&self) -> (r: Option<&PathBuf>)
        ensures
            r matches Some(p) ==> self@.workdir == Some(*p),
            r is None ==> self@.workdir is None,
    {
        match &self.workdir {
            Some(p) => Some(p),
            None => None,
        }
    }

    /// Selected sanitizer.
    pub fn sanitizer_kind(&self) -> (r: Sanitizer)
        ensures
            r == self@.sanitizer,
    {
        self.sanitizer
    }

    /// Per-iteration timeout, if set.
    pub fn timeout_per_iter_value(&self) -> (r: Option<Duration>)
        ensures
            r == self@.timeout_per_iter,
    {
        self.timeout_per_iter
    }

    /// Per-iteration RSS limit, if set.
    pub fn rss_limit_value(&self) -> (r: Option<u32>)
        ensures
            r == self@.rss_limit_mb,
    {
        self.rss_limit_mb
    }

    /// The allow-list, in the order given.
    pub fn allow_list_view(&self) -> (r: &[String])
        ensures
            string_views(r@) == self@.allow_list,
    {
        self.allow_list.as_slice()
    }
}

} // verus!
