//! The decisions of a `cargo fuzz` run.
//!
//! Running `cargo fuzz` means spawning processes, which the caller does. This
//! module decides what to run next and what the outcome of the run is:
//! [`FuzzRun::step`] takes the stage the run is in and what the last process
//! reported, and answers with the next stage and the next thing to do.

use vstd::prelude::*;

use crate::config::{string_views, FuzzRun, FuzzRunView};
use crate::findings::{finding_views, FindingView, FuzzError, FuzzFinding, FuzzResult};
use crate::kinds::{budget_flag, duration_secs, max_u64, sanitizer_flag, whole_secs};
use crate::parse::{parse_executions, parse_findings, parsed_executions, parsed_findings};
use crate::text::{
    chars_of, decimal, decimal_string, lines, lines_of, starts_with, starts_with_chars, trim,
    trim_chars,
};

verus! {

// ---------------------------------------------------------------------------
// Allow-list
// ---------------------------------------------------------------------------

/// The findings `fs` without those whose reproducer basename (`names[i]` for
/// `fs[i]`) is on the allow-list, in their original order.
pub open spec fn kept_findings(
    fs: Seq<FindingView>,
    names: Seq<Seq<char>>,
    allow: Seq<Seq<char>>,
) -> Seq<FindingView>
    decreases fs.len(),
{
    if fs.len() == 0 {
        Seq::empty()
    } else {
        let prev = kept_findings(fs.drop_last(), names.drop_last(), allow);
        if allow.contains(names[fs.len() - 1]) {
            prev
        } else {
            prev.push(fs.last())
        }
    }
}

/// The part of `p` after its last `'/'` (all of `p` if it has none).
pub open spec fn last_segment(p: Seq<char>) -> Seq<char>
    decreases p.len(),
{
    if p.len() == 0 {
        p
    } else if p.last() == '/' {
        Seq::empty()
    } else {
        last_segment(p.drop_last()).push(p.last())
    }
}

/// `p` without its trailing `'/'` characters.
pub open spec fn trim_trailing_slashes(p: Seq<char>) -> Seq<char>
    decreases p.len(),
{
    if p.len() > 0 && p.last() == '/' {
        trim_trailing_slashes(p.drop_last())
    } else {
        p
    }
}

/// Removing trailing slashes only shortens a path.
pub proof fn lemma_trim_trailing_slashes_len(p: Seq<char>)
    ensures
        trim_trailing_slashes(p).len() <= p.len(),
    decreases p.len(),
{
    if p.len() > 0 && p.last() == '/' {
        lemma_trim_trailing_slashes_len(p.drop_last());
    }
}

/// The last component of a `'/'`-separated path, skipping empty and `.`
/// components as `Path::components` does: `None` when nothing is left (the
/// empty path, `/`, `.`, `./`).
pub open spec fn final_component(p: Seq<char>) -> Option<Seq<char>>
    decreases p.len(),
{
    let q = trim_trailing_slashes(p);
    if q.len() == 0 {
        None
    } else {
        proof {
            lemma_trim_trailing_slashes_len(p);
        }
        if last_segment(q) == "."@ {
            final_component(q.drop_last())
        } else {
            Some(last_segment(q))
        }
    }
}

/// What `Path::file_name` gives for a `'/'`-separated path: its final
/// component, unless there is none or it is `..`.
pub open spec fn file_name_of(p: Seq<char>) -> Option<Seq<char>> {
    match final_component(p) {
        Some(c) => if c == ".."@ {
            None
        } else {
            Some(c)
        },
        None => None,
    }
}

/// The basename the allow-list matches: the file name of the path, or the
/// whole path where it has none.
pub open spec fn basename_of(p: Seq<char>) -> Seq<char> {
    match file_name_of(p) {
        Some(n) => n,
        None => p,
    }
}

/// A path that every platform splits alike: it holds no `'\\'` and no
/// `':'` (no Windows separator, drive or prefix) and does not begin with
/// `"//"` (no UNC or device prefix), so its only separator is `'/'`.
pub open spec fn portable_path(p: Seq<char>) -> bool {
    &&& forall|i: int| 0 <= i < p.len() ==> #[trigger] p[i] != '\\' && p[i] != ':'
    &&& !starts_with(p, "//"@)
}

/// Calls `Path::file_name` on `path` (taken as a `Path` with `Path::new`)
/// and reads the result back as a `str` with `OsStr::to_str`: the final
/// component of the path, if it is a normal one. For a portable path (see
/// [`portable_path`]) the components are the `'/'`-separated segments on
/// every platform, with empty and `.` segments skipped and `..` a parent
/// component, so the result is [`file_name_of`] the path; and `to_str` of a
/// piece of a `str` is always `Some`. For other paths nothing is stated,
/// since how they split depends on the platform.
#[verifier::external_body]
fn path_file_name(path: &str) -> (r: Option<&str>)
    ensures
        portable_path(path@) ==> (r.is_some() <==> file_name_of(path@).is_some()),
        portable_path(path@) && r.is_some() ==> r.unwrap()@ == file_name_of(path@).unwrap(),
{
    std::path::Path::new(path).file_name().and_then(|os| os.to_str())
}

/// `names` gives, for each finding of `fs`, its reproducer basename: for a
/// portable path, its file name, or the whole path where it has none.
pub open spec fn basenames_fit(fs: Seq<FindingView>, names: Seq<Seq<char>>) -> bool {
    &&& names.len() == fs.len()
    &&& forall|i: int|
        0 <= i < fs.len() && portable_path(#[trigger] fs[i].reproducer_path) ==> names[i]
            == basename_of(fs[i].reproducer_path)
}

/// Whether `name` is on the allow-list.
fn is_listed(allow_list: &[String], name: &String) -> (r: bool)
    ensures
        r == string_views(allow_list@).contains(name@),
{
    let n = allow_list.len();
    let ghost a = string_views(allow_list@);
    for i in 0..n
        invariant
            n == allow_list@.len(),
            a == string_views(allow_list@),
            forall|j: int| 0 <= j < i ==> a[j] != name@,
    {
        if allow_list[i].eq(name) {
            assert(a[i as int] == name@);
            return true;
        }
    }
    false
}

/// Drop every finding whose reproducer basename, given as `basenames[i]`
/// for `findings[i]`, is on the allow-list; keep the rest in order.
pub fn filter_by_basenames(
    findings: Vec<FuzzFinding>,
    basenames: &[String],
    allow_list: &[String],
) -> (r: Vec<FuzzFinding>)
    requires
        basenames@.len() == findings@.len(),
    ensures
        finding_views(r@) == kept_findings(
            finding_views(findings@),
            string_views(basenames@),
            string_views(allow_list@),
        ),
{
    let n = findings.len();
    let ghost fs = finding_views(findings@);
    let ghost names = string_views(basenames@);
    let ghost allow = string_views(allow_list@);
    let mut out: Vec<FuzzFinding> = Vec::new();
    for i in 0..n
        invariant
            n == findings@.len(),
            n == basenames@.len(),
            fs == finding_views(findings@),
            names == string_views(basenames@),
            allow == string_views(allow_list@),
            finding_views(out@) == kept_findings(
                fs.take(i as int),
                names.take(i as int),
                allow,
            ),
    {
        assert(fs.take(i + 1).drop_last() == fs.take(i as int));
        assert(names.take(i + 1).drop_last() == names.take(i as int));
        assert(names.take(i + 1)[i as int] == names[i as int]);
        if !is_listed(allow_list, &basenames[i]) {
            let f = findings[i].duplicate();
            assert(f@ == findings@[i as int]@);
            let ghost before = out@;
            out.push(f);
            assert(finding_views(out@) == finding_views(before).push(f@));
        }
    }
    assert(fs.take(n as int) == fs);
    assert(names.take(n as int) == names);
    out
}

/// Suppress findings whose reproducer-path basename (the final path
/// component, or the whole path where there is none) is on the allow-list,
/// keeping the others in order. For a portable path the basename is
/// [`basename_of`] the path, so such a finding is kept exactly when that
/// basename is not on the allow-list. An empty allow-list leaves the
/// findings as they are.
pub fn apply_allow_list(findings: &mut Vec<FuzzFinding>, allow_list: &[String])
    ensures
        allow_list@.len() == 0 ==> finding_views(final(findings)@) == finding_views(
            old(findings)@,
        ),
        exists|names: Seq<Seq<char>>|
            basenames_fit(finding_views(old(findings)@), names) && finding_views(
                final(findings)@,
            ) == kept_findings(
                finding_views(old(findings)@),
                names,
                string_views(allow_list@),
            ),
{
    let ghost start = finding_views(findings@);
    let n = findings.len();
    if allow_list.len() == 0 {
        let ghost names = Seq::new(
            n as nat,
            |i: int| basename_of(start[i].reproducer_path),
        );
        proof {
            lemma_kept_all(start, names, string_views(allow_list@));
            assert(basenames_fit(start, names));
        }
        return;
    }
    let mut basenames: Vec<String> = Vec::new();
    for i in 0..n
        invariant
            n == findings@.len(),
            start == finding_views(findings@),
            basenames@.len() == i,
            forall|j: int|
                0 <= j < i && portable_path(#[trigger] start[j].reproducer_path)
                    ==> basenames@[j]@ == basename_of(start[j].reproducer_path),
    {
        let p = findings[i].reproducer_path.as_str();
        let b = match path_file_name(p) {
            Some(name) => name,
            None => p,
        };
        assert(start[i as int].reproducer_path == p@);
        basenames.push(String::from_str(b));
    }
    let mut all: Vec<FuzzFinding> = Vec::new();
    std::mem::swap(&mut all, findings);
    let kept = filter_by_basenames(all, basenames.as_slice(), allow_list);
    *findings = kept;
    assert(basenames_fit(start, string_views(basenames@)));
}

/// With nothing on the allow-list, every finding is kept.
pub proof fn lemma_kept_all(fs: Seq<FindingView>, names: Seq<Seq<char>>, allow: Seq<Seq<char>>)
    requires
        allow.len() == 0,
        names.len() == fs.len(),
    ensures
        kept_findings(fs, names, allow) == fs,
    decreases fs.len(),
{
    if fs.len() > 0 {
        lemma_kept_all(fs.drop_last(), names.drop_last(), allow);
        assert(fs.drop_last().push(fs.last()) == fs);
    }
}

/// Allow-listing keeps a subsequence: no finding is added, none is
/// reordered, and each kept finding was not allow-listed.
pub proof fn lemma_kept_is_subsequence(
    fs: Seq<FindingView>,
    names: Seq<Seq<char>>,
    allow: Seq<Seq<char>>,
)
    requires
        names.len() == fs.len(),
    ensures
        kept_findings(fs, names, allow).len() <= fs.len(),
        forall|j: int|
            0 <= j < kept_findings(fs, names, allow).len() ==> exists|i: int|
                0 <= i < fs.len() && fs[i] == #[trigger] kept_findings(fs, names, allow)[j]
                    && !allow.contains(names[i]),
    decreases fs.len(),
{
    if fs.len() > 0 {
        let a = fs.drop_last();
        let b = names.drop_last();
        lemma_kept_is_subsequence(a, b, allow);
        let prev = kept_findings(a, b, allow);
        let cur = kept_findings(fs, names, allow);
        assert forall|j: int| 0 <= j < cur.len() implies exists|i: int|
            0 <= i < fs.len() && fs[i] == #[trigger] cur[j] && !allow.contains(names[i]) by {
            if j < prev.len() {
                assert(cur[j] == prev[j]);
                let i = choose|i: int|
                    0 <= i < a.len() && a[i] == #[trigger] prev[j] && !allow.contains(b[i]);
                assert(fs[i] == a[i] && names[i] == b[i]);
            } else {
                let i = fs.len() - 1;
                assert(fs[i] == cur[j]);
            }
        }
    }
}

/// Allow-listing is by basename: a kept finding with a portable reproducer
/// path does not have its basename on the allow-list, and a finding with a
/// portable path whose basename is not on the allow-list is kept.
pub proof fn lemma_kept_by_basename(
    fs: Seq<FindingView>,
    names: Seq<Seq<char>>,
    allow: Seq<Seq<char>>,
)
    requires
        basenames_fit(fs, names),
    ensures
        forall|j: int|
            0 <= j < kept_findings(fs, names, allow).len() && portable_path(
                (#[trigger] kept_findings(fs, names, allow)[j]).reproducer_path,
            ) ==> !allow.contains(
                basename_of(kept_findings(fs, names, allow)[j].reproducer_path),
            ),
        forall|i: int|
            0 <= i < fs.len() && portable_path(#[trigger] fs[i].reproducer_path) && !allow.contains(
                basename_of(fs[i].reproducer_path),
            ) ==> kept_findings(fs, names, allow).contains(fs[i]),
    decreases fs.len(),
{
    lemma_kept_is_subsequence(fs, names, allow);
    let kept = kept_findings(fs, names, allow);
    assert forall|j: int|
        0 <= j < kept.len() && portable_path(
            (#[trigger] kept[j]).reproducer_path,
        ) implies !allow.contains(basename_of(kept[j].reproducer_path)) by {
        let i = choose|i: int|
            0 <= i < fs.len() && fs[i] == #[trigger] kept[j] && !allow.contains(names[i]);
        assert(fs[i] == kept[j]);
    }
    if fs.len() > 0 {
        let a = fs.drop_last();
        let b = names.drop_last();
        assert(basenames_fit(a, b)) by {
            assert forall|i: int| 0 <= i < a.len() && portable_path(#[trigger] a[i].reproducer_path)
                implies b[i] == basename_of(a[i].reproducer_path) by {
                assert(a[i] == fs[i]);
            }
        }
        lemma_kept_by_basename(a, b, allow);
        let prev = kept_findings(a, b, allow);
        assert forall|i: int|
            0 <= i < fs.len() && portable_path(#[trigger] fs[i].reproducer_path) && !allow.contains(
                basename_of(fs[i].reproducer_path),
            ) implies kept.contains(fs[i]) by {
            if i < fs.len() - 1 {
                assert(a[i] == fs[i]);
                assert(prev.contains(a[i]));
                let k = choose|k: int| 0 <= k < prev.len() && prev[k] == a[i];
                if allow.contains(names[fs.len() - 1]) {
                    assert(kept == prev);
                } else {
                    assert(kept[k] == prev[k]);
                }
            } else {
                assert(kept[kept.len() - 1] == fs[i]);
            }
        }
    }
}

// ---------------------------------------------------------------------------
// Decisions on process output
// ---------------------------------------------------------------------------

/// Some line of `rustup toolchain list` output names a nightly toolchain.
pub open spec fn lists_nightly(listing: Seq<char>) -> bool {
    exists|j: int|
        0 <= j < lines(listing).len() && starts_with(#[trigger] lines(listing)[j], "nightly"@)
}

/// Whether the `rustup toolchain list` output names a nightly toolchain.
pub fn has_nightly_toolchain(listing: &str) -> (r: bool)
    ensures
        r == lists_nightly(listing@),
{
    let cs = chars_of(listing);
    let ls = lines_of(cs.as_slice());
    let nightly = chars_of("nightly");
    let n = ls.len();
    let ghost v = ls@.map_values(|l: Vec<char>| l@);
    for i in 0..n
        invariant
            n == ls@.len(),
            v == ls@.map_values(|l: Vec<char>| l@),
            v == lines(listing@),
            nightly@ == "nightly"@,
            forall|j: int| 0 <= j < i ==> !starts_with(#[trigger] v[j], "nightly"@),
    {
        assert(v[i as int] == ls@[i as int]@);
        if starts_with_chars(ls[i].as_slice(), nightly.as_slice()) {
            return true;
        }
    }
    false
}

/// Some non-empty trimmed line of `cargo fuzz list` output is the target.
pub open spec fn lists_target(listing: Seq<char>, target: Seq<char>) -> bool {
    exists|j: int|
        0 <= j < lines(listing).len() && trim(#[trigger] lines(listing)[j]).len() > 0 && trim(
            lines(listing)[j],
        ) == target
}

/// Whether the `cargo fuzz list` output names `target`.
pub fn lists_fuzz_target(listing: &str, target: &str) -> (r: bool)
    ensures
        r == lists_target(listing@, target@),
{
    let cs = chars_of(listing);
    let ls = lines_of(cs.as_slice());
    let tc = chars_of(target);
    let n = ls.len();
    let ghost v = ls@.map_values(|l: Vec<char>| l@);
    for i in 0..n
        invariant
            n == ls@.len(),
            v == ls@.map_values(|l: Vec<char>| l@),
            v == lines(listing@),
            tc@ == target@,
            forall|j: int|
                0 <= j < i ==> !(trim(#[trigger] v[j]).len() > 0 && trim(v[j]) == target@),
    {
        assert(v[i as int] == ls@[i as int]@);
        let t = trim_chars(ls[i].as_slice());
        if t.len() > 0 && slices_equal(t.as_slice(), tc.as_slice()) {
            return true;
        }
    }
    false
}

/// A listing names the target when any one of its lines, trimmed, is the
/// target (and not empty), wherever that line stands among the others.
pub proof fn lemma_target_listed_on_any_line(listing: Seq<char>, target: Seq<char>, j: int)
    requires
        0 <= j < lines(listing).len(),
        trim(lines(listing)[j]).len() > 0,
        trim(lines(listing)[j]) == target,
    ensures
        lists_target(listing, target),
{
}

/// A listing that names the target has a line that, trimmed, is the target.
pub proof fn lemma_listed_target_has_line(listing: Seq<char>, target: Seq<char>)
    requires
        lists_target(listing, target),
    ensures
        exists|j: int|
            0 <= j < lines(listing).len() && trim(#[trigger] lines(listing)[j]) == target
                && target.len() > 0,
{
}

/// A run whose `cargo fuzz list` output has the target on any one of its
/// lines goes on to launch the fuzzer.
pub proof fn lemma_listed_target_launches(cfg: FuzzRunView, listing: String, j: int)
    requires
        0 <= j < lines(listing@).len(),
        trim(lines(listing@)[j]).len() > 0,
        trim(lines(listing@)[j]) == cfg.target,
    ensures
        next_stage(cfg, RunStage::AwaitTargets, RunEvent::TargetsListed { listing: Some(listing) })
            == RunStage::AwaitFuzzer,
{
    lemma_target_listed_on_any_line(listing@, cfg.target, j);
}

/// Whether two character slices are equal.
fn slices_equal(a: &[char], b: &[char]) -> (r: bool)
    ensures
        r == (a@ == b@),
{
    if a.len() != b.len() {
        return false;
    }
    let n = a.len();
    for i in 0..n
        invariant
            n == a@.len(),
            n == b@.len(),
            forall|j: int| 0 <= j < i ==> a@[j] == b@[j],
    {
        if a[i] != b[i] {
            return false;
        }
    }
    assert(a@ == b@);
    true
}

/// The execution count of a run: from the stderr status lines, else from
/// the stdout ones, else zero.
pub open spec fn run_executions(stdout: Seq<char>, stderr: Seq<char>) -> u64 {
    match parsed_executions(stderr) {
        Some(n) => n,
        None => match parsed_executions(stdout) {
            Some(n) => n,
            None => 0,
        },
    }
}

/// `r` is the outcome of a run of `cfg` that exited with `success`, wrote
/// `stdout` and `stderr`, and whose findings after the allow-list are
/// `kept`: a hard error exactly when the run failed and its stderr reported
/// no finding at all; otherwise a result with the kept findings (stderr is
/// parsed whatever the exit code).
pub open spec fn is_run_outcome(
    r: Result<FuzzResult, FuzzError>,
    cfg: FuzzRunView,
    success: bool,
    stdout: Seq<char>,
    stderr: Seq<char>,
    kept: Seq<FindingView>,
) -> bool {
    match r {
        Err(e) => {
            &&& !success && parsed_findings(stderr).len() == 0
            &&& e matches FuzzError::SubprocessFailed(s) && s@ == stderr
        },
        Ok(res) => {
            &&& success || parsed_findings(stderr).len() > 0
            &&& res.target@ == cfg.target
            &&& res.version@ == cfg.version
            &&& res.executions == run_executions(stdout, stderr)
            &&& finding_views(res.findings@) == kept
        },
    }
}

/// `r` is the outcome of a run of `cfg` that exited with `success` and
/// wrote `stdout` and `stderr`, its findings parsed from stderr and
/// allow-listed by their basenames.
pub open spec fn is_finished_run(
    r: Result<FuzzResult, FuzzError>,
    cfg: FuzzRunView,
    success: bool,
    stdout: Seq<char>,
    stderr: Seq<char>,
) -> bool {
    exists|names: Seq<Seq<char>>|
        basenames_fit(parsed_findings(stderr), names) && is_run_outcome(
            r,
            cfg,
            success,
            stdout,
            stderr,
            kept_findings(parsed_findings(stderr), names, cfg.allow_list),
        )
}

/// A run whose exit was successful, or whose findings left after the
/// allow-list are not all gone, has a result and no hard error: the
/// allow-list never removes more findings than stderr reported.
pub proof fn lemma_outcome_is_ok(
    r: Result<FuzzResult, FuzzError>,
    cfg: FuzzRunView,
    success: bool,
    stdout: Seq<char>,
    stderr: Seq<char>,
    names: Seq<Seq<char>>,
)
    requires
        basenames_fit(parsed_findings(stderr), names),
        is_run_outcome(
            r,
            cfg,
            success,
            stdout,
            stderr,
            kept_findings(parsed_findings(stderr), names, cfg.allow_list),
        ),
        success || kept_findings(parsed_findings(stderr), names, cfg.allow_list).len() > 0,
    ensures
        r is Ok,
{
    lemma_kept_is_subsequence(parsed_findings(stderr), names, cfg.allow_list);
}

/// A run is a hard error exactly when it exited unsuccessfully and its
/// stderr reports no libFuzzer finding; the error is then `SubprocessFailed`
/// carrying that stderr. What else stdout or stderr hold (execution-count
/// status lines among them) changes neither.
pub proof fn lemma_error_iff_failed_without_findings(
    r: Result<FuzzResult, FuzzError>,
    cfg: FuzzRunView,
    success: bool,
    stdout: Seq<char>,
    stderr: Seq<char>,
    kept: Seq<FindingView>,
)
    requires
        is_run_outcome(r, cfg, success, stdout, stderr, kept),
    ensures
        r is Err <==> (!success && parsed_findings(stderr).len() == 0),
        !success && parsed_findings(stderr).len() == 0 ==> (r matches Err(
            FuzzError::SubprocessFailed(s),
        ) && s@ == stderr),
{
}

/// The same of a finished run, whose findings are parsed from stderr and
/// allow-listed: it fails with `SubprocessFailed(stderr)` exactly when the
/// fuzzer exited unsuccessfully without reporting a finding, whether or not
/// stderr also holds `#N` status lines.
pub proof fn lemma_finished_run_error_iff_failed_without_findings(
    r: Result<FuzzResult, FuzzError>,
    cfg: FuzzRunView,
    success: bool,
    stdout: Seq<char>,
    stderr: Seq<char>,
)
    requires
        is_finished_run(r, cfg, success, stdout, stderr),
    ensures
        r is Err <==> (!success && parsed_findings(stderr).len() == 0),
        !success && parsed_findings(stderr).len() == 0 ==> (r matches Err(
            FuzzError::SubprocessFailed(s),
        ) && s@ == stderr),
{
    let names = choose|names: Seq<Seq<char>>|
        basenames_fit(parsed_findings(stderr), names) && is_run_outcome(
            r,
            cfg,
            success,
            stdout,
            stderr,
            kept_findings(parsed_findings(stderr), names, cfg.allow_list),
        );
    lemma_error_iff_failed_without_findings(
        r,
        cfg,
        success,
        stdout,
        stderr,
        kept_findings(parsed_findings(stderr), names, cfg.allow_list),
    );
}

impl FuzzRun {
    /// The outcome of a run that exited with `success` and wrote `stdout`
    /// and `stderr`, given its findings after the allow-list.
    pub fn run_outcome(
        &self,
        success: bool,
        stdout: &str,
        stderr: &str,
        findings: Vec<FuzzFinding>,
    ) -> (r: Result<FuzzResult, FuzzError>)
        ensures
            is_run_outcome(r, self@, success, stdout@, stderr@, finding_views(findings@)),
    {
        let executions = match parse_executions(stderr) {
            Some(n) => n,
            None => match parse_executions(stdout) {
                Some(n) => n,
                None => 0,
            },
        };
        if !success {
            let parsed = parse_findings(stderr);
            if parsed.len() == 0 {
                return Err(FuzzError::SubprocessFailed(String::from_str(stderr)));
            }
        }
        Ok(
            FuzzResult {
                target: String::from_str(self.target_name()),
                version: String::from_str(self.subject_version()),
                executions,
                findings,
            },
        )
    }

    /// The outcome of a run that exited with `success` and wrote `stdout`
    /// and `stderr`: the findings parsed from stderr, less the allow-listed
    /// ones, and the execution count.
    pub fn finish_run(&self, success: bool, stdout: &str, stderr: &str) -> (r: Result<
        FuzzResult,
        FuzzError,
    >)
        ensures
            is_finished_run(r, self@, success, stdout@, stderr@),
            self@.allow_list.len() == 0 ==> is_run_outcome(
                r,
                self@,
                success,
                stdout@,
                stderr@,
                parsed_findings(stderr@),
            ),
    {
        let mut findings = parse_findings(stderr);
        let allow = self.allow_list_view();
        apply_allow_list(&mut findings, allow);
        self.run_outcome(success, stdout, stderr, findings)
    }

    /// The arguments of `cargo` for the fuzz run: toolchain, subcommand,
    /// sanitizer, target, then libFuzzer's budget flag, per-iteration timeout
    /// (whole seconds, at least one) and RSS limit where set.
    pub fn cargo_fuzz_args(&self) -> (r: Vec<String>)
        ensures
            string_views(r@) == fuzz_args(self@),
    {
        let mut args: Vec<String> = Vec::new();
        args.push(String::from_str("+nightly"));
        args.push(String::from_str("fuzz"));
        args.push(String::from_str("run"));
        args.push(String::from_str("--sanitizer"));
        args.push(String::from_str(self.sanitizer_kind().as_cargo_fuzz_flag()));
        args.push(String::from_str(self.target_name()));
        args.push(String::from_str("--"));
        args.push(self.fuzz_budget().as_libfuzzer_flag());
        assert(string_views(args@) == seq![
            "+nightly"@,
            "fuzz"@,
            "run"@,
            "--sanitizer"@,
            sanitizer_flag(self@.sanitizer),
            self@.target,
            "--"@,
            budget_flag(self@.budget),
        ]);
        match self.timeout_per_iter_value() {
            Some(t) => {
                let secs = whole_secs(&t);
                let secs = if secs >= 1 {
                    secs
                } else {
                    1
                };
                let mut a = String::from_str("-timeout=");
                let d = decimal_string(secs);
                a.append(d.as_str());
                let ghost before = args@;
                args.push(a);
                assert(string_views(args@) == string_views(before).push(a@));
            },
            None => {},
        }
        match self.rss_limit_value() {
            Some(mb) => {
                let mut a = String::from_str("-rss_limit_mb=");
                let d = decimal_string(mb as u64);
                a.append(d.as_str());
                let ghost before = args@;
                args.push(a);
                assert(string_views(args@) == string_views(before).push(a@));
            },
            None => {},
        }
        args
    }
}

/// The arguments of `cargo` for the fuzz run of `cfg`.
pub open spec fn fuzz_args(cfg: FuzzRunView) -> Seq<Seq<char>> {
    let base = seq![
        "+nightly"@,
        "fuzz"@,
        "run"@,
        "--sanitizer"@,
        sanitizer_flag(cfg.sanitizer),
        cfg.target,
        "--"@,
        budget_flag(cfg.budget),
    ];
    let with_timeout = match cfg.timeout_per_iter {
        Some(t) => base.push("-timeout="@ + decimal(max_u64(duration_secs(t), 1) as nat)),
        None => base,
    };
    match cfg.rss_limit_mb {
        Some(mb) => with_timeout.push("-rss_limit_mb="@ + decimal(mb as nat)),
        None => with_timeout,
    }
}

// ---------------------------------------------------------------------------
// The run as a sequence of steps
// ---------------------------------------------------------------------------

/// Where a fuzz run stands.
#[derive(Debug, Clone, Copy, PartialEq, Eq, Structural)]
pub enum RunStage {
    /// Nothing done yet.
    Start,
    /// Waiting for `cargo fuzz --version`.
    AwaitTool,
    /// Waiting for `rustup toolchain list`.
    AwaitToolchains,
    /// Waiting for `cargo fuzz list`.
    AwaitTargets,
    /// Waiting for `cargo +nightly fuzz run`.
    AwaitFuzzer,
    /// The run has its outcome.
    Done,
}

/// What the last process reported.
pub enum RunEvent {
    /// The run is started.
    Begin,
    /// `cargo fuzz --version` ran and exited successfully, or not.
    ToolProbed {
        /// It ran and exited successfully.
        succeeded: bool,
    },
    /// The stdout of `rustup toolchain list`, if it ran and exited
    /// successfully.
    ToolchainsListed {
        /// The listing.
        listing: Option<String>,
    },
    /// The stdout of `cargo fuzz list`, if it ran and exited successfully.
    TargetsListed {
        /// The listing.
        listing: Option<String>,
    },
    /// The fuzzer could not be started.
    LaunchFailed {
        /// What went wrong.
        message: String,
    },
    /// The fuzzer ran to its end.
    FuzzerExited {
        /// It exited successfully.
        success: bool,
        /// Its stdout.
        stdout: String,
        /// Its stderr.
        stderr: String,
    },
}

/// What to do next.
pub enum RunAction {
    /// Run `cargo fuzz --version`.
    ProbeTool,
    /// Run `rustup toolchain list`.
    ListToolchains,
    /// Run `cargo fuzz list` (in the run's directory).
    ListTargets,
    /// Run `cargo` with these arguments (in the run's directory).
    Launch(Vec<String>),
    /// The run is over, with this outcome.
    Finish(Result<FuzzResult, FuzzError>),
}

/// The events the run can take in each stage.
pub open spec fn expects(stage: RunStage, event: RunEvent) -> bool {
    match stage {
        RunStage::Start => event is Begin,
        RunStage::AwaitTool => event is ToolProbed,
        RunStage::AwaitToolchains => event is ToolchainsListed,
        RunStage::AwaitTargets => event is TargetsListed,
        RunStage::AwaitFuzzer => event is LaunchFailed || event is FuzzerExited,
        RunStage::Done => false,
    }
}

/// Whether the run, in `stage`, takes `event`.
pub fn accepts(stage: RunStage, event: &RunEvent) -> (r: bool)
    ensures
        r == expects(stage, *event),
{
    match stage {
        RunStage::Start => matches!(event, RunEvent::Begin),
        RunStage::AwaitTool => matches!(event, RunEvent::ToolProbed { .. }),
        RunStage::AwaitToolchains => matches!(event, RunEvent::ToolchainsListed { .. }),
        RunStage::AwaitTargets => matches!(event, RunEvent::TargetsListed { .. }),
        RunStage::AwaitFuzzer => matches!(event, RunEvent::LaunchFailed { .. })
            || matches!(event, RunEvent::FuzzerExited { .. }),
        RunStage::Done => false,
    }
}

/// The next stage after `event` in `stage`.
pub open spec fn next_stage(cfg: FuzzRunView, stage: RunStage, event: RunEvent) -> RunStage {
    match event {
        RunEvent::Begin => RunStage::AwaitTool,
        RunEvent::ToolProbed { succeeded } => if succeeded {
            RunStage::AwaitToolchains
        } else {
            RunStage::Done
        },
        RunEvent::ToolchainsListed { listing } => if listing matches Some(l) && lists_nightly(l@) {
            RunStage::AwaitTargets
        } else {
            RunStage::Done
        },
        RunEvent::TargetsListed { listing } => if listing matches Some(l) && !lists_target(
            l@,
            cfg.target,
        ) {
            RunStage::Done
        } else {
            RunStage::AwaitFuzzer
        },
        RunEvent::LaunchFailed { .. } => RunStage::Done,
        RunEvent::FuzzerExited { .. } => RunStage::Done,
    }
}

impl FuzzRun {
    /// One step of the run: from `stage`, on `event`, the next stage and
    /// the next thing to do.
    ///
    /// The tool is probed first; a missing tool ends the run with
    /// `ToolNotInstalled`. Then the toolchains are listed; no nightly
    /// toolchain (or no listing) ends it with `NightlyRequired`. Then the
    /// targets are listed; a listing that does not name the target ends the
    /// run with `TargetNotFound`, and the fuzzer is not launched. Where
    /// `cargo fuzz list` gives no listing (it could not run or failed, as
    /// when there is no `fuzz/` directory), nothing is known of the target,
    /// so the fuzzer is launched and reports for itself. A launch failure
    /// ends the run with `SubprocessFailed`, and the fuzzer's exit gives the
    /// outcome.
    pub fn step(&self, stage: RunStage, event: RunEvent) -> (r: (RunStage, RunAction))
        requires
            expects(stage, event),
        ensures
            r.0 == next_stage(self@, stage, event),
            r.0 == RunStage::AwaitTool ==> r.1 is ProbeTool,
            r.0 == RunStage::AwaitToolchains ==> r.1 is ListToolchains,
            r.0 == RunStage::AwaitTargets ==> r.1 is ListTargets,
            r.0 == RunStage::AwaitFuzzer ==> (r.1 matches RunAction::Launch(args) && string_views(
                args@,
            ) == fuzz_args(self@)),
            r.0 == RunStage::Done ==> r.1 is Finish,
            r.1 matches RunAction::Finish(res) ==> match event {
                RunEvent::ToolProbed { .. } => res matches Err(FuzzError::ToolNotInstalled),
                RunEvent::ToolchainsListed { .. } => res matches Err(FuzzError::NightlyRequired),
                RunEvent::TargetsListed { .. } => res matches Err(FuzzError::TargetNotFound(t))
                    && t@ == self@.target,
                RunEvent::LaunchFailed { message } => res matches Err(
                    FuzzError::SubprocessFailed(m),
                ) && m@ == message@,
                RunEvent::FuzzerExited { success, stdout, stderr } => is_finished_run(
                    res,
                    self@,
                    success,
                    stdout@,
                    stderr@,
                ),
                _ => false,
            },
    {
        match event {
            RunEvent::Begin => (RunStage::AwaitTool, RunAction::ProbeTool),
            RunEvent::ToolProbed { succeeded } => {
                if succeeded {
                    (RunStage::AwaitToolchains, RunAction::ListToolchains)
                } else {
                    (RunStage::Done, RunAction::Finish(Err(FuzzError::ToolNotInstalled)))
                }
            },
            RunEvent::ToolchainsListed { listing } => {
                let found = match &listing {
                    Some(l) => has_nightly_toolchain(l.as_str()),
                    None => false,
                };
                if found {
                    (RunStage::AwaitTargets, RunAction::ListTargets)
                } else {
                    (RunStage::Done, RunAction::Finish(Err(FuzzError::NightlyRequired)))
                }
            },
            RunEvent::TargetsListed { listing } => {
                let missing = match &listing {
                    Some(l) => !lists_fuzz_target(l.as_str(), self.target_name()),
                    None => false,
                };
                if missing {
                    (
                        RunStage::Done,
                        RunAction::Finish(
                            Err(FuzzError::TargetNotFound(String::from_str(self.target_name()))),
                        ),
                    )
                } else {
                    (RunStage::AwaitFuzzer, RunAction::Launch(self.cargo_fuzz_args()))
                }
            },
            RunEvent::LaunchFailed { message } => (
                RunStage::Done,
                RunAction::Finish(Err(FuzzError::SubprocessFailed(message))),
            ),
            RunEvent::FuzzerExited { success, stdout, stderr } => (
                RunStage::Done,
                RunAction::Finish(self.finish_run(success, stdout.as_str(), stderr.as_str())),
            ),
        }
    }
}

} // verus!

verus! {

// ---------------------------------------------------------------------------
// Runs as traces of events
// ---------------------------------------------------------------------------

/// The stage a run of `cfg` reaches from `Start` through `events`.
pub open spec fn stage_after(cfg: FuzzRunView, events: Seq<RunEvent>) -> RunStage
    decreases events.len(),
{
    if events.len() == 0 {
        RunStage::Start
    } else {
        next_stage(cfg, stage_after(cfg, events.drop_last()), events.last())
    }
}

/// Each of `events` is one the run expects in the stage it has reached.
pub open spec fn is_run_trace(cfg: FuzzRunView, events: Seq<RunEvent>) -> bool {
    forall|i: int|
        0 <= i < events.len() ==> expects(stage_after(cfg, events.take(i)), #[trigger] events[i])
}

/// The tool probe succeeded.
pub open spec fn tool_found(e: RunEvent) -> bool {
    e matches RunEvent::ToolProbed { succeeded } && succeeded
}

/// The toolchain listing names a nightly toolchain.
pub open spec fn nightly_found(e: RunEvent) -> bool {
    e matches RunEvent::ToolchainsListed { listing } && (listing matches Some(l) && lists_nightly(
        l@,
    ))
}

/// The target listing does not rule the target out: either `cargo fuzz
/// list` gave no listing (could not run, or failed), or it names the target.
pub open spec fn target_not_missing(cfg: FuzzRunView, e: RunEvent) -> bool {
    e matches RunEvent::TargetsListed { listing } && !(listing matches Some(l) && !lists_target(
        l@,
        cfg.target,
    ))
}

proof fn lemma_trace_prefix(cfg: FuzzRunView, events: Seq<RunEvent>)
    requires
        events.len() > 0,
        is_run_trace(cfg, events),
    ensures
        is_run_trace(cfg, events.drop_last()),
        expects(stage_after(cfg, events.drop_last()), events.last()),
{
    let p = events.drop_last();
    assert forall|i: int| 0 <= i < p.len() implies expects(
        stage_after(cfg, p.take(i)),
        #[trigger] p[i],
    ) by {
        assert(p.take(i) == events.take(i));
        assert(expects(stage_after(cfg, events.take(i)), events[i]));
    }
    assert(events.take(events.len() - 1) == p);
    assert(expects(stage_after(cfg, events.take(events.len() - 1)), events[events.len() - 1]));
}

/// A run reaches each stage only through the checks before it: it waits for
/// the fuzzer (has launched it) only after exactly four events, the start,
/// a successful tool probe, a toolchain listing that names a nightly
/// toolchain, and a target listing that does not rule the target out.
pub proof fn lemma_stages_follow_checks(cfg: FuzzRunView, events: Seq<RunEvent>)
    requires
        is_run_trace(cfg, events),
    ensures
        stage_after(cfg, events) == RunStage::Start ==> events.len() == 0,
        stage_after(cfg, events) == RunStage::AwaitTool ==> events.len() == 1
            && events[0] is Begin,
        stage_after(cfg, events) == RunStage::AwaitToolchains ==> events.len() == 2
            && events[0] is Begin && tool_found(events[1]),
        stage_after(cfg, events) == RunStage::AwaitTargets ==> events.len() == 3
            && events[0] is Begin && tool_found(events[1]) && nightly_found(events[2]),
        stage_after(cfg, events) == RunStage::AwaitFuzzer ==> events.len() == 4
            && events[0] is Begin && tool_found(events[1]) && nightly_found(events[2])
            && target_not_missing(cfg, events[3]),
    decreases events.len(),
{
    if events.len() > 0 {
        lemma_trace_prefix(cfg, events);
        let p = events.drop_last();
        lemma_stages_follow_checks(cfg, p);
        assert forall|j: int| 0 <= j < p.len() implies #[trigger] p[j] == events[j] by {}
    }
}

} // verus!
