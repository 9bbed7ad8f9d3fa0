//! Parser for the text libFuzzer writes to stderr.
//!
//! libFuzzer reports a finding with a `SUMMARY: libFuzzer: <what>` line and
//! writes the input that triggered it to a file, announced by a line holding
//! `Test unit written to <path>`, usually right after the summary and
//! sometimes before it. Periodic status lines begin with `#<count>`.

use vstd::prelude::*;

use crate::findings::{finding_views, FindingView, FuzzFinding};
use crate::kinds::{kind_label, FuzzFindingKind};
use crate::text::{
    chars_of, contains, contains_chars, digit_run, digit_value, digits_value, find, find_chars,
    is_ascii_digit, is_ascii_digit_char, is_whitespace, lemma_find_occurs,
    lemma_next_newline_bounds, lines, lines_from, lines_of, next_newline, occurs_at,
    slice_chars, starts_with, starts_with_chars, string_of, strip_cr, strip_prefix_all,
    strip_prefix_all_chars, trim, trim_chars, trim_start, trim_start_chars,
};

verus! {

// ---------------------------------------------------------------------------
// Specifications
// ---------------------------------------------------------------------------

/// The views of a sequence of lines.
pub open spec fn line_views(ls: Seq<Vec<char>>) -> Seq<Seq<char>> {
    ls.map_values(|l: Vec<char>| l@)
}

/// The kind of finding a `SUMMARY: libFuzzer:` line reports, or `None` for
/// any other line. `timeout` and `out-of-memory` have their own kinds; every
/// other libFuzzer summary is a crash.
pub open spec fn summary_kind_of(line: Seq<char>) -> Option<FuzzFindingKind> {
    let l = trim(line);
    if !starts_with(l, "SUMMARY: libFuzzer:"@) {
        None
    } else {
        let rest = trim(strip_prefix_all(l, "SUMMARY: libFuzzer:"@));
        if starts_with(rest, "timeout"@) {
            Some(FuzzFindingKind::Timeout)
        } else if starts_with(rest, "out-of-memory"@) {
            Some(FuzzFindingKind::OutOfMemory)
        } else {
            Some(FuzzFindingKind::Crash)
        }
    }
}

/// A (trimmed) line that describes a failure: a libFuzzer `==N== ERROR`
/// banner, a Rust panic message, or a bare `ERROR:` line.
pub open spec fn is_descriptive(t: Seq<char>) -> bool {
    ||| (starts_with(t, "=="@) && contains(t, "ERROR: libFuzzer:"@))
    ||| (starts_with(t, "thread '"@) && contains(t, "panicked at"@))
    ||| starts_with(t, "ERROR:"@)
}

/// Scanning lines `j`, `j - 1`, ..., `lo`: the first descriptive one, trimmed.
pub open spec fn back_descriptive(ls: Seq<Seq<char>>, j: int, lo: int) -> Option<Seq<char>>
    decreases j - lo + 1,
{
    if j < lo || j < 0 || j >= ls.len() {
        None
    } else if is_descriptive(trim(ls[j])) {
        Some(trim(ls[j]))
    } else {
        back_descriptive(ls, j - 1, lo)
    }
}

/// The nearest descriptive line among the 20 lines before line `i`.
pub open spec fn previous_descriptive(ls: Seq<Seq<char>>, i: int) -> Option<Seq<char>> {
    back_descriptive(ls, i - 1, if i >= 20 { i - 20 } else { 0 })
}

/// The marker libFuzzer writes before a reproducer path.
pub open spec fn reproducer_marker() -> Seq<char> {
    "Test unit written to "@
}

/// The reproducer path announced on a line: what follows the first
/// `Test unit written to ` marker, trimmed, if that is not empty.
pub open spec fn reproducer_path_of(t: Seq<char>) -> Option<Seq<char>> {
    match find(t, reproducer_marker()) {
        None => None,
        Some(k) => {
            let p = trim(t.skip(k + reproducer_marker().len()));
            if p.len() == 0 {
                None
            } else {
                Some(p)
            }
        },
    }
}

/// Scanning lines `j`, `j + 1`, ... below `hi`: the first reproducer path.
pub open spec fn fwd_reproducer(ls: Seq<Seq<char>>, j: int, hi: int) -> Option<Seq<char>>
    decreases hi - j,
{
    if j < 0 || j >= hi || j >= ls.len() {
        None
    } else {
        match reproducer_path_of(trim(ls[j])) {
            Some(p) => Some(p),
            None => fwd_reproducer(ls, j + 1, hi),
        }
    }
}

/// Scanning lines `j`, `j - 1`, ..., `lo`: the first reproducer path.
pub open spec fn back_reproducer(ls: Seq<Seq<char>>, j: int, lo: int) -> Option<Seq<char>>
    decreases j - lo + 1,
{
    if j < lo || j < 0 || j >= ls.len() {
        None
    } else {
        match reproducer_path_of(trim(ls[j])) {
            Some(p) => Some(p),
            None => back_reproducer(ls, j - 1, lo),
        }
    }
}

/// The reproducer path for the summary on line `i`: the nearest among the
/// 10 lines after it, else the nearest among the 20 lines before it.
pub open spec fn reproducer_near(ls: Seq<Seq<char>>, i: int) -> Option<Seq<char>> {
    match fwd_reproducer(ls, i + 1, i + 11) {
        Some(p) => Some(p),
        None => back_reproducer(ls, i - 1, if i >= 20 { i - 20 } else { 0 }),
    }
}

/// The path recorded when libFuzzer announced none.
pub open spec fn unknown_reproducer(k: FuzzFindingKind) -> Seq<char> {
    "<unknown reproducer for "@ + kind_label(k) + ">"@
}

/// The finding reported by the summary on line `i`.
pub open spec fn finding_at(ls: Seq<Seq<char>>, i: int) -> FindingView {
    let k = summary_kind_of(ls[i])->0;
    FindingView {
        kind: k,
        reproducer_path: match reproducer_near(ls, i) {
            Some(p) => p,
            None => unknown_reproducer(k),
        },
        summary: match previous_descriptive(ls, i) {
            Some(d) => d,
            None => ls[i],
        },
    }
}

/// The findings reported by the summary lines among the first `n` lines, in
/// order.
pub open spec fn findings_upto(ls: Seq<Seq<char>>, n: int) -> Seq<FindingView>
    decreases n,
{
    if n <= 0 {
        Seq::empty()
    } else if summary_kind_of(ls[n - 1]) is Some {
        findings_upto(ls, n - 1).push(finding_at(ls, n - 1))
    } else {
        findings_upto(ls, n - 1)
    }
}

/// The findings that libFuzzer output `text` reports: one per summary line,
/// in order.
pub open spec fn parsed_findings(text: Seq<char>) -> Seq<FindingView> {
    findings_upto(lines(text), lines(text).len() as int)
}

/// The execution count on a status line `#<digits>...` (leading whitespace
/// allowed), if the digits fit in a `u64`.
pub open spec fn status_count(line: Seq<char>) -> Option<u64> {
    let t = trim_start(line);
    if t.len() > 0 && t[0] == '#' {
        let rest = t.drop_first();
        let n = digit_run(rest);
        let v = digits_value(rest.take(n as int));
        if n > 0 && v <= u64::MAX {
            Some(v as u64)
        } else {
            None
        }
    } else {
        None
    }
}

/// The highest execution count among the first `n` lines.
pub open spec fn max_count_upto(ls: Seq<Seq<char>>, n: int) -> Option<u64>
    decreases n,
{
    if n <= 0 {
        None
    } else {
        let prev = max_count_upto(ls, n - 1);
        match status_count(ls[n - 1]) {
            None => prev,
            Some(v) => match prev {
                None => Some(v),
                Some(p) => Some(
                    if p >= v {
                        p
                    } else {
                        v
                    },
                ),
            },
        }
    }
}

/// The highest execution count on the status lines of `text`.
pub open spec fn parsed_executions(text: Seq<char>) -> Option<u64> {
    max_count_upto(lines(text), lines(text).len() as int)
}

// ---------------------------------------------------------------------------
// Laws
// ---------------------------------------------------------------------------

proof fn lemma_fwd_reproducer_nonempty(ls: Seq<Seq<char>>, j: int, hi: int)
    ensures
        fwd_reproducer(ls, j, hi) matches Some(p) ==> p.len() > 0,
    decreases hi - j,
{
    if j < 0 || j >= hi || j >= ls.len() {
    } else if reproducer_path_of(trim(ls[j])) is None {
        lemma_fwd_reproducer_nonempty(ls, j + 1, hi);
    }
}

proof fn lemma_back_reproducer_nonempty(ls: Seq<Seq<char>>, j: int, lo: int)
    ensures
        back_reproducer(ls, j, lo) matches Some(p) ==> p.len() > 0,
    decreases j - lo + 1,
{
    if j < lo || j < 0 || j >= ls.len() {
    } else if reproducer_path_of(trim(ls[j])) is None {
        lemma_back_reproducer_nonempty(ls, j - 1, lo);
    }
}

proof fn lemma_findings_upto_paths(ls: Seq<Seq<char>>, n: int)
    ensures
        forall|j: int|
            0 <= j < findings_upto(ls, n).len() ==> #[trigger] findings_upto(
                ls,
                n,
            )[j].reproducer_path.len() > 0,
    decreases n,
{
    if n > 0 {
        lemma_findings_upto_paths(ls, n - 1);
        if summary_kind_of(ls[n - 1]) is Some {
            let i = n - 1;
            lemma_fwd_reproducer_nonempty(ls, i + 1, i + 11);
            lemma_back_reproducer_nonempty(ls, i - 1, if i >= 20 { i - 20 } else { 0 });
            let prev = findings_upto(ls, n - 1);
            let cur = findings_upto(ls, n);
            reveal_strlit(">");
            assert(cur[prev.len() as int] == finding_at(ls, i));
            assert(finding_at(ls, i).reproducer_path.len() > 0);
            assert forall|j: int| 0 <= j < cur.len() implies #[trigger] cur[j].reproducer_path.len()
                > 0 by {
                if j < prev.len() {
                    assert(cur[j] == prev[j]);
                }
            }
        }
    }
}

/// Every parsed finding carries a non-empty reproducer path: the announced
/// path, or the `<unknown reproducer for <kind>>` sentinel.
pub proof fn lemma_findings_have_reproducers(text: Seq<char>)
    ensures
        forall|j: int|
            0 <= j < parsed_findings(text).len() ==> #[trigger] parsed_findings(
                text,
            )[j].reproducer_path.len() > 0,
{
    lemma_findings_upto_paths(lines(text), lines(text).len() as int);
}

/// Text with no summary line among the first `n` lines reports no finding.
pub proof fn lemma_no_summary_no_findings(ls: Seq<Seq<char>>, n: int)
    requires
        forall|j: int| 0 <= j < n ==> #[trigger] summary_kind_of(ls[j]) is None,
    ensures
        findings_upto(ls, n).len() == 0,
    decreases n,
{
    if n > 0 {
        lemma_no_summary_no_findings(ls, n - 1);
    }
}

/// The execution count is the highest count on any status line: it is the
/// count of some status line and no status line has a higher one; there is
/// none exactly when no line is a status line.
pub proof fn lemma_executions_is_max(ls: Seq<Seq<char>>, n: int)
    requires
        0 <= n <= ls.len(),
    ensures
        max_count_upto(ls, n) is None <==> forall|j: int|
            0 <= j < n ==> #[trigger] status_count(ls[j]) is None,
        max_count_upto(ls, n) matches Some(m) ==> {
            &&& exists|j: int| 0 <= j < n && #[trigger] status_count(ls[j]) == Some(m)
            &&& forall|j: int|
                0 <= j < n && #[trigger] status_count(ls[j]) is Some ==> status_count(ls[j])->0
                    <= m
        },
    decreases n,
{
    if n > 0 {
        lemma_executions_is_max(ls, n - 1);
        let prev = max_count_upto(ls, n - 1);
        match status_count(ls[n - 1]) {
            None => {},
            Some(v) => {
                match prev {
                    None => {},
                    Some(p) => {
                        let w = choose|j: int|
                            0 <= j < n - 1 && #[trigger] status_count(ls[j]) == Some(p);
                        assert(status_count(ls[w]) == Some(p));
                    },
                }
            },
        }
    }
}

// ---------------------------------------------------------------------------
// Executable parser
// ---------------------------------------------------------------------------

/// Kind of finding a `SUMMARY: libFuzzer:` line reports, on characters.
fn summary_kind_chars(line: &[char]) -> (r: Option<FuzzFindingKind>)
    ensures
        r == summary_kind_of(line@),
{
    let l = trim_chars(line);
    let prefix = chars_of("SUMMARY: libFuzzer:");
    if !starts_with_chars(l.as_slice(), prefix.as_slice()) {
        return None;
    }
    let stripped = strip_prefix_all_chars(l.as_slice(), prefix.as_slice());
    let rest = trim_chars(stripped.as_slice());
    let timeout = chars_of("timeout");
    let oom = chars_of("out-of-memory");
    if starts_with_chars(rest.as_slice(), timeout.as_slice()) {
        Some(FuzzFindingKind::Timeout)
    } else if starts_with_chars(rest.as_slice(), oom.as_slice()) {
        Some(FuzzFindingKind::OutOfMemory)
    } else {
        Some(FuzzFindingKind::Crash)
    }
}

/// Kind of finding a `SUMMARY: libFuzzer:` line reports, or `None` for any
/// other line.
pub fn summary_kind(line: &str) -> (r: Option<FuzzFindingKind>)
    ensures
        r == summary_kind_of(line@),
{
    let cs = chars_of(line);
    summary_kind_chars(cs.as_slice())
}

/// Whether a trimmed line describes a failure.
fn is_descriptive_chars(t: &[char]) -> (r: bool)
    ensures
        r == is_descriptive(t@),
{
    let banner = chars_of("==");
    let fuzzer_error = chars_of("ERROR: libFuzzer:");
    let thread = chars_of("thread '");
    let panicked = chars_of("panicked at");
    let error = chars_of("ERROR:");
    (starts_with_chars(t, banner.as_slice()) && contains_chars(t, fuzzer_error.as_slice())) || (
    starts_with_chars(t, thread.as_slice()) && contains_chars(t, panicked.as_slice()))
        || starts_with_chars(t, error.as_slice())
}

/// The nearest descriptive line among the 20 lines before line `i`, trimmed.
pub(crate) fn previous_descriptive_line(ls: &Vec<Vec<char>>, i: usize) -> (r: Option<Vec<char>>)
    requires
        i <= ls@.len(),
    ensures
        r matches Some(d) ==> previous_descriptive(line_views(ls@), i as int) == Some(d@),
        r is None ==> previous_descriptive(line_views(ls@), i as int) is None,
{
    let ghost v = line_views(ls@);
    let lo: usize = if i >= 20 {
        i - 20
    } else {
        0
    };
    let mut j = i;
    while j > lo
        invariant
            v == line_views(ls@),
            i <= ls@.len(),
            lo <= j <= i,
            lo == (if i >= 20 { i - 20 } else { 0 }),
            previous_descriptive(v, i as int) == back_descriptive(v, j - 1, lo as int),
        decreases j,
    {
        let t = trim_chars(ls[j - 1].as_slice());
        assert(v[j - 1] == ls@[j - 1]@);
        if is_descriptive_chars(t.as_slice()) {
            return Some(t);
        }
        j -= 1;
    }
    None
}

/// The reproducer path announced on a line, if any.
pub fn extract_reproducer_path(line: &str) -> (r: Option<String>)
    ensures
        r matches Some(p) ==> reproducer_path_of(line@) == Some(p@),
        r is None ==> reproducer_path_of(line@) is None,
{
    let cs = chars_of(line);
    match extract_reproducer_chars(cs.as_slice()) {
        Some(p) => Some(string_of(p.as_slice())),
        None => None,
    }
}

/// The reproducer path announced on a line, on characters.
fn extract_reproducer_chars(t: &[char]) -> (r: Option<Vec<char>>)
    ensures
        r matches Some(p) ==> reproducer_path_of(t@) == Some(p@),
        r is None ==> reproducer_path_of(t@) is None,
{
    let marker = chars_of("Test unit written to ");
    match find_chars(t, marker.as_slice()) {
        None => None,
        Some(k) => {
            proof {
                lemma_find_occurs(t@, marker@);
                assert(occurs_at(t@, marker@, k as int));
            }
            let tl = t.len();
            let ml = marker.len();
            assert(k + ml <= tl);
            let after = slice_chars(t, k + ml, tl);
            assert(after@ == t@.skip(k + marker@.len()));
            let p = trim_chars(after.as_slice());
            if p.len() == 0 {
                None
            } else {
                Some(p)
            }
        },
    }
}

/// The reproducer path for the summary on line `i`: the nearest among the
/// 10 lines after it, else the nearest among the 20 lines before it.
pub(crate) fn reproducer_path_after(ls: &Vec<Vec<char>>, i: usize) -> (r: Option<Vec<char>>)
    requires
        i <= ls@.len(),
    ensures
        r matches Some(p) ==> reproducer_near(line_views(ls@), i as int) == Some(p@),
        r is None ==> reproducer_near(line_views(ls@), i as int) is None,
{
    let ghost v = line_views(ls@);
    let n = ls.len();
    if i < n {
        let mut j = i + 1;
        while j < n && j - i < 11
            invariant
                v == line_views(ls@),
                n == ls@.len(),
                i < j <= n,
                j - i <= 11,
                fwd_reproducer(v, i + 1, i + 11) == fwd_reproducer(v, j as int, i + 11),
            decreases n - j,
        {
            let t = trim_chars(ls[j].as_slice());
            assert(v[j as int] == ls@[j as int]@);
            match extract_reproducer_chars(t.as_slice()) {
                Some(p) => {
                    return Some(p);
                },
                None => {},
            }
            j += 1;
        }
        assert(fwd_reproducer(v, j as int, i + 11) is None);
    }
    assert(fwd_reproducer(v, i + 1, i + 11) is None);
    let lo: usize = if i >= 20 {
        i - 20
    } else {
        0
    };
    let mut j = i;
    while j > lo
        invariant
            v == line_views(ls@),
            i <= ls@.len(),
            lo <= j <= i,
            lo == (if i >= 20 { i - 20 } else { 0 }),
            reproducer_near(v, i as int) == back_reproducer(v, j - 1, lo as int),
        decreases j,
    {
        let t = trim_chars(ls[j - 1].as_slice());
        assert(v[j - 1] == ls@[j - 1]@);
        match extract_reproducer_chars(t.as_slice()) {
            Some(p) => {
                return Some(p);
            },
            None => {},
        }
        j -= 1;
    }
    None
}

/// The sentinel path `<unknown reproducer for <kind>>`.
fn unknown_reproducer_string(k: FuzzFindingKind) -> (r: String)
    ensures
        r@ == unknown_reproducer(k),
{
    let mut s = String::from_str("<unknown reproducer for ");
    s.append(k.label());
    s.append(">");
    s
}

/// Parse the findings out of libFuzzer's stderr: one per
/// `SUMMARY: libFuzzer:` line, in order, with its kind, the nearest
/// descriptive line before it as summary (else the summary line itself),
/// and the nearest announced reproducer path (else a sentinel).
pub fn parse_findings(stderr: &str) -> (r: Vec<FuzzFinding>)
    ensures
        finding_views(r@) == parsed_findings(stderr@),
{
    let cs = chars_of(stderr);
    let ls = lines_of(cs.as_slice());
    let ghost v = line_views(ls@);
    assert(v == lines(stderr@));
    let n = ls.len();
    let mut out: Vec<FuzzFinding> = Vec::new();
    for i in 0..n
        invariant
            n == ls@.len(),
            v == line_views(ls@),
            finding_views(out@) == findings_upto(v, i as int),
    {
        assert(v[i as int] == ls@[i as int]@);
        match summary_kind_chars(ls[i].as_slice()) {
            None => {},
            Some(k) => {
                let summary = match previous_descriptive_line(&ls, i) {
                    Some(d) => string_of(d.as_slice()),
                    None => string_of(ls[i].as_slice()),
                };
                let path = match reproducer_path_after(&ls, i) {
                    Some(p) => string_of(p.as_slice()),
                    None => unknown_reproducer_string(k),
                };
                let f = FuzzFinding { kind: k, reproducer_path: path, summary };
                let ghost before = out@;
                out.push(f);
                assert(finding_views(out@) == finding_views(before).push(f@));
                assert(f@ == finding_at(v, i as int));
            },
        }
    }
    out
}

proof fn lemma_digit_run(s: Seq<char>, k: int)
    requires
        0 <= k <= s.len(),
        forall|j: int| 0 <= j < k ==> is_ascii_digit(#[trigger] s[j]),
        k == s.len() || !is_ascii_digit(s[k]),
    ensures
        digit_run(s) == k,
    decreases k,
{
    if k > 0 {
        let t = s.drop_first();
        assert forall|j: int| 0 <= j < k - 1 implies is_ascii_digit(#[trigger] t[j]) by {
            assert(t[j] == s[j + 1]);
        }
        if k - 1 < t.len() {
            assert(t[k - 1] == s[k]);
        }
        lemma_digit_run(t, k - 1);
    }
}

/// The execution count on a status line, on characters.
fn status_count_chars(line: &[char]) -> (r: Option<u64>)
    ensures
        r == status_count(line@),
{
    let t = trim_start_chars(line);
    if t.len() == 0 || t[0] != '#' {
        return None;
    }
    let rest = slice_chars(t.as_slice(), 1, t.len());
    assert(rest@ == t@.drop_first());
    let n = rest.len();
    let mut k: usize = 0;
    let mut acc: u64 = 0;
    let mut fits = true;
    while k < n && is_ascii_digit_char(rest[k])
        invariant
            n == rest@.len(),
            k <= n,
            forall|j: int| 0 <= j < k ==> is_ascii_digit(#[trigger] rest@[j]),
            fits ==> acc == digits_value(rest@.take(k as int)),
            !fits ==> digits_value(rest@.take(k as int)) > u64::MAX,
        decreases n - k,
    {
        let c = rest[k];
        let d = (c as u32 - '0' as u32) as u64;
        assert(d == digit_value(c));
        assert(rest@.take(k + 1).drop_last() == rest@.take(k as int));
        assert(rest@.take(k + 1).last() == c);
        if fits {
            match acc.checked_mul(10) {
                Some(m) => match m.checked_add(d) {
                    Some(v) => {
                        acc = v;
                    },
                    None => {
                        fits = false;
                    },
                },
                None => {
                    fits = false;
                },
            }
        }
        k += 1;
    }
    proof {
        lemma_digit_run(rest@, k as int);
    }
    if k > 0 && fits {
        Some(acc)
    } else {
        None
    }
}

/// The highest execution count among libFuzzer's `#<N>` status lines, or
/// `None` if there is no such line.
pub fn parse_executions(stderr: &str) -> (r: Option<u64>)
    ensures
        r == parsed_executions(stderr@),
{
    let cs = chars_of(stderr);
    let ls = lines_of(cs.as_slice());
    let ghost v = line_views(ls@);
    assert(v == lines(stderr@));
    let n = ls.len();
    let mut best: Option<u64> = None;
    for i in 0..n
        invariant
            n == ls@.len(),
            v == line_views(ls@),
            best == max_count_upto(v, i as int),
    {
        assert(v[i as int] == ls@[i as int]@);
        match status_count_chars(ls[i].as_slice()) {
            None => {},
            Some(c) => {
                best = match best {
                    None => Some(c),
                    Some(p) => Some(
                        if p >= c {
                            p
                        } else {
                            c
                        },
                    ),
                };
            },
        }
    }
    best
}

} // verus!

verus! {

// ---------------------------------------------------------------------------
// Execution counts of joined texts
// ---------------------------------------------------------------------------

/// The higher of two optional counts; a missing count adds nothing.
pub open spec fn combine_counts(p: Option<u64>, q: Option<u64>) -> Option<u64> {
    match (p, q) {
        (Some(x), Some(y)) => Some(
            if x >= y {
                x
            } else {
                y
            },
        ),
        (Some(x), None) => Some(x),
        (None, y) => y,
    }
}

/// The highest execution count among all of the lines `ls`.
pub open spec fn lines_count(ls: Seq<Seq<char>>) -> Option<u64> {
    max_count_upto(ls, ls.len() as int)
}

proof fn lemma_max_count_prefix(z1: Seq<Seq<char>>, z2: Seq<Seq<char>>, n: int)
    requires
        0 <= n <= z1.len(),
        n <= z2.len(),
        forall|j: int| 0 <= j < n ==> z1[j] == z2[j],
    ensures
        max_count_upto(z1, n) == max_count_upto(z2, n),
    decreases n,
{
    if n > 0 {
        lemma_max_count_prefix(z1, z2, n - 1);
        assert(z1[n - 1] == z2[n - 1]);
    }
}

proof fn lemma_lines_count_push(z: Seq<Seq<char>>, v: Seq<char>)
    ensures
        lines_count(z.push(v)) == combine_counts(lines_count(z), status_count(v)),
{
    let w = z.push(v);
    lemma_max_count_prefix(w, z, z.len() as int);
    assert(w[z.len() as int] == v);
}

/// The highest count of two sequences of lines put together is the higher
/// of their counts.
proof fn lemma_lines_count_concat(x: Seq<Seq<char>>, y: Seq<Seq<char>>)
    ensures
        lines_count(x + y) == combine_counts(lines_count(x), lines_count(y)),
    decreases y.len(),
{
    if y.len() == 0 {
        assert(x + y =~= x);
    } else {
        let y1 = y.drop_last();
        let v = y.last();
        lemma_lines_count_concat(x, y1);
        assert(x + y =~= (x + y1).push(v));
        assert(y =~= y1.push(v));
        lemma_lines_count_push(x + y1, v);
        lemma_lines_count_push(y1, v);
    }
}

proof fn lemma_next_newline_shift(p: Seq<char>, q: Seq<char>, k: int)
    requires
        0 <= k <= q.len(),
    ensures
        next_newline(p + q, p.len() + k) == p.len() + next_newline(q, k),
    decreases q.len() - k,
{
    if k < q.len() {
        assert((p + q)[p.len() + k] == q[k]);
        if q[k] != '\n' {
            lemma_next_newline_shift(p, q, k + 1);
        }
    }
}

/// The lines of `p + q` from inside `q` are those of `q`.
proof fn lemma_lines_shift(p: Seq<char>, q: Seq<char>, k: int)
    requires
        0 <= k <= q.len(),
    ensures
        lines_from(p + q, p.len() + k) == lines_from(q, k),
    decreases q.len() - k,
{
    if k < q.len() {
        lemma_next_newline_shift(p, q, k);
        lemma_next_newline_bounds(q, k);
        let e = next_newline(q, k);
        assert((p + q).subrange(p.len() + k, p.len() + e) =~= q.subrange(k, e));
        if e < q.len() {
            lemma_lines_shift(p, q, e + 1);
        }
    }
}

proof fn lemma_next_newline_prefix(a: Seq<char>, b: Seq<char>, k: int)
    requires
        a.len() > 0,
        a.last() == '\n',
        0 <= k < a.len(),
    ensures
        next_newline(a + b, k) == next_newline(a, k),
        next_newline(a, k) < a.len(),
    decreases a.len() - k,
{
    assert((a + b)[k] == a[k]);
    if a[k] != '\n' {
        lemma_next_newline_prefix(a, b, k + 1);
    }
}

/// The lines of `a + b`, when `a` ends with a newline, are those of `a`
/// followed by those from the start of `b`.
proof fn lemma_lines_prefix(a: Seq<char>, b: Seq<char>, k: int)
    requires
        a.len() > 0,
        a.last() == '\n',
        0 <= k <= a.len(),
    ensures
        lines_from(a + b, k) == lines_from(a, k) + lines_from(a + b, a.len() as int),
    decreases a.len() - k,
{
    if k == a.len() {
        assert(lines_from(a, k) =~= Seq::<Seq<char>>::empty());
        assert(Seq::<Seq<char>>::empty() + lines_from(a + b, k) =~= lines_from(a + b, k));
    } else {
        lemma_next_newline_prefix(a, b, k);
        lemma_next_newline_bounds(a, k);
        let e = next_newline(a, k);
        assert((a + b).subrange(k, e) =~= a.subrange(k, e));
        lemma_lines_prefix(a, b, e + 1);
        let h = seq![strip_cr(a.subrange(k, e))];
        assert(h + lines_from(a, e + 1) + lines_from(a + b, a.len() as int) =~= h + (lines_from(
            a,
            e + 1,
        ) + lines_from(a + b, a.len() as int)));
    }
}

proof fn lemma_digit_run_bound(s: Seq<char>)
    ensures
        digit_run(s) <= s.len(),
    decreases s.len(),
{
    if s.len() > 0 && is_ascii_digit(s[0]) {
        lemma_digit_run_bound(s.drop_first());
    }
}

proof fn lemma_digit_run_push(s: Seq<char>, c: char)
    requires
        !is_ascii_digit(c),
    ensures
        digit_run(s.push(c)) == digit_run(s),
    decreases s.len(),
{
    if s.len() == 0 {
        assert(s.push(c)[0] == c);
    } else {
        assert(s.push(c)[0] == s[0]);
        if is_ascii_digit(s[0]) {
            assert(s.push(c).drop_first() =~= s.drop_first().push(c));
            lemma_digit_run_push(s.drop_first(), c);
        }
    }
}

proof fn lemma_trim_start_push(m: Seq<char>, c: char)
    ensures
        trim_start(m.push(c)) == if trim_start(m).len() > 0 {
            trim_start(m).push(c)
        } else {
            trim_start(seq![c])
        },
    decreases m.len(),
{
    if m.len() == 0 {
        assert(m.push(c) =~= seq![c]);
    } else {
        assert(m.push(c)[0] == m[0]);
        if is_whitespace(m[0]) {
            assert(m.push(c).drop_first() =~= m.drop_first().push(c));
            lemma_trim_start_push(m.drop_first(), c);
        }
    }
}

/// A trailing carriage return does not change a line's execution count.
proof fn lemma_status_count_strip_cr(l: Seq<char>)
    ensures
        status_count(strip_cr(l)) == status_count(l),
{
    if l.len() > 0 && l.last() == '\r' {
        let m = l.drop_last();
        assert(m.push('\r') =~= l);
        lemma_trim_start_push(m, '\r');
        let t = trim_start(m);
        if t.len() == 0 {
            assert(seq!['\r'].drop_first() =~= Seq::<char>::empty());
            assert(trim_start(seq!['\r']) == trim_start(Seq::<char>::empty()));
        } else {
            let t2 = t.push('\r');
            assert(t2[0] == t[0]);
            if t[0] == '#' {
                let rest = t.drop_first();
                assert(t2.drop_first() =~= rest.push('\r'));
                lemma_digit_run_push(rest, '\r');
                lemma_digit_run_bound(rest);
                let n = digit_run(rest);
                assert(rest.push('\r').take(n as int) =~= rest.take(n as int));
            }
        }
    }
}

proof fn lemma_next_newline_terminated(a: Seq<char>, k: int)
    requires
        0 <= k <= a.len(),
    ensures
        next_newline(a.push('\n'), k) == next_newline(a, k),
    decreases a.len() - k,
{
    if k < a.len() {
        assert(a.push('\n')[k] == a[k]);
        if a[k] != '\n' {
            lemma_next_newline_terminated(a, k + 1);
        }
    } else {
        assert(a.push('\n')[k] == '\n');
    }
}

proof fn lemma_lines_count_head(h: Seq<char>, rest: Seq<Seq<char>>)
    ensures
        lines_count(seq![h] + rest) == combine_counts(status_count(h), lines_count(rest)),
{
    lemma_lines_count_concat(seq![h], rest);
    lemma_lines_count_push(Seq::<Seq<char>>::empty(), h);
    assert(Seq::<Seq<char>>::empty().push(h) =~= seq![h]);
}

/// Ending a text with a newline does not change its execution count.
proof fn lemma_count_terminated(a: Seq<char>, k: int)
    requires
        0 <= k <= a.len(),
    ensures
        lines_count(lines_from(a.push('\n'), k)) == lines_count(lines_from(a, k)),
    decreases a.len() - k,
{
    let a2 = a.push('\n');
    lemma_next_newline_terminated(a, k);
    if k == a.len() {
        assert(a2.subrange(k, k) =~= Seq::<char>::empty());
        assert(lines_from(a2, k + 1) =~= Seq::<Seq<char>>::empty());
        lemma_lines_count_head(strip_cr(a2.subrange(k, k)), lines_from(a2, k + 1));
        assert(trim_start(Seq::<char>::empty()) =~= Seq::<char>::empty());
    } else {
        lemma_next_newline_bounds(a, k);
        let e = next_newline(a, k);
        assert(a2.subrange(k, e) =~= a.subrange(k, e));
        if e < a.len() {
            lemma_count_terminated(a, e + 1);
            lemma_lines_count_head(strip_cr(a.subrange(k, e)), lines_from(a2, e + 1));
            lemma_lines_count_head(strip_cr(a.subrange(k, e)), lines_from(a, e + 1));
        } else {
            assert(lines_from(a2, e + 1) =~= Seq::<Seq<char>>::empty());
            lemma_lines_count_head(strip_cr(a.subrange(k, e)), lines_from(a2, e + 1));
            lemma_lines_count_push(Seq::<Seq<char>>::empty(), a.subrange(k, e));
            assert(Seq::<Seq<char>>::empty().push(a.subrange(k, e)) =~= seq![a.subrange(k, e)]);
            lemma_status_count_strip_cr(a.subrange(k, e));
        }
    }
}

/// The execution count of two texts joined by a newline is the higher of
/// their counts: the order of the status lines does not matter.
pub proof fn lemma_executions_of_joined_text(a: Seq<char>, b: Seq<char>)
    ensures
        parsed_executions(a + seq!['\n'] + b) == combine_counts(
            parsed_executions(a),
            parsed_executions(b),
        ),
{
    let a2 = a + seq!['\n'];
    assert(a2 =~= a.push('\n'));
    lemma_lines_prefix(a2, b, 0);
    lemma_lines_shift(a2, b, 0);
    lemma_lines_count_concat(lines(a2), lines(b));
    lemma_count_terminated(a, 0);
}

} // verus!

verus! {

// ---------------------------------------------------------------------------
// Where a finding's reproducer comes from
// ---------------------------------------------------------------------------

proof fn lemma_fwd_skip(ls: Seq<Seq<char>>, k: int, j: int, hi: int)
    requires
        0 <= k <= j < hi,
        j < ls.len(),
        forall|m: int| k <= m < j ==> reproducer_path_of(#[trigger] trim(ls[m])) is None,
    ensures
        fwd_reproducer(ls, k, hi) == fwd_reproducer(ls, j, hi),
    decreases j - k,
{
    if k < j {
        assert(reproducer_path_of(trim(ls[k])) is None);
        lemma_fwd_skip(ls, k + 1, j, hi);
    }
}

proof fn lemma_fwd_none(ls: Seq<Seq<char>>, k: int, hi: int)
    requires
        0 <= k,
        forall|m: int|
            k <= m < hi && m < ls.len() ==> reproducer_path_of(#[trigger] trim(ls[m])) is None,
    ensures
        fwd_reproducer(ls, k, hi) is None,
    decreases hi - k,
{
    if k < hi && k < ls.len() {
        assert(reproducer_path_of(trim(ls[k])) is None);
        lemma_fwd_none(ls, k + 1, hi);
    }
}

proof fn lemma_back_skip(ls: Seq<Seq<char>>, k: int, j: int, lo: int)
    requires
        0 <= lo <= j <= k < ls.len(),
        forall|m: int| j < m <= k ==> reproducer_path_of(#[trigger] trim(ls[m])) is None,
    ensures
        back_reproducer(ls, k, lo) == back_reproducer(ls, j, lo),
    decreases k - j,
{
    if j < k {
        assert(reproducer_path_of(trim(ls[k])) is None);
        lemma_back_skip(ls, k - 1, j, lo);
    }
}

proof fn lemma_back_none(ls: Seq<Seq<char>>, k: int, lo: int)
    requires
        0 <= lo,
        k < ls.len(),
        forall|m: int| lo <= m <= k ==> reproducer_path_of(#[trigger] trim(ls[m])) is None,
    ensures
        back_reproducer(ls, k, lo) is None,
    decreases k - lo + 1,
{
    if k >= lo && k >= 0 {
        assert(reproducer_path_of(trim(ls[k])) is None);
        lemma_back_none(ls, k - 1, lo);
    }
}

/// The reproducer path of a summary on line `i` comes first from the lines
/// after it: when one of the 10 lines after line `i` announces a path, the
/// path is the one announced on the nearest such line `j`, whatever the
/// lines before `i` announce.
pub proof fn lemma_reproducer_after_wins(ls: Seq<Seq<char>>, i: int, j: int)
    requires
        0 <= i < j < ls.len(),
        j <= i + 10,
        reproducer_path_of(trim(ls[j])) is Some,
        forall|m: int| i < m < j ==> reproducer_path_of(#[trigger] trim(ls[m])) is None,
    ensures
        reproducer_near(ls, i) == reproducer_path_of(trim(ls[j])),
{
    lemma_fwd_skip(ls, i + 1, j, i + 11);
}

/// Only when none of the 10 lines after line `i` announces a path do the
/// 20 lines before it count: then the path is the one announced on the
/// nearest such line `j` before `i`.
pub proof fn lemma_reproducer_before_fallback(ls: Seq<Seq<char>>, i: int, j: int)
    requires
        0 <= j < i <= ls.len(),
        i - 20 <= j,
        reproducer_path_of(trim(ls[j])) is Some,
        forall|m: int| j < m < i ==> reproducer_path_of(#[trigger] trim(ls[m])) is None,
        forall|m: int|
            i < m <= i + 10 && m < ls.len() ==> reproducer_path_of(#[trigger] trim(ls[m])) is None,
    ensures
        reproducer_near(ls, i) == reproducer_path_of(trim(ls[j])),
{
    lemma_fwd_none(ls, i + 1, i + 11);
    lemma_back_skip(ls, i - 1, j, if i >= 20 { i - 20 } else { 0 });
}

/// With no path announced on the 10 lines after nor the 20 lines before
/// line `i`, there is no reproducer path.
pub proof fn lemma_reproducer_none(ls: Seq<Seq<char>>, i: int)
    requires
        0 <= i <= ls.len(),
        forall|m: int|
            i - 20 <= m <= i + 10 && m != i && 0 <= m < ls.len() ==> reproducer_path_of(
                #[trigger] trim(ls[m]),
            ) is None,
    ensures
        reproducer_near(ls, i) is None,
{
    lemma_fwd_none(ls, i + 1, i + 11);
    if i > 0 {
        lemma_back_none(ls, i - 1, if i >= 20 { i - 20 } else { 0 });
    }
}

/// Number of summary lines among the first `n` lines.
pub open spec fn summaries_before(ls: Seq<Seq<char>>, n: int) -> nat
    decreases n,
{
    if n <= 0 {
        0
    } else {
        summaries_before(ls, n - 1) + if summary_kind_of(ls[n - 1]) is Some {
            1nat
        } else {
            0nat
        }
    }
}

proof fn lemma_findings_upto_index(ls: Seq<Seq<char>>, n: int, i: int)
    requires
        0 <= n <= ls.len(),
    ensures
        findings_upto(ls, n).len() == summaries_before(ls, n),
        0 <= i < n && summary_kind_of(ls[i]) is Some ==> findings_upto(ls, n)[summaries_before(
            ls,
            i,
        ) as int] == finding_at(ls, i),
    decreases n,
{
    if n > 0 {
        lemma_findings_upto_index(ls, n - 1, i);
        if i == n - 1 && summary_kind_of(ls[i]) is Some {
        } else if 0 <= i < n - 1 && summary_kind_of(ls[i]) is Some {
            lemma_summaries_monotone(ls, i + 1, n - 1);
        }
    }
}

proof fn lemma_summaries_monotone(ls: Seq<Seq<char>>, a: int, b: int)
    requires
        0 <= a <= b,
    ensures
        summaries_before(ls, a) <= summaries_before(ls, b),
    decreases b - a,
{
    if a < b {
        lemma_summaries_monotone(ls, a, b - 1);
    }
}

/// The findings of a text are its summary lines, in order: there are as
/// many findings as summary lines, and the summary on line `i` gives the
/// finding numbered by the summaries before it, with the kind that line
/// names and, when one of the 10 lines after it announces a path, the path
/// from the nearest such line `j`.
pub proof fn lemma_parsed_finding_of_summary(text: Seq<char>, i: int, j: int)
    requires
        0 <= i < lines(text).len(),
        summary_kind_of(lines(text)[i]) is Some,
    ensures
        parsed_findings(text).len() == summaries_before(lines(text), lines(text).len() as int),
        summaries_before(lines(text), i) < parsed_findings(text).len(),
        parsed_findings(text)[summaries_before(lines(text), i) as int].kind == summary_kind_of(
            lines(text)[i],
        )->0,
        ({
            let ls = lines(text);
            (i < j < ls.len() && j <= i + 10 && reproducer_path_of(trim(ls[j])) is Some && (
            forall|m: int| i < m < j ==> reproducer_path_of(#[trigger] trim(ls[m])) is None))
                ==> parsed_findings(text)[summaries_before(ls, i) as int].reproducer_path == (
            reproducer_path_of(trim(ls[j])))->0
        }),
{
    let ls = lines(text);
    lemma_findings_upto_index(ls, ls.len() as int, i);
    lemma_summaries_monotone(ls, i + 1, ls.len() as int);
    if i < j < ls.len() && j <= i + 10 && reproducer_path_of(trim(ls[j])) is Some && (forall|
        m: int,
    |
        i < m < j ==> reproducer_path_of(#[trigger] trim(ls[m])) is None) {
        lemma_reproducer_after_wins(ls, i, j);
    }
}

} // verus!
