//! Checking a license file against the freshly rendered reference text, and
//! locating where the two differ.
use vstd::prelude::*;
use crate::text::chars_of;

verus! {

broadcast use vstd::string::group_string_axioms;

/// Where the reference text and the file differ: both read as
/// `common_prefix + <own middle> + common_suffix`.
pub struct TextDiff {
    /// The leading text that both share.
    pub common_prefix: String,
    /// The middle of the reference text, present only there.
    pub expected_only: String,
    /// The middle of the file's text, present only there.
    pub actual_only: String,
    /// The trailing text that both share.
    pub common_suffix: String,
}

/// The outcome of checking a file against the reference text.
pub enum Verdict {
    /// The file holds exactly the reference text.
    Match,
    /// The file differs from the reference text.
    Diff(TextDiff),
}

/// Characters that separate words.
pub open spec fn is_separator(c: char) -> bool {
    c == ' ' || c == '\n' || c == '\t' || c == '\r'
}

/// Position `q` of `s` is at an end of `s` or next to a separator.
pub open spec fn at_boundary(s: Seq<char>, q: int) -> bool {
    q <= 0 || q >= s.len() || is_separator(s[q - 1]) || is_separator(s[q])
}

/// The end of the run of equal characters of `e` and `a` that starts at `i`.
pub open spec fn prefix_run(e: Seq<char>, a: Seq<char>, i: nat) -> nat
    decreases e.len() - i,
{
    if i < e.len() && i < a.len() && e[i as int] == a[i as int] {
        prefix_run(e, a, i + 1)
    } else {
        i
    }
}

/// The largest position not above `p` that is a word boundary of both texts.
pub open spec fn snap_prefix(e: Seq<char>, a: Seq<char>, p: nat) -> nat
    decreases p,
{
    if p == 0 || (at_boundary(e, p as int) && at_boundary(a, p as int)) {
        p
    } else {
        snap_prefix(e, a, (p - 1) as nat)
    }
}

/// Length of the shared prefix reported for `e` and `a`: the longest common
/// prefix, cut back to a word boundary of both.
pub open spec fn prefix_len(e: Seq<char>, a: Seq<char>) -> nat {
    snap_prefix(e, a, prefix_run(e, a, 0))
}

/// The character of `s` that stands `j` places before its last one.
pub open spec fn from_end(s: Seq<char>, j: int) -> char {
    s[s.len() - 1 - j]
}

/// The length of the run of equal characters at the ends of `e` and `a`,
/// counting on from `k`.
pub open spec fn suffix_run(e: Seq<char>, a: Seq<char>, k: nat) -> nat
    decreases e.len() - k,
{
    if k < e.len() && k < a.len() && e[e.len() - 1 - k] == a[a.len() - 1 - k] {
        suffix_run(e, a, k + 1)
    } else {
        k
    }
}

/// The largest length not above `k` whose suffixes start at a word boundary
/// of both texts.
pub open spec fn snap_suffix(e: Seq<char>, a: Seq<char>, k: nat) -> nat
    decreases k,
{
    if k == 0 || (at_boundary(e, e.len() - k) && at_boundary(a, a.len() - k)) {
        k
    } else {
        snap_suffix(e, a, (k - 1) as nat)
    }
}

/// Length of the shared suffix reported for `e` and `a`, taken from what
/// follows the shared prefix.
pub open spec fn suffix_len(e: Seq<char>, a: Seq<char>) -> nat {
    let p = prefix_len(e, a) as int;
    let (re, ra) = (e.skip(p), a.skip(p));
    snap_suffix(re, ra, suffix_run(re, ra, 0))
}

/// The four parts that describe how `actual` differs from `expected`.
pub open spec fn diff_parts(e: Seq<char>, a: Seq<char>) -> (Seq<char>, Seq<char>, Seq<char>, Seq<char>) {
    let p = prefix_len(e, a) as int;
    let k = suffix_len(e, a) as int;
    (e.take(p), e.subrange(p, e.len() - k), a.subrange(p, a.len() - k), e.skip(e.len() - k))
}

proof fn lemma_prefix_run(e: Seq<char>, a: Seq<char>, i: nat)
    requires
        i <= e.len(),
        i <= a.len(),
    ensures
        i <= prefix_run(e, a, i) <= e.len(),
        prefix_run(e, a, i) <= a.len(),
        forall|j: int| i <= j < prefix_run(e, a, i) ==> e[j] == a[j],
    decreases e.len() - i,
{
    if i < e.len() && i < a.len() && e[i as int] == a[i as int] {
        lemma_prefix_run(e, a, i + 1);
    }
}

proof fn lemma_snap_prefix(e: Seq<char>, a: Seq<char>, p: nat)
    ensures
        snap_prefix(e, a, p) <= p,
    decreases p,
{
    if !(p == 0 || (at_boundary(e, p as int) && at_boundary(a, p as int))) {
        lemma_snap_prefix(e, a, (p - 1) as nat);
    }
}

proof fn lemma_suffix_run(e: Seq<char>, a: Seq<char>, k: nat)
    requires
        k <= e.len(),
        k <= a.len(),
    ensures
        k <= suffix_run(e, a, k) <= e.len(),
        suffix_run(e, a, k) <= a.len(),
        forall|j: int| k <= j < suffix_run(e, a, k) ==> #[trigger] from_end(e, j) == from_end(a, j),
    decreases e.len() - k,
{
    if k < e.len() && k < a.len() && e[e.len() - 1 - k] == a[a.len() - 1 - k] {
        lemma_suffix_run(e, a, k + 1);
    }
}

proof fn lemma_snap_suffix(e: Seq<char>, a: Seq<char>, k: nat)
    ensures
        snap_suffix(e, a, k) <= k,
    decreases k,
{
    if !(k == 0 || (at_boundary(e, e.len() - k) && at_boundary(a, a.len() - k))) {
        lemma_snap_suffix(e, a, (k - 1) as nat);
    }
}

/// The parts of a diff rebuild both texts, and the parts called common are
/// shared by both.
pub proof fn lemma_diff_parts(e: Seq<char>, a: Seq<char>)
    ensures
        ({
            let (prefix, e_mid, a_mid, suffix) = diff_parts(e, a);
            &&& prefix + e_mid + suffix == e
            &&& prefix + a_mid + suffix == a
        }),
{
    let r = prefix_run(e, a, 0);
    lemma_prefix_run(e, a, 0);
    lemma_snap_prefix(e, a, r);
    let p = prefix_len(e, a) as int;
    let (re, ra) = (e.skip(p), a.skip(p));
    let s = suffix_run(re, ra, 0);
    lemma_suffix_run(re, ra, 0);
    lemma_snap_suffix(re, ra, s);
    let k = suffix_len(e, a) as int;
    assert(e.take(p) =~= a.take(p));
    let es = e.skip(e.len() - k);
    let as_ = a.skip(a.len() - k);
    assert(es =~= as_) by {
        assert forall|j: int| 0 <= j < k implies #[trigger] es[j] == as_[j] by {
            let t = k - 1 - j;
            assert(from_end(re, t) == from_end(ra, t));
        }
    }
    assert(e.take(p) + e.subrange(p, e.len() - k) + e.skip(e.len() - k) =~= e);
    assert(a.take(p) + a.subrange(p, a.len() - k) + a.skip(a.len() - k) =~= a);
}

fn is_separator_exec(c: char) -> (b: bool)
    ensures
        b == is_separator(c),
{
    c == ' ' || c == '\n' || c == '\t' || c == '\r'
}

/// Whether position `q` of `s` with its first `from` characters dropped is a
/// word boundary.
fn at_boundary_exec(s: &Vec<char>, from: usize, q: usize) -> (b: bool)
    requires
        from <= s@.len(),
    ensures
        b == at_boundary(s@.skip(from as int), q as int),
{
    if q == 0 || q >= s.len() - from {
        true
    } else {
        is_separator_exec(s[from + q - 1]) || is_separator_exec(s[from + q])
    }
}

/// `v` is the verdict on a file holding `actual` against the reference text
/// `expected`: a match exactly when the two are equal, and otherwise the parts
/// given by `diff_parts`.
pub open spec fn is_verdict(v: Verdict, expected: Seq<char>, actual: Seq<char>) -> bool {
    &&& (v is Match <==> expected == actual)
    &&& v matches Verdict::Diff(d) ==> diff_parts(expected, actual) == (
        d.common_prefix@,
        d.expected_only@,
        d.actual_only@,
        d.common_suffix@,
    )
}

/// Checks the text of a file against the reference text: a match exactly when
/// the two are equal, and otherwise the parts in which they differ.
pub fn compare(expected: &str, actual: &str) -> (v: Verdict)
    ensures
        is_verdict(v, expected@, actual@),
        v matches Verdict::Diff(d) ==> {
            &&& d.common_prefix@ + d.expected_only@ + d.common_suffix@ == expected@
            &&& d.common_prefix@ + d.actual_only@ + d.common_suffix@ == actual@
        },
{
    let ghost e = expected@;
    let ghost a = actual@;
    let reference = String::from_str(expected);
    let on_disk = String::from_str(actual);
    if reference == on_disk {
        return Verdict::Match;
    }
    let ec = chars_of(expected);
    let ac = chars_of(actual);
    let mut p: usize = 0;
    while p < ec.len() && p < ac.len() && ec[p] == ac[p]
        invariant
            ec@ == e,
            ac@ == a,
            p <= e.len(),
            p <= a.len(),
            prefix_run(e, a, p as nat) == prefix_run(e, a, 0),
        decreases e.len() - p,
    {
        p = p + 1;
    }
    let ghost run = p as nat;
    assert(e.skip(0) =~= e);
    assert(a.skip(0) =~= a);
    while p > 0 && !(at_boundary_exec(&ec, 0, p) && at_boundary_exec(&ac, 0, p))
        invariant
            ec@ == e,
            ac@ == a,
            e.skip(0) == e,
            a.skip(0) == a,
            p <= e.len(),
            p <= a.len(),
            snap_prefix(e, a, p as nat) == snap_prefix(e, a, run),
            run == prefix_run(e, a, 0),
        decreases p,
    {
        p = p - 1;
    }
    let ghost re = e.skip(p as int);
    let ghost ra = a.skip(p as int);
    let en = ec.len() - p;
    let an = ac.len() - p;
    let mut k: usize = 0;
    while k < en && k < an && ec[ec.len() - 1 - k] == ac[ac.len() - 1 - k]
        invariant
            ec@ == e,
            ac@ == a,
            p <= e.len(),
            p <= a.len(),
            en == e.len() - p,
            an == a.len() - p,
            re == e.skip(p as int),
            ra == a.skip(p as int),
            k <= en,
            k <= an,
            suffix_run(re, ra, k as nat) == suffix_run(re, ra, 0),
        decreases en - k,
    {
        k = k + 1;
    }
    let ghost srun = k as nat;
    while k > 0 && !(at_boundary_exec(&ec, p, en - k) && at_boundary_exec(&ac, p, an - k))
        invariant
            ec@ == e,
            ac@ == a,
            p <= e.len(),
            p <= a.len(),
            en == e.len() - p,
            an == a.len() - p,
            re == e.skip(p as int),
            ra == a.skip(p as int),
            k <= en,
            k <= an,
            snap_suffix(re, ra, k as nat) == snap_suffix(re, ra, srun),
            srun == suffix_run(re, ra, 0),
        decreases k,
    {
        k = k - 1;
    }
    let el = ec.len();
    let al = ac.len();
    let common_prefix = String::from_str(expected.substring_char(0, p));
    let expected_only = String::from_str(expected.substring_char(p, el - k));
    let actual_only = String::from_str(actual.substring_char(p, al - k));
    let common_suffix = String::from_str(expected.substring_char(el - k, el));
    assert(e.subrange(0, p as int) =~= e.take(p as int));
    assert(e.subrange(el - k, el as int) =~= e.skip(el - k));
    proof {
        lemma_diff_parts(e, a);
    }
    Verdict::Diff(TextDiff { common_prefix, expected_only, actual_only, common_suffix })
}

} // verus!
