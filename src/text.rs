//! Character-level text operations: decoding a string into its characters,
//! replacing every occurrence of a pattern, and writing integers in decimal.
use vstd::prelude::*;

verus! {

broadcast use vstd::string::group_string_axioms;

/// `p` occurs in `s` starting at position `i`.
pub open spec fn occurs_at(s: Seq<char>, p: Seq<char>, i: int) -> bool {
    0 <= i && i + p.len() <= s.len() && s.subrange(i, i + p.len()) == p
}

/// `p` occurs nowhere in `s`.
pub open spec fn absent(s: Seq<char>, p: Seq<char>) -> bool {
    forall|i: int| !#[trigger] occurs_at(s, p, i)
}

/// `s` with every occurrence of `p` replaced by `r`, scanning from the left
/// and never matching inside a replacement or overlapping an earlier match.
pub open spec fn replaced(s: Seq<char>, p: Seq<char>, r: Seq<char>) -> Seq<char>
    decreases s.len(),
{
    if p.len() == 0 || s.len() < p.len() {
        s
    } else if occurs_at(s, p, 0) {
        r + replaced(s.skip(p.len() as int), p, r)
    } else {
        seq![s[0]] + replaced(s.skip(1), p, r)
    }
}

/// The character that writes the decimal digit `d`.
pub open spec fn digit_char(d: nat) -> char {
    if d == 0 { '0' }
    else if d == 1 { '1' }
    else if d == 2 { '2' }
    else if d == 3 { '3' }
    else if d == 4 { '4' }
    else if d == 5 { '5' }
    else if d == 6 { '6' }
    else if d == 7 { '7' }
    else if d == 8 { '8' }
    else { '9' }
}

/// The decimal digits of `n`, most significant first, without leading zeros.
pub open spec fn digits_of(n: nat) -> Seq<char>
    decreases n,
{
    if n < 10 {
        seq![digit_char(n)]
    } else {
        digits_of(n / 10) + seq![digit_char(n % 10)]
    }
}

/// `n` written in decimal, with a leading `-` when it is negative.
pub open spec fn decimal_of(n: int) -> Seq<char> {
    if n < 0 {
        seq!['-'] + digits_of((-n) as nat)
    } else {
        digits_of(n as nat)
    }
}

/// A character of an occurrence is the matching character of the pattern.
pub proof fn lemma_occurs_index(s: Seq<char>, p: Seq<char>, i: int, j: int)
    requires
        occurs_at(s, p, i),
        0 <= j < p.len(),
    ensures
        s[i + j] == p[j],
{
    assert(s.subrange(i, i + p.len())[j] == s[i + j]);
}

/// An occurrence that lies within the first part of a concatenation is one of
/// that part, and one that starts after it is one of the second part.
pub proof fn lemma_occurs_concat(u: Seq<char>, v: Seq<char>, p: Seq<char>, i: int)
    ensures
        0 <= i && i + p.len() <= u.len() ==> (occurs_at(u + v, p, i) <==> occurs_at(u, p, i)),
        i >= u.len() ==> (occurs_at(u + v, p, i) <==> occurs_at(v, p, i - u.len())),
{
    if 0 <= i && i + p.len() <= u.len() {
        assert((u + v).subrange(i, i + p.len()) =~= u.subrange(i, i + p.len()));
    }
    if i >= u.len() && i + p.len() <= u.len() + v.len() {
        assert((u + v).subrange(i, i + p.len()) =~= v.subrange(i - u.len(), i - u.len() + p.len()));
    }
}

/// No occurrence starts inside `u` when `u` holds none and the first
/// character of `v` appears nowhere in the pattern but at its start.
pub proof fn lemma_no_straddle(u: Seq<char>, v: Seq<char>, p: Seq<char>)
    requires
        absent(u, p),
        v.len() > 0 ==> forall|k: int| 1 <= k < p.len() ==> p[k] != v[0],
    ensures
        forall|i: int| 0 <= i < u.len() ==> !#[trigger] occurs_at(u + v, p, i),
{
    assert forall|i: int| 0 <= i < u.len() implies !#[trigger] occurs_at(u + v, p, i) by {
        lemma_occurs_concat(u, v, p, i);
        if occurs_at(u + v, p, i) && i + p.len() > u.len() {
            lemma_occurs_index(u + v, p, i, u.len() - i);
        }
    }
}

/// Joining two texts without the pattern, where the first character of the
/// second appears nowhere in the pattern but at its start, gives none.
pub proof fn lemma_absent_concat(u: Seq<char>, v: Seq<char>, p: Seq<char>)
    requires
        absent(u, p),
        absent(v, p),
        v.len() > 0 ==> forall|k: int| 1 <= k < p.len() ==> p[k] != v[0],
    ensures
        absent(u + v, p),
{
    lemma_no_straddle(u, v, p);
    assert forall|i: int| !#[trigger] occurs_at(u + v, p, i) by {
        lemma_occurs_concat(u, v, p, i);
    }
}

/// A text in which the first character of a non-empty pattern never appears,
/// put in front of a text without the pattern, gives none.
pub proof fn lemma_absent_after_free(u: Seq<char>, v: Seq<char>, p: Seq<char>)
    requires
        p.len() > 0,
        forall|k: int| 0 <= k < u.len() ==> u[k] != p[0],
        absent(v, p),
    ensures
        absent(u + v, p),
{
    assert forall|i: int| !#[trigger] occurs_at(u + v, p, i) by {
        lemma_occurs_concat(u, v, p, i);
        if occurs_at(u + v, p, i) && i < u.len() {
            lemma_occurs_index(u + v, p, i, 0);
        }
    }
}

/// Replacing leaves unchanged a prefix in which no occurrence starts.
pub proof fn lemma_replaced_prefix(x: Seq<char>, rest: Seq<char>, p: Seq<char>, r: Seq<char>)
    requires
        p.len() > 0,
        forall|i: int| 0 <= i < x.len() ==> !#[trigger] occurs_at(x + rest, p, i),
    ensures
        replaced(x + rest, p, r) == x + replaced(rest, p, r),
    decreases x.len(),
{
    if x.len() > 0 {
        let s = x + rest;
        let t = x.skip(1);
        assert(s.skip(1) =~= t + rest);
        assert forall|i: int| 0 <= i < t.len() implies !#[trigger] occurs_at(t + rest, p, i) by {
            assert(!occurs_at(s, p, i + 1));
            if occurs_at(t + rest, p, i) {
                assert(s.subrange(i + 1, i + 1 + p.len()) =~= (t + rest).subrange(i, i + p.len()));
            }
        }
        lemma_replaced_prefix(t, rest, p, r);
        assert(!occurs_at(s, p, 0));
        if s.len() >= p.len() {
            assert(seq![s[0]] + (t + replaced(rest, p, r)) =~= x + replaced(rest, p, r));
        } else {
            assert(rest.len() < p.len());
            assert(replaced(rest, p, r) == rest);
            assert(t + rest == s.skip(1));
            assert(s =~= x + rest);
        }
    }
}

/// Replacing a pattern in a text that does not hold it changes nothing.
pub proof fn lemma_replaced_absent(s: Seq<char>, p: Seq<char>, r: Seq<char>)
    requires
        p.len() > 0,
        absent(s, p),
    ensures
        replaced(s, p, r) == s,
{
    let e = Seq::<char>::empty();
    assert(s + e =~= s);
    lemma_replaced_prefix(s, e, p, r);
    assert(replaced(e, p, r) == e);
}

/// A text that starts with the pattern has the replacement there.
pub proof fn lemma_replaced_front(p: Seq<char>, rest: Seq<char>, r: Seq<char>)
    requires
        p.len() > 0,
    ensures
        replaced(p + rest, p, r) == r + replaced(rest, p, r),
{
    let s = p + rest;
    assert(s.subrange(0, p.len() as int) =~= p);
    assert(s.skip(p.len() as int) =~= rest);
}

/// The characters of `s`, in order.
pub fn chars_of(s: &str) -> (r: Vec<char>)
    ensures
        r@ == s@,
{
    let mut v: Vec<char> = Vec::new();
    for c in it: s.chars()
        invariant
            v@ == it.history(),
    {
        v.push(c);
    }
    v
}

/// Whether `p` occurs in `s` at position `i`.
pub fn occurs_at_exec(s: &Vec<char>, p: &Vec<char>, i: usize) -> (b: bool)
    ensures
        b == occurs_at(s@, p@, i as int),
{
    if i > s.len() || s.len() - i < p.len() {
        return false;
    }
    let mut j: usize = 0;
    while j < p.len()
        invariant
            j <= p.len(),
            i + p.len() <= s.len(),
            forall|k: int| 0 <= k < j ==> s@[i + k] == p@[k],
        decreases p.len() - j,
    {
        if s[i + j] != p[j] {
            assert(s@.subrange(i as int, i + p.len())[j as int] != p@[j as int]);
            return false;
        }
        j = j + 1;
    }
    assert(s@.subrange(i as int, i + p.len()) =~= p@);
    true
}

/// Every occurrence of a non-empty `p` in `s` replaced by `r`.
pub fn replace_all(s: &str, p: &str, r: &str) -> (out: String)
    requires
        p@.len() > 0,
    ensures
        out@ == replaced(s@, p@, r@),
{
    let sc = chars_of(s);
    let pc = chars_of(p);
    let n = sc.len();
    let m = pc.len();
    let mut out = String::new();
    let mut last: usize = 0;
    let mut i: usize = 0;
    assert(s@.skip(0) =~= s@);
    assert(s@.subrange(0, 0) =~= Seq::<char>::empty());
    assert(out@ + s@.subrange(0, 0) =~= Seq::<char>::empty());
    while i < n
        invariant
            last <= i <= n,
            n == s@.len(),
            m == p@.len(),
            m > 0,
            sc@ == s@,
            pc@ == p@,
            out@ + s@.subrange(last as int, i as int) + replaced(s@.skip(i as int), p@, r@)
                == replaced(s@, p@, r@),
        decreases n - i,
    {
        let ghost rest = s@.skip(i as int);
        if occurs_at_exec(&sc, &pc, i) {
            assert(rest.subrange(0, m as int) =~= s@.subrange(i as int, i + m));
            assert(rest.skip(m as int) =~= s@.skip(i + m));
            let piece = s.substring_char(last, i);
            out.append(piece);
            out.append(r);
            i = i + m;
            last = i;
            assert(s@.subrange(last as int, i as int) =~= Seq::<char>::empty());
        } else {
            proof {
                if rest.len() >= m {
                    if rest.subrange(0, m as int) == p@ {
                        assert(s@.subrange(i as int, i + m) =~= rest.subrange(0, m as int));
                    }
                } else {
                    assert(s@.skip(i + 1).len() < m);
                }
            }
            assert(rest.skip(1) =~= s@.skip(i + 1));
            assert(s@.subrange(last as int, i + 1) =~= s@.subrange(last as int, i as int) + seq![
                s@[i as int],
            ]);
            i = i + 1;
        }
    }
    assert(s@.skip(n as int) =~= Seq::<char>::empty());
    let tail = s.substring_char(last, n);
    out.append(tail);
    out
}

/// The string slice that writes the decimal digit `d`.
fn digit_str(d: u64) -> (r: &'static str)
    requires
        d < 10,
    ensures
        r@ == seq![digit_char(d as nat)],
{
    proof {
        reveal_strlit("0");
        reveal_strlit("1");
        reveal_strlit("2");
        reveal_strlit("3");
        reveal_strlit("4");
        reveal_strlit("5");
        reveal_strlit("6");
        reveal_strlit("7");
        reveal_strlit("8");
        reveal_strlit("9");
    }
    let r = if d == 0 { "0" }
    else if d == 1 { "1" }
    else if d == 2 { "2" }
    else if d == 3 { "3" }
    else if d == 4 { "4" }
    else if d == 5 { "5" }
    else if d == 6 { "6" }
    else if d == 7 { "7" }
    else if d == 8 { "8" }
    else { "9" };
    assert(r@ =~= seq![digit_char(d as nat)]);
    r
}

/// Appends the decimal digits of `n` to `out`.
fn append_digits(out: &mut String, n: u64)
    ensures
        final(out)@ == old(out)@ + digits_of(n as nat),
    decreases n,
{
    if n >= 10 {
        append_digits(out, n / 10);
    }
    out.append(digit_str(n % 10));
    assert(final(out)@ =~= old(out)@ + digits_of(n as nat));
}

/// `n` written in decimal.
pub fn decimal_text(n: i32) -> (r: String)
    ensures
        r@ == decimal_of(n as int),
{
    let mut out = String::new();
    if n < 0 {
        proof {
            reveal_strlit("-");
        }
        out.append("-");
        let magnitude: u64 = (-(n as i64)) as u64;
        append_digits(&mut out, magnitude);
        assert(out@ =~= decimal_of(n as int));
    } else {
        append_digits(&mut out, n as u64);
        assert(out@ =~= decimal_of(n as int));
    }
    out
}

} // verus!
