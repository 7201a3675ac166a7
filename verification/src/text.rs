//! Text handling shared by the schema layer: token search, textual
//! replacement and whitespace trimming, all stated over sequences of characters.

use vstd::prelude::*;
use vstd::string::*;

verus! {

/// Whether `pat` occurs in `s` starting at position `i`.
pub open spec fn occurs_at(s: Seq<char>, pat: Seq<char>, i: int) -> bool {
    &&& 0 <= i
    &&& i + pat.len() <= s.len()
    &&& s.subrange(i, i + pat.len()) == pat
}

/// Whether `pat` occurs anywhere in `s`.
pub open spec fn has_token(s: Seq<char>, pat: Seq<char>) -> bool {
    exists|i: int| occurs_at(s, pat, i)
}

/// `s` with every occurrence of `pat` replaced by `to`, scanning from the left and
/// resuming after each replaced occurrence. An empty `pat` replaces nothing.
pub open spec fn replaced(s: Seq<char>, pat: Seq<char>, to: Seq<char>) -> Seq<char>
    decreases s.len(),
{
    if pat.len() == 0 || s.len() < pat.len() {
        s
    } else if occurs_at(s, pat, 0) {
        to + replaced(s.subrange(pat.len() as int, s.len() as int), pat, to)
    } else {
        seq![s[0]] + replaced(s.subrange(1, s.len() as int), pat, to)
    }
}

/// A stretch of `s` in which no occurrence of `pat` begins is copied unchanged.
pub proof fn lemma_replaced_skips(s: Seq<char>, pat: Seq<char>, to: Seq<char>, a: int, b: int)
    requires
        0 <= a <= b <= s.len(),
        pat.len() > 0,
        forall|j: int| a <= j < b ==> !occurs_at(s, pat, j),
    ensures
        replaced(s.subrange(a, s.len() as int), pat, to) == s.subrange(a, b) + replaced(
            s.subrange(b, s.len() as int),
            pat,
            to,
        ),
    decreases b - a,
{
    let n = s.len() as int;
    let t = s.subrange(a, n);
    if a == b {
        assert(s.subrange(a, b) + replaced(s.subrange(b, n), pat, to) == replaced(t, pat, to));
    } else {
        lemma_replaced_skips(s, pat, to, a + 1, b);
        let rest = s.subrange(a + 1, n);
        assert(t.subrange(1, t.len() as int) == rest);
        assert(s.subrange(a, b) == seq![s[a]] + s.subrange(a + 1, b));
        if t.len() < pat.len() {
            assert(replaced(rest, pat, to) == rest);
            assert(t == seq![s[a]] + rest);
        } else {
            assert(t.subrange(0, pat.len() as int) == s.subrange(a, a + pat.len()));
            assert(!occurs_at(s, pat, a));
            assert(!occurs_at(t, pat, 0));
        }
        assert(replaced(t, pat, to) == seq![s[a]] + replaced(rest, pat, to));
        assert(seq![s[a]] + (s.subrange(a + 1, b) + replaced(s.subrange(b, n), pat, to)) == (seq![
            s[a],
        ] + s.subrange(a + 1, b)) + replaced(s.subrange(b, n), pat, to));
    }
}

/// Replacing a token that does not occur changes nothing.
pub proof fn lemma_replaced_without_token(s: Seq<char>, pat: Seq<char>, to: Seq<char>)
    requires
        !has_token(s, pat),
    ensures
        replaced(s, pat, to) == s,
{
    if pat.len() > 0 {
        assert forall|j: int| 0 <= j < s.len() implies !occurs_at(s, pat, j) by {}
        lemma_replaced_skips(s, pat, to, 0, s.len() as int);
        assert(s.subrange(0, s.len() as int) == s);
        assert(s.subrange(s.len() as int, s.len() as int) == Seq::<char>::empty());
        assert(s + Seq::<char>::empty() == s);
    }
}

/// The characters of `s`, one by one.
pub fn chars_of(s: &str) -> (v: Vec<char>)
    ensures
        v@ == s@,
{
    let mut v: Vec<char> = Vec::new();
    for c in it: s.chars()
        invariant
            it.seq() == s@,
            v@ == it.seq().subrange(0, it.index()),
    {
        v.push(c);
    }
    v
}

/// Tests whether `pat` occurs in `s` at position `i`.
pub fn occurs_at_index(s: &Vec<char>, pat: &Vec<char>, i: usize) -> (found: bool)
    ensures
        found == occurs_at(s@, pat@, i as int),
{
    let m: usize = pat.len();
    if i > s.len() || m > s.len() - i {
        return false;
    }
    let mut k: usize = 0;
    while k < m
        invariant
            k <= m,
            m == pat.len(),
            i + m <= s.len(),
            forall|j: int| 0 <= j < k ==> s@[i + j] == pat@[j],
        decreases m - k,
    {
        if s[i + k] != pat[k] {
            assert(s@.subrange(i as int, i + m)[k as int] == s@[i + k]);
            return false;
        }
        k += 1;
    }
    assert(s@.subrange(i as int, i + m) == pat@);
    true
}

/// Tests whether `pat` occurs anywhere in `s`.
pub fn contains_token(s: &str, pat: &str) -> (found: bool)
    ensures
        found == has_token(s@, pat@),
{
    let sv = chars_of(s);
    let pv = chars_of(pat);
    let n: usize = sv.len();
    let m: usize = pv.len();
    if m == 0 {
        assert(s@.subrange(0, 0) == pat@);
        assert(occurs_at(s@, pat@, 0));
        return true;
    }
    let mut i: usize = 0;
    while i < n && m <= n - i
        invariant
            i <= n,
            m > 0,
            n == sv.len(),
            m == pv.len(),
            sv@ == s@,
            pv@ == pat@,
            forall|j: int| 0 <= j < i ==> !occurs_at(s@, pat@, j),
        decreases n - i,
    {
        if occurs_at_index(&sv, &pv, i) {
            return true;
        }
        i += 1;
    }
    assert forall|j: int| !occurs_at(s@, pat@, j) by {}
    false
}

/// Replaces every occurrence of the token `pat` in `s` by `to`. An empty token
/// occurs nowhere.
pub fn replace_token(s: &str, pat: &str, to: &str) -> (out: String)
    ensures
        out@ == replaced(s@, pat@, to@),
{
    let sv = chars_of(s);
    let pv = chars_of(pat);
    let n: usize = sv.len();
    let m: usize = pv.len();
    if m == 0 {
        return s.to_owned();
    }
    let mut out = String::new();
    let mut start: usize = 0;
    let mut i: usize = 0;
    assert(s@.subrange(0, n as int) == s@);
    while i < n && m <= n - i
        invariant
            start <= i <= n,
            n == sv.len(),
            m == pv.len(),
            m > 0,
            sv@ == s@,
            pv@ == pat@,
            forall|j: int| start <= j < i ==> !occurs_at(s@, pat@, j),
            replaced(s@, pat@, to@) == out@ + replaced(s@.subrange(start as int, n as int), pat@, to@),
        decreases n - i,
    {
        if occurs_at_index(&sv, &pv, i) {
            proof {
                lemma_replaced_skips(s@, pat@, to@, start as int, i as int);
                let t = s@.subrange(i as int, n as int);
                assert(t.subrange(0, m as int) == s@.subrange(i as int, i + m));
                assert(occurs_at(t, pat@, 0));
                assert(t.subrange(m as int, t.len() as int) == s@.subrange(i + m, n as int));
            }
            let ghost before = out@;
            let ghost kept = s@.subrange(start as int, i as int);
            out.append(s.substring_char(start, i));
            out.append(to);
            i += m;
            start = i;
            assert(out@ + replaced(s@.subrange(start as int, n as int), pat@, to@) == before + (kept
                + (to@ + replaced(s@.subrange(start as int, n as int), pat@, to@))));
        } else {
            i += 1;
        }
    }
    proof {
        assert forall|j: int| start <= j < n implies !occurs_at(s@, pat@, j) by {}
        lemma_replaced_skips(s@, pat@, to@, start as int, n as int);
        assert(replaced(s@.subrange(n as int, n as int), pat@, to@) == Seq::<char>::empty());
        assert(s@.subrange(start as int, n as int) + Seq::<char>::empty() == s@.subrange(
            start as int,
            n as int,
        ));
    }
    out.append(s.substring_char(start, n));
    out
}

/// Whether `c` is white space in the sense of the Unicode `White_Space` property.
pub open spec fn is_space(c: char) -> bool {
    let u = c as u32;
    ||| 0x09 <= u <= 0x0d
    ||| u == 0x20
    ||| u == 0x85
    ||| u == 0xa0
    ||| u == 0x1680
    ||| 0x2000 <= u <= 0x200a
    ||| u == 0x2028
    ||| u == 0x2029
    ||| u == 0x202f
    ||| u == 0x205f
    ||| u == 0x3000
}

/// `s` without its leading white space.
pub open spec fn trim_start(s: Seq<char>) -> Seq<char>
    decreases s.len(),
{
    if s.len() > 0 && is_space(s[0]) {
        trim_start(s.drop_first())
    } else {
        s
    }
}

/// `s` without its trailing white space.
pub open spec fn trim_end(s: Seq<char>) -> Seq<char>
    decreases s.len(),
{
    if s.len() > 0 && is_space(s.last()) {
        trim_end(s.drop_last())
    } else {
        s
    }
}

/// `s` without leading and trailing white space.
pub open spec fn trimmed(s: Seq<char>) -> Seq<char> {
    trim_end(trim_start(s))
}

/// Tests whether `c` is white space.
pub fn is_whitespace(c: char) -> (b: bool)
    ensures
        b == is_space(c),
{
    let u: u32 = c as u32;
    (0x09 <= u && u <= 0x0d) || u == 0x20 || u == 0x85 || u == 0xa0 || u == 0x1680 || (0x2000 <= u
        && u <= 0x200a) || u == 0x2028 || u == 0x2029 || u == 0x202f || u == 0x205f || u == 0x3000
}

/// The characters of `s` between its leading and its trailing white space.
pub fn trim(s: &str) -> (out: Vec<char>)
    ensures
        out@ == trimmed(s@),
{
    let v = chars_of(s);
    let n: usize = v.len();
    let mut a: usize = 0;
    assert(s@.subrange(0, n as int) == s@);
    while a < n && is_whitespace(v[a])
        invariant
            a <= n,
            n == v.len(),
            v@ == s@,
            trim_start(s@) == trim_start(s@.subrange(a as int, n as int)),
        decreases n - a,
    {
        assert(s@.subrange(a as int, n as int).drop_first() == s@.subrange(a + 1, n as int));
        a += 1;
    }
    let mut b: usize = n;
    while b > a && is_whitespace(v[b - 1])
        invariant
            a <= b <= n,
            n == v.len(),
            v@ == s@,
            trim_end(s@.subrange(a as int, n as int)) == trim_end(s@.subrange(a as int, b as int)),
        decreases b,
    {
        assert(s@.subrange(a as int, b as int).drop_last() == s@.subrange(a as int, b - 1));
        b -= 1;
    }
    let mut out: Vec<char> = Vec::new();
    let mut i: usize = a;
    while i < b
        invariant
            a <= i <= b <= n,
            n == v.len(),
            out@ == v@.subrange(a as int, i as int),
        decreases b - i,
    {
        out.push(v[i]);
        i += 1;
    }
    out
}

/// Tests whether two pieces of text hold the same characters.
pub fn same_text(a: &str, b: &str) -> (equal: bool)
    ensures
        equal == (a@ == b@),
{
    let av = chars_of(a);
    let bv = chars_of(b);
    if av.len() != bv.len() {
        return false;
    }
    let mut i: usize = 0;
    while i < av.len()
        invariant
            i <= av.len(),
            av.len() == bv.len(),
            av@ == a@,
            bv@ == b@,
            forall|j: int| 0 <= j < i ==> av@[j] == bv@[j],
        decreases av.len() - i,
    {
        if av[i] != bv[i] {
            return false;
        }
        i += 1;
    }
    assert(a@ =~= b@);
    true
}

} // verus!
