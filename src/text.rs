//! Text operations on character sequences, with their specifications.

use vstd::prelude::*;

verus! {

/// `p` occurs in `s` at position `i`.
pub open spec fn occurs_at(s: Seq<char>, p: Seq<char>, i: int) -> bool {
    0 <= i && i + p.len() <= s.len() && s.subrange(i, i + p.len()) == p
}

/// `s` begins with `p`.
pub open spec fn has_prefix(s: Seq<char>, p: Seq<char>) -> bool {
    occurs_at(s, p, 0)
}

/// `s` ends with `p`.
pub open spec fn has_suffix(s: Seq<char>, p: Seq<char>) -> bool {
    p.len() <= s.len() && s.subrange(s.len() - p.len(), s.len() as int) == p
}

/// `p` occurs somewhere in `s`.
pub open spec fn contains(s: Seq<char>, p: Seq<char>) -> bool {
    exists|i: int| occurs_at(s, p, i)
}

/// Does `p` occur in `s` at position `i`?
fn occurs_at_exec(s: &str, p: &str, i: usize) -> (b: bool)
    ensures
        b == occurs_at(s@, p@, i as int),
{
    let n = s.unicode_len();
    let m = p.unicode_len();
    if i > n || m > n - i {
        return false;
    }
    let mut k: usize = 0;
    while k < m
        invariant
            n == s@.len(),
            m == p@.len(),
            i + m <= n,
            k <= m,
            forall|j: int| 0 <= j < k ==> s@[i + j] == p@[j],
        decreases m - k,
    {
        if s.get_char(i + k) != p.get_char(k) {
            assert(s@.subrange(i as int, i + m)[k as int] != p@[k as int]);
            return false;
        }
        k += 1;
    }
    assert(s@.subrange(i as int, i + m) =~= p@);
    true
}


/// Does `p` occur anywhere in `s`?
pub fn contains_exec(s: &str, p: &str) -> (b: bool)
    ensures
        b == contains(s@, p@),
{
    let n = s.unicode_len();
    let m = p.unicode_len();
    if m > n {
        return false;
    }
    let last = n - m;
    let mut i: usize = 0;
    while i < last
        invariant
            n == s@.len(),
            m == p@.len(),
            last == n - m,
            i <= last,
            forall|j: int| 0 <= j < i ==> !occurs_at(s@, p@, j),
        decreases last - i,
    {
        if occurs_at_exec(s, p, i) {
            return true;
        }
        i += 1;
    }
    occurs_at_exec(s, p, last)
}

/// Does `s` begin with `p`?
pub fn starts_with(s: &str, p: &str) -> (b: bool)
    ensures
        b == has_prefix(s@, p@),
{
    occurs_at_exec(s, p, 0)
}

/// Does `s` end with `p`?
pub fn ends_with(s: &str, p: &str) -> (b: bool)
    ensures
        b == has_suffix(s@, p@),
{
    let n = s.unicode_len();
    let m = p.unicode_len();
    if m > n {
        return false;
    }
    occurs_at_exec(s, p, n - m)
}

/// The number of times `c` occurs in `s`.
pub open spec fn count_char(s: Seq<char>, c: char) -> nat
    decreases s.len(),
{
    if s.len() == 0 {
        0
    } else {
        count_char(s.drop_last(), c) + if s.last() == c { 1nat } else { 0nat }
    }
}

/// Counts the occurrences of `c` in `s`.
pub fn count_char_exec(s: &str, c: char) -> (r: usize)
    ensures
        r == count_char(s@, c),
{
    let n = s.unicode_len();
    let mut i: usize = 0;
    let mut r: usize = 0;
    while i < n
        invariant
            n == s@.len(),
            i <= n,
            r <= i,
            r == count_char(s@.subrange(0, i as int), c),
        decreases n - i,
    {
        assert(s@.subrange(0, i + 1).drop_last() =~= s@.subrange(0, i as int));
        if s.get_char(i) == c {
            r += 1;
        }
        i += 1;
    }
    assert(s@.subrange(0, n as int) =~= s@);
    r
}

/// `s` with every occurrence of `p` replaced by `r`, scanning from the left
/// and never letting two replaced occurrences overlap.
pub open spec fn replace_all(s: Seq<char>, p: Seq<char>, r: Seq<char>) -> Seq<char>
    decreases s.len(),
{
    if p.len() == 0 || s.len() < p.len() {
        s
    } else if has_prefix(s, p) {
        r + replace_all(s.skip(p.len() as int), p, r)
    } else {
        seq![s[0]] + replace_all(s.skip(1), p, r)
    }
}

/// Replaces every occurrence of the non-empty `p` in `s` by `r`.
pub fn replace_exec(s: &str, p: &str, r: &str) -> (out: String)
    requires
        p@.len() > 0,
    ensures
        out@ == replace_all(s@, p@, r@),
{
    let n = s.unicode_len();
    let m = p.unicode_len();
    let mut out = String::new();
    let mut i: usize = 0;
    assert(s@.skip(0) =~= s@);
    assert(out@ + replace_all(s@, p@, r@) =~= replace_all(s@, p@, r@));
    while i < n
        invariant
            n == s@.len(),
            m == p@.len(),
            m > 0,
            i <= n,
            replace_all(s@, p@, r@) == out@ + replace_all(s@.skip(i as int), p@, r@),
        decreases n - i,
    {
        let ghost rest = s@.skip(i as int);
        if m <= n - i && occurs_at_exec(s, p, i) {
            assert(rest.subrange(0, m as int) =~= s@.subrange(i as int, i + m));
            assert(rest.skip(m as int) =~= s@.skip(i + m));
            let ghost before = out@;
            out.append(r);
            i += m;
            assert(before + (r@ + replace_all(rest.skip(m as int), p@, r@)) =~= out@ + replace_all(
                s@.skip(i as int),
                p@,
                r@,
            ));
        } else {
            proof {
                if m <= n - i {
                    assert(rest.subrange(0, m as int) =~= s@.subrange(i as int, i + m));
                }
                assert(rest.skip(1) =~= s@.skip(i + 1));
            }
            let one = s.substring_char(i, i + 1);
            assert(one@ =~= seq![rest[0]]);
            let ghost before = out@;
            out.append(one);
            i += 1;
            assert(before + (seq![rest[0]] + replace_all(rest.skip(1), p@, r@)) =~= out@ + replace_all(
                s@.skip(i as int),
                p@,
                r@,
            ));
        }
    }
    assert(s@.skip(n as int) =~= Seq::<char>::empty());
    assert(out@ + Seq::<char>::empty() =~= out@);
    out
}


/// `s` with every trailing repetition of the non-empty `p` removed.
pub open spec fn trim_suffix_all(s: Seq<char>, p: Seq<char>) -> Seq<char>
    decreases s.len(),
{
    if p.len() > 0 && has_suffix(s, p) {
        trim_suffix_all(s.subrange(0, s.len() - p.len()), p)
    } else {
        s
    }
}

/// Strips every trailing repetition of the non-empty `p` from `s`.
pub fn trim_suffix_exec<'a>(s: &'a str, p: &str) -> (out: &'a str)
    requires
        p@.len() > 0,
    ensures
        out@ == trim_suffix_all(s@, p@),
{
    let n = s.unicode_len();
    let m = p.unicode_len();
    let mut e: usize = n;
    assert(s@.subrange(0, n as int) =~= s@);
    while m <= e && occurs_at_exec(s, p, e - m)
        invariant
            n == s@.len(),
            m == p@.len(),
            m > 0,
            e <= n,
            trim_suffix_all(s@, p@) == trim_suffix_all(s@.subrange(0, e as int), p@),
        decreases e,
    {
        let ghost cur = s@.subrange(0, e as int);
        assert(cur.subrange(e - m, e as int) =~= s@.subrange(e - m, e as int));
        assert(cur.subrange(0, e - m) =~= s@.subrange(0, e - m));
        e -= m;
    }
    proof {
        let cur = s@.subrange(0, e as int);
        if m <= e {
            assert(cur.subrange(e - m, e as int) =~= s@.subrange(e - m, e as int));
        }
    }
    s.substring_char(0, e)
}


pub proof fn lemma_prefix_of_concat(a: Seq<char>, b: Seq<char>, q: Seq<char>)
    requires
        has_prefix(a, q),
    ensures
        has_prefix(a + b, q),
{
    assert((a + b).subrange(0, q.len() as int) =~= a.subrange(0, q.len() as int));
}

pub proof fn lemma_suffix_of_concat(a: Seq<char>, b: Seq<char>)
    ensures
        has_suffix(a + b, b),
        occurs_at(a + b, b, a.len() as int),
        contains(a + b, b),
{
    assert((a + b).subrange(a.len() as int, (a + b).len() as int) =~= b);
}

pub proof fn lemma_contains_concat(a: Seq<char>, b: Seq<char>, p: Seq<char>)
    requires
        contains(a, p),
    ensures
        contains(a + b, p),
{
    let i = choose|i: int| occurs_at(a, p, i);
    assert((a + b).subrange(i, i + p.len()) =~= a.subrange(i, i + p.len()));
    assert(occurs_at(a + b, p, i));
}

pub proof fn lemma_count_concat(a: Seq<char>, b: Seq<char>, c: char)
    ensures
        count_char(a + b, c) >= count_char(a, c),
    decreases b.len(),
{
    if b.len() == 0 {
        assert(a + b =~= a);
    } else {
        assert((a + b).drop_last() =~= a + b.drop_last());
        lemma_count_concat(a, b.drop_last(), c);
    }
}

/// No occurrence of `p` when its first character is nowhere in `b`.
pub proof fn lemma_missing_first_char(b: Seq<char>, p: Seq<char>)
    requires
        p.len() > 0,
        forall|k: int| 0 <= k < b.len() ==> b[k] != p[0],
    ensures
        !contains(b, p),
{
    assert forall|i: int| !occurs_at(b, p, i) by {
        if occurs_at(b, p, i) {
            assert(b.subrange(i, i + p.len())[0] == b[i]);
        }
    }
}

/// Joining two texts free of `p` makes no occurrence across the seam when
/// the first character of `b` appears in `p` only at its start.
pub proof fn lemma_concat_free(a: Seq<char>, b: Seq<char>, p: Seq<char>)
    requires
        p.len() > 0,
        !contains(a, p),
        !contains(b, p),
        b.len() > 0,
        forall|k: int| 1 <= k < p.len() ==> p[k] != b[0],
    ensures
        !contains(a + b, p),
{
    let ab = a + b;
    assert forall|i: int| !occurs_at(ab, p, i) by {
        if occurs_at(ab, p, i) {
            let n = p.len() as int;
            if i + n <= a.len() {
                assert(ab.subrange(i, i + n) =~= a.subrange(i, i + n));
                assert(occurs_at(a, p, i));
            } else if i >= a.len() {
                assert(ab.subrange(i, i + n) =~= b.subrange(i - a.len(), i - a.len() + n));
                assert(occurs_at(b, p, i - a.len()));
            } else {
                let k = a.len() - i;
                assert(ab.subrange(i, i + n)[k] == ab[a.len() as int]);
            }
        }
    }
}

/// A prefix `q` of `s` survives replacement when no occurrence of `p` can
/// start inside it.
pub proof fn lemma_replace_keeps_prefix(s: Seq<char>, q: Seq<char>, p: Seq<char>, r: Seq<char>)
    requires
        p.len() >= 2,
        has_prefix(s, q),
        forall|k: int| 0 <= k < q.len() && #[trigger] q[k] == p[0] ==> k + 1 < q.len() && q[k + 1] != p[1],
    ensures
        has_prefix(replace_all(s, p, r), q),
    decreases s.len(),
{
    if q.len() == 0 {
        assert(replace_all(s, p, r).subrange(0, 0) =~= q);
    } else if s.len() < p.len() {
    } else {
        assert(s.subrange(0, q.len() as int)[0] == s[0]);
        if q[0] == p[0] {
            assert(s.subrange(0, q.len() as int)[1] == s[1]);
            assert(s.subrange(0, p.len() as int)[1] == s[1]);
        } else {
            assert(s.subrange(0, p.len() as int)[0] == s[0]);
        }
        assert(!has_prefix(s, p));
        let q1 = q.skip(1);
        assert(s.skip(1).subrange(0, q1.len() as int) =~= q1);
        lemma_replace_keeps_prefix(s.skip(1), q1, p, r);
        let rest = replace_all(s.skip(1), p, r);
        assert(rest.subrange(0, q1.len() as int) == q1);
        assert(s[0] == q[0]);
        assert forall|k: int| 0 <= k < q.len() implies (seq![s[0]] + rest)[k] == q[k] by {
            if k > 0 {
                assert(rest.subrange(0, q1.len() as int)[k - 1] == rest[k - 1]);
            }
        }
        assert((seq![s[0]] + rest).subrange(0, q.len() as int) =~= q);
    }
}

/// Replacement of a text that begins with `p` begins with `r`.
pub proof fn lemma_replace_starts(s: Seq<char>, p: Seq<char>, r: Seq<char>)
    requires
        p.len() > 0,
        has_prefix(s, p),
    ensures
        has_prefix(replace_all(s, p, r), r),
{
    assert(r.subrange(0, r.len() as int) =~= r);
    lemma_prefix_of_concat(r, replace_all(s.skip(p.len() as int), p, r), r);
}

/// A prefix free of `p[0]` of a replaced text was already a prefix of the
/// original, when `r` starts as `p` does.
pub proof fn lemma_replace_prefix_back(t: Seq<char>, q: Seq<char>, p: Seq<char>, r: Seq<char>)
    requires
        p.len() > 0,
        r.len() > 0,
        r[0] == p[0],
        forall|k: int| 0 <= k < q.len() ==> q[k] != p[0],
        has_prefix(replace_all(t, p, r), q),
    ensures
        has_prefix(t, q),
    decreases t.len(),
{
    let rt = replace_all(t, p, r);
    if q.len() == 0 {
        assert(t.subrange(0, 0) =~= q);
    } else if t.len() < p.len() {
    } else if has_prefix(t, p) {
        assert(rt.subrange(0, q.len() as int)[0] == rt[0]);
        assert(rt[0] == r[0]);
    } else {
        let rest = replace_all(t.skip(1), p, r);
        let q1 = q.skip(1);
        assert(rt == seq![t[0]] + rest);
        assert(rt.subrange(0, q.len() as int) == q);
        assert(rest.subrange(0, q1.len() as int) =~= rt.subrange(0, q.len() as int).skip(1));
        assert(q1 =~= q.subrange(0, q.len() as int).skip(1));
        assert(has_prefix(rest, q1));
        lemma_replace_prefix_back(t.skip(1), q1, p, r);
        assert(rt.subrange(0, q.len() as int)[0] == rt[0]);
        assert(t.subrange(0, q.len() as int) =~= seq![t[0]] + t.skip(1).subrange(0, q1.len() as int));
        assert(seq![t[0]] + q1 =~= q);
    }
}

/// After replacing every `p` by `r`, no `p` is left, when `r` and `p` share
/// only their first character and it appears nowhere else in either.
pub proof fn lemma_replace_removes(s: Seq<char>, p: Seq<char>, r: Seq<char>)
    requires
        p.len() > 0,
        r.len() == p.len(),
        r != p,
        r[0] == p[0],
        forall|k: int| 1 <= k < p.len() ==> #[trigger] p[k] != p[0],
        forall|k: int| 1 <= k < r.len() ==> #[trigger] r[k] != p[0],
    ensures
        !contains(replace_all(s, p, r), p),
    decreases s.len(),
{
    let rs = replace_all(s, p, r);
    let n = p.len() as int;
    if s.len() < p.len() {
        assert forall|i: int| !occurs_at(rs, p, i) by {}
    } else if has_prefix(s, p) {
        let rest = replace_all(s.skip(n), p, r);
        lemma_replace_removes(s.skip(n), p, r);
        assert forall|i: int| !occurs_at(rs, p, i) by {
            if occurs_at(rs, p, i) {
                if i == 0 {
                    assert(rs.subrange(0, n) =~= r);
                } else if i < n {
                    assert(rs.subrange(i, i + n)[0] == r[i]);
                } else {
                    assert(rs.subrange(i, i + n) =~= rest.subrange(i - n, i - n + n));
                    assert(occurs_at(rest, p, i - n));
                }
            }
        }
    } else {
        let rest = replace_all(s.skip(1), p, r);
        lemma_replace_removes(s.skip(1), p, r);
        assert forall|i: int| !occurs_at(rs, p, i) by {
            if occurs_at(rs, p, i) {
                if i == 0 {
                    let p1 = p.skip(1);
                    assert(rest.subrange(0, p1.len() as int) =~= rs.subrange(1, n));
                    assert(rs.subrange(1, n) =~= p1);
                    lemma_replace_prefix_back(s.skip(1), p1, p, r);
                    assert(rs.subrange(0, n)[0] == s[0]);
                    assert(s.subrange(0, n) =~= seq![s[0]] + s.skip(1).subrange(0, p1.len() as int));
                    assert(seq![p[0]] + p1 =~= p);
                } else {
                    assert(rs.subrange(i, i + n) =~= rest.subrange(i - 1, i - 1 + n));
                    assert(occurs_at(rest, p, i - 1));
                }
            }
        }
    }
}

/// An occurrence of `p` turns into an occurrence of `r`.
pub proof fn lemma_replace_leaves_replacement(s: Seq<char>, p: Seq<char>, r: Seq<char>)
    requires
        p.len() > 0,
        contains(s, p),
    ensures
        contains(replace_all(s, p, r), r),
    decreases s.len(),
{
    let rs = replace_all(s, p, r);
    let i = choose|i: int| occurs_at(s, p, i);
    if has_prefix(s, p) {
        assert(r.subrange(0, r.len() as int) =~= r);
        lemma_prefix_of_concat(r, replace_all(s.skip(p.len() as int), p, r), r);
        assert(occurs_at(rs, r, 0));
    } else {
        assert(i != 0);
        assert(s.skip(1).subrange(i - 1, i - 1 + p.len()) =~= s.subrange(i, i + p.len()));
        assert(occurs_at(s.skip(1), p, i - 1));
        lemma_replace_leaves_replacement(s.skip(1), p, r);
        let rest = replace_all(s.skip(1), p, r);
        let j = choose|j: int| occurs_at(rest, r, j);
        assert(rs.subrange(j + 1, j + 1 + r.len()) =~= rest.subrange(j, j + r.len()));
        assert(occurs_at(rs, r, j + 1));
    }
}

} // verus!
