//! Character-sequence comparisons used by the catalog and the remote
//! command parser: code-point lexicographic order, ASCII-case-insensitive
//! equality, prefix and substring tests.

use vstd::prelude::*;

verus! {

/// Code point of `c` with ASCII uppercase folded to lowercase.
pub open spec fn fold_char(c: char) -> u32 {
    if 65 <= c as u32 <= 90 {
        (c as u32 + 32) as u32
    } else {
        c as u32
    }
}

/// Strict lexicographic order on character sequences by code point; a
/// proper prefix sorts before its extensions.
pub open spec fn seq_lt(a: Seq<char>, b: Seq<char>) -> bool
    decreases a.len(),
{
    if b.len() == 0 {
        false
    } else if a.len() == 0 {
        true
    } else if a[0] as u32 != b[0] as u32 {
        (a[0] as u32) < (b[0] as u32)
    } else {
        seq_lt(a.drop_first(), b.drop_first())
    }
}

/// Equality up to ASCII case.
pub open spec fn seq_ci_eq(a: Seq<char>, b: Seq<char>) -> bool {
    a.len() == b.len() && forall|i: int| 0 <= i < a.len() ==> fold_char(a[i]) == fold_char(#[trigger] b[i])
}

/// `seq_lt` never holds in both directions.
pub proof fn lemma_seq_lt_asymmetric(a: Seq<char>, b: Seq<char>)
    ensures
        seq_lt(a, b) ==> !seq_lt(b, a),
    decreases a.len(),
{
    if b.len() == 0 || a.len() == 0 {
    } else if a[0] as u32 != b[0] as u32 {
    } else {
        lemma_seq_lt_asymmetric(a.drop_first(), b.drop_first());
    }
}

proof fn lemma_seq_lt_skip(a: Seq<char>, b: Seq<char>, i: int)
    requires
        0 <= i <= a.len(),
        i <= b.len(),
        forall|j: int| 0 <= j < i ==> a[j] == b[j],
    ensures
        seq_lt(a, b) == seq_lt(a.skip(i), b.skip(i)),
    decreases i,
{
    if i > 0 {
        assert(a.len() > 0 && b.len() > 0);
        assert(a[0] == b[0]);
        lemma_seq_lt_skip(a.drop_first(), b.drop_first(), i - 1);
        assert(a.drop_first().skip(i - 1) =~= a.skip(i));
        assert(b.drop_first().skip(i - 1) =~= b.skip(i));
    } else {
        assert(a.skip(0) =~= a);
        assert(b.skip(0) =~= b);
    }
}

/// Lexicographic comparison of two strings by code point.
pub fn str_lt(a: &str, b: &str) -> (r: bool)
    ensures
        r == seq_lt(a@, b@),
{
    let la = a.unicode_len();
    let lb = b.unicode_len();
    let mut i: usize = 0;
    loop
        invariant
            0 <= i <= la,
            i <= lb,
            la == a@.len(),
            lb == b@.len(),
            forall|j: int| 0 <= j < i ==> a@[j] == b@[j],
        ensures
            i <= la,
            i <= lb,
            forall|j: int| 0 <= j < i ==> a@[j] == b@[j],
            i < la && i < lb ==> a@[i as int] as u32 != b@[i as int] as u32,
            i >= la || i >= lb ==> i == la || i == lb,
        decreases la - i,
    {
        if i >= la || i >= lb {
            break;
        }
        let ca = a.get_char(i);
        let cb = b.get_char(i);
        if ca as u32 != cb as u32 {
            break;
        }
        assert(a@[i as int] == b@[i as int]);
        i = i + 1;
    }
    proof {
        lemma_seq_lt_skip(a@, b@, i as int);
    }
    if i < la && i < lb {
        let ca = a.get_char(i);
        let cb = b.get_char(i);
        assert(a@.skip(i as int)[0] == a@[i as int]);
        assert(b@.skip(i as int)[0] == b@[i as int]);
        (ca as u32) < (cb as u32)
    } else {
        assert(a@.skip(i as int).len() == la - i);
        assert(b@.skip(i as int).len() == lb - i);
        i < lb
    }
}

/// Equality of two strings up to ASCII case.
pub fn str_ci_eq(a: &str, b: &str) -> (r: bool)
    ensures
        r == seq_ci_eq(a@, b@),
{
    let la = a.unicode_len();
    let lb = b.unicode_len();
    if la != lb {
        return false;
    }
    let mut i: usize = 0;
    while i < la
        invariant
            0 <= i <= la,
            la == a@.len(),
            la == b@.len(),
            forall|j: int| 0 <= j < i ==> fold_char(a@[j]) == fold_char(#[trigger] b@[j]),
        decreases la - i,
    {
        let ca = a.get_char(i) as u32;
        let cb = b.get_char(i) as u32;
        let fa = if 65 <= ca && ca <= 90 {
            ca + 32
        } else {
            ca
        };
        let fb = if 65 <= cb && cb <= 90 {
            cb + 32
        } else {
            cb
        };
        if fa != fb {
            return false;
        }
        assert(fold_char(a@[i as int]) == fold_char(b@[i as int]));
        i = i + 1;
    }
    true
}

/// Does `s` start with `prefix` (by characters)?
pub fn str_starts_with(s: &str, prefix: &str) -> (r: bool)
    ensures
        r == (prefix@.len() <= s@.len() && s@.subrange(0, prefix@.len() as int) =~= prefix@),
{
    let ls = s.unicode_len();
    let lp = prefix.unicode_len();
    if lp > ls {
        assert(!(prefix@.len() <= s@.len()));
        return false;
    }
    let mut i: usize = 0;
    while i < lp
        invariant
            0 <= i <= lp,
            lp <= ls,
            ls == s@.len(),
            lp == prefix@.len(),
            forall|j: int| 0 <= j < i ==> s@[j] == prefix@[j],
        decreases lp - i,
    {
        let cs = s.get_char(i);
        let cp = prefix.get_char(i);
        if cs as u32 != cp as u32 {
            assert(s@[i as int] as u32 != prefix@[i as int] as u32);
            assert(s@.subrange(0, lp as int)[i as int] == s@[i as int]);
            return false;
        }
        assert(s@[i as int] == prefix@[i as int]);
        i = i + 1;
    }
    assert(s@.subrange(0, lp as int) =~= prefix@);
    true
}

/// Does `s` contain `pat` as a contiguous run of characters?
pub fn str_contains(s: &str, pat: &str) -> (r: bool)
    ensures
        r == exists|k: int|
            0 <= k && k + pat@.len() <= s@.len() && #[trigger] s@.subrange(k, k + pat@.len() as int) =~= pat@,
{
    let ls = s.unicode_len();
    let lp = pat.unicode_len();
    if lp > ls {
        return false;
    }
    let mut start: usize = 0;
    while start <= ls - lp
        invariant
            0 <= start,
            lp <= ls,
            start <= ls - lp + 1,
            ls == s@.len(),
            lp == pat@.len(),
            forall|k: int|
                0 <= k < start ==> !(#[trigger] s@.subrange(k, k + pat@.len() as int) =~= pat@),
        decreases ls - lp - start + 1,
    {
        let mut i: usize = 0;
        let mut matched: bool = true;
        while i < lp
            invariant
                0 <= i <= lp,
                start + lp <= ls,
                ls == s@.len(),
                lp == pat@.len(),
                matched ==> forall|j: int| 0 <= j < i ==> s@[start + j] == pat@[j],
                !matched ==> !(s@.subrange(start as int, start + pat@.len() as int) =~= pat@),
            decreases lp - i,
        {
            let cs = s.get_char(start + i);
            let cp = pat.get_char(i);
            if cs as u32 != cp as u32 {
                assert(s@[start + i as int] as u32 != pat@[i as int] as u32);
                assert(s@.subrange(start as int, start + pat@.len() as int)[i as int] == s@[start + i as int]);
                matched = false;
                i = lp;
            } else {
                assert(s@[start + i] == pat@[i as int]);
                i = i + 1;
            }
        }
        if matched {
            assert(s@.subrange(start as int, start + pat@.len() as int) =~= pat@);
            return true;
        }
        start = start + 1;
    }
    assert(forall|k: int|
        0 <= k && k + pat@.len() <= s@.len() ==> !(#[trigger] s@.subrange(k, k + pat@.len() as int)
            =~= pat@));
    false
}

/// The string without its last character; empty input stays empty.
pub fn rem_last(value: &str) -> (r: &str)
    ensures
        value@.len() == 0 ==> r@ =~= value@,
        value@.len() > 0 ==> r@ =~= value@.subrange(0, value@.len() - 1),
{
    let n = value.unicode_len();
    if n == 0 {
        value
    } else {
        value.substring_char(0, n - 1)
    }
}

} // verus!
