//! Fixed-point Jaro-Winkler string similarity.
//!
//! Scores throughout the crate are held as integers scaled by [`SCORE_UNIT`],
//! so that `SCORE_UNIT` stands for a similarity of exactly 1.  Every division
//! rounds toward zero; the spec functions below pin the result of
//! [`jaro_winkler_scaled`] exactly, down to that rounding.
//!
//! The algorithm is the classic one: characters of `a` are greedily matched
//! to the earliest unmatched equal character of `b` within a sliding window,
//! half the number of out-of-order matched pairs counts as transpositions,
//! and a common-prefix boost is applied when the base similarity exceeds 0.7.

use vstd::prelude::*;

verus! {

use vstd::arithmetic::div_mod::{lemma_div_is_ordered, lemma_div_multiples_vanish};
use vstd::arithmetic::mul::lemma_mul_inequality;

/// Fixed-point unit: this value stands for a similarity (or score) of exactly 1.
pub const SCORE_UNIT: u64 = 1_000_000_000_000;

/// Half the longer length, less one: how far apart two positions may sit and
/// still be matched to one another.
pub open spec fn search_range(la: int, lb: int) -> int {
    let mx = if la >= lb {
        la
    } else {
        lb
    };
    if mx / 2 >= 1 {
        mx / 2 - 1
    } else {
        0
    }
}

/// Lowest position of `b` that may match position `i` of `a`.
pub open spec fn match_lo(i: int, sr: int) -> int {
    if i > sr {
        i - sr
    } else {
        0
    }
}

/// One past the highest position of `b` that may match position `i` of `a`.
pub open spec fn match_hi(i: int, sr: int, lb: int) -> int {
    if i + sr + 1 < lb {
        i + sr + 1
    } else {
        lb
    }
}

/// The first position in `[j0, hi)` holding an unmatched character of `b`
/// equal to `c`, if any.
pub open spec fn first_free_match(
    c: char,
    b: Seq<char>,
    flags: Seq<bool>,
    j0: int,
    hi: int,
) -> Option<int>
    decreases hi - j0,
{
    if j0 < 0 || j0 >= hi || hi > b.len() || flags.len() != b.len() {
        None
    } else if !flags[j0] && b[j0] == c {
        Some(j0)
    } else {
        first_free_match(c, b, flags, j0 + 1, hi)
    }
}

/// Which positions of `b` are matched after the first `i` characters of `a`
/// have been processed.
pub open spec fn jaro_flags(a: Seq<char>, b: Seq<char>, sr: int, i: int) -> Seq<bool>
    decreases i,
{
    if i <= 0 {
        Seq::new(b.len(), |k: int| false)
    } else {
        let prev = jaro_flags(a, b, sr, i - 1);
        if 0 <= i - 1 < a.len() {
            match first_free_match(
                a[i - 1],
                b,
                prev,
                match_lo(i - 1, sr),
                match_hi(i - 1, sr, b.len() as int),
            ) {
                Some(j) => prev.update(j, true),
                None => prev,
            }
        } else {
            prev
        }
    }
}

/// Whether position `i` of `a` finds a match when it is processed.
pub open spec fn a_matched(a: Seq<char>, b: Seq<char>, sr: int, i: int) -> bool {
    first_free_match(
        a[i],
        b,
        jaro_flags(a, b, sr, i),
        match_lo(i, sr),
        match_hi(i, sr, b.len() as int),
    ) is Some
}

/// The matched characters of `a`, in order, among its first `i` characters.
pub open spec fn matched_a_chars(a: Seq<char>, b: Seq<char>, sr: int, i: int) -> Seq<char>
    decreases i,
{
    if i <= 0 {
        Seq::empty()
    } else {
        let p = matched_a_chars(a, b, sr, i - 1);
        if 0 <= i - 1 < a.len() && a_matched(a, b, sr, i - 1) {
            p.push(a[i - 1])
        } else {
            p
        }
    }
}

/// The matched characters of `b`, in order, among its first `j` positions.
pub open spec fn matched_b_chars(b: Seq<char>, flags: Seq<bool>, j: int) -> Seq<char>
    decreases j,
{
    if j <= 0 {
        Seq::empty()
    } else {
        let p = matched_b_chars(b, flags, j - 1);
        if 0 <= j - 1 < b.len() && j - 1 < flags.len() && flags[j - 1] {
            p.push(b[j - 1])
        } else {
            p
        }
    }
}

/// How many of the first `k` aligned pairs of `x` and `y` disagree.
pub open spec fn mismatch_count(x: Seq<char>, y: Seq<char>, k: int) -> int
    decreases k,
{
    if k <= 0 {
        0
    } else {
        mismatch_count(x, y, k - 1) + if 0 <= k - 1 < x.len() && k - 1 < y.len() && x[k - 1] != y[k
            - 1] {
            1int
        } else {
            0int
        }
    }
}

/// How many of the first `k` flags are set.
pub open spec fn count_true(s: Seq<bool>, k: int) -> int
    decreases k,
{
    if k <= 0 {
        0
    } else {
        count_true(s, k - 1) + if 0 <= k - 1 < s.len() && s[k - 1] {
            1int
        } else {
            0int
        }
    }
}

/// Total number of matched character pairs.
pub open spec fn jaro_match_count(a: Seq<char>, b: Seq<char>, sr: int) -> int {
    matched_a_chars(a, b, sr, a.len() as int).len() as int
}

/// Half the number of matched pairs that are out of order.
pub open spec fn jaro_transpositions(a: Seq<char>, b: Seq<char>, sr: int) -> int {
    let ma = matched_a_chars(a, b, sr, a.len() as int);
    let mb = matched_b_chars(b, jaro_flags(a, b, sr, a.len() as int), b.len() as int);
    let k = if ma.len() <= mb.len() {
        ma.len() as int
    } else {
        mb.len() as int
    };
    mismatch_count(ma, mb, k) / 2
}

/// The Jaro similarity of `a` and `b`, scaled by [`SCORE_UNIT`] and rounded
/// toward zero term by term.
pub open spec fn jaro_scaled_spec(a: Seq<char>, b: Seq<char>) -> int {
    let la = a.len() as int;
    let lb = b.len() as int;
    if la == 0 && lb == 0 {
        SCORE_UNIT as int
    } else if la == 0 || lb == 0 {
        0
    } else {
        let sr = search_range(la, lb);
        let m = jaro_match_count(a, b, sr);
        if m == 0 {
            0
        } else {
            let t = jaro_transpositions(a, b, sr);
            (m * SCORE_UNIT / la + m * SCORE_UNIT / lb + (m - t) * SCORE_UNIT / m) / 3
        }
    }
}

/// Length of the common prefix of `a` and `b`, counted from `k` and capped at 4.
pub open spec fn common_prefix_len(a: Seq<char>, b: Seq<char>, k: int) -> int
    decreases 4 - k,
{
    if k < 0 || k >= 4 || k >= a.len() || k >= b.len() || a[k] != b[k] {
        k
    } else {
        common_prefix_len(a, b, k + 1)
    }
}

/// The Jaro-Winkler similarity of `a` and `b`, scaled by [`SCORE_UNIT`]: the
/// Jaro similarity, plus a common-prefix boost when it exceeds 0.7.
pub open spec fn jaro_winkler_scaled_spec(a: Seq<char>, b: Seq<char>) -> int {
    let s = jaro_scaled_spec(a, b);
    if s > 700_000_000_000 {
        s + common_prefix_len(a, b, 0) * (SCORE_UNIT as int - s) / 10
    } else {
        s
    }
}

/// `0 <= x*u/d <= u` whenever `0 <= x <= d` and `d >= 1`.
pub(crate) proof fn lemma_ratio_le_unit(x: int, d: int, u: int)
    requires
        0 <= x <= d,
        1 <= d,
        0 <= u,
    ensures
        0 <= x * u / d <= u,
{
    lemma_mul_inequality(x, d, u);
    lemma_div_is_ordered(x * u, d * u, d);
    lemma_div_multiples_vanish(u, d);
    assert(x * u >= 0) by (nonlinear_arith)
        requires
            x >= 0,
            u >= 0,
    ;
    assert(x * u / d >= 0);
}

/// Counting over a prefix never exceeds the prefix length.
proof fn lemma_count_true_le(s: Seq<bool>, k: int)
    ensures
        count_true(s, k) <= k || k < 0,
        0 <= count_true(s, k),
    decreases k,
{
    if k > 0 {
        lemma_count_true_le(s, k - 1);
    }
}

/// Setting a clear flag raises the count of every prefix that covers it by one.
proof fn lemma_count_true_update(s: Seq<bool>, j: int, k: int)
    requires
        0 <= j < s.len(),
        !s[j],
    ensures
        count_true(s.update(j, true), k) == count_true(s, k) + if j < k {
            1int
        } else {
            0int
        },
    decreases k,
{
    if k > 0 {
        lemma_count_true_update(s, j, k - 1);
    }
}

/// A sequence of cleared flags has no set flag in any prefix.
proof fn lemma_count_true_zero(s: Seq<bool>, k: int)
    requires
        forall|i: int| 0 <= i < s.len() ==> !s[i],
    ensures
        count_true(s, k) == 0,
    decreases k,
{
    if k > 0 {
        lemma_count_true_zero(s, k - 1);
    }
}

/// The scaled Jaro similarity of the two character vectors, exactly as
/// [`jaro_scaled_spec`] states it.
fn jaro_scaled(a: &Vec<char>, b: &Vec<char>) -> (r: u64)
    ensures
        r == jaro_scaled_spec(a@, b@),
        r <= SCORE_UNIT,
{
    let la = a.len();
    let lb = b.len();
    if la == 0 && lb == 0 {
        return SCORE_UNIT;
    }
    if la == 0 || lb == 0 {
        return 0;
    }
    let mx = if la >= lb {
        la
    } else {
        lb
    };
    let half = mx / 2;
    let sr: usize = if half >= 1 {
        half - 1
    } else {
        0
    };
    assert(sr == search_range(la as int, lb as int));

    let mut flags: Vec<bool> = Vec::new();
    let mut j: usize = 0;
    while j < lb
        invariant
            j <= lb,
            flags@.len() == j,
            forall|k: int| 0 <= k < j ==> !flags@[k],
        decreases lb - j,
    {
        flags.push(false);
        j += 1;
    }
    proof {
        assert(flags@ =~= jaro_flags(a@, b@, sr as int, 0));
        lemma_count_true_zero(flags@, lb as int);
    }

    let mut ma: Vec<char> = Vec::new();
    let mut i: usize = 0;
    while i < la
        invariant
            la == a@.len(),
            lb == b@.len(),
            lb >= 1,
            i <= la,
            sr == search_range(la as int, lb as int),
            flags@ == jaro_flags(a@, b@, sr as int, i as int),
            flags@.len() == lb,
            ma@ == matched_a_chars(a@, b@, sr as int, i as int),
            ma@.len() == count_true(flags@, lb as int),
        decreases la - i,
    {
        let c = a[i];
        let lo: usize = if i > sr {
            i - sr
        } else {
            0
        };
        let hi128: u128 = i as u128 + sr as u128 + 1;
        let hi: usize = if hi128 < lb as u128 {
            hi128 as usize
        } else {
            lb
        };
        assert(lo == match_lo(i as int, sr as int));
        assert(hi == match_hi(i as int, sr as int, lb as int));

        let ghost flags0 = flags@;
        let mut j: usize = if lo < hi {
            lo
        } else {
            hi
        };
        let mut found: Option<usize> = None;
        loop
            invariant_except_break
                found is None,
            invariant
                j <= hi,
                hi <= lb,
                lb == b@.len(),
                flags@ == flags0,
                flags@.len() == lb,
                first_free_match(c, b@, flags0, lo as int, hi as int) == first_free_match(
                    c,
                    b@,
                    flags0,
                    j as int,
                    hi as int,
                ),
            ensures
                flags@ == flags0,
                match found {
                    Some(fj) => first_free_match(c, b@, flags0, lo as int, hi as int) == Some(
                        fj as int,
                    ) && fj < lb && !flags0[fj as int] && b@[fj as int] == c,
                    None => first_free_match(c, b@, flags0, lo as int, hi as int) is None,
                },
            decreases hi - j,
        {
            if j >= hi {
                assert(first_free_match(c, b@, flags0, j as int, hi as int) is None);
                break ;
            }
            if !flags[j] && b[j] == c {
                assert(first_free_match(c, b@, flags0, j as int, hi as int) == Some(j as int));
                found = Some(j);
                break ;
            }
            j += 1;
        }

        match found {
            Some(fj) => {
                flags.set(fj, true);
                ma.push(c);
                proof {
                    assert(a_matched(a@, b@, sr as int, i as int));
                    assert(flags@ =~= jaro_flags(a@, b@, sr as int, i as int + 1));
                    assert(ma@ =~= matched_a_chars(a@, b@, sr as int, i as int + 1));
                    lemma_count_true_update(flags0, fj as int, lb as int);
                }
            },
            None => {
                proof {
                    assert(!a_matched(a@, b@, sr as int, i as int));
                    assert(flags@ =~= jaro_flags(a@, b@, sr as int, i as int + 1));
                    assert(ma@ =~= matched_a_chars(a@, b@, sr as int, i as int + 1));
                }
            },
        }
        i += 1;
    }

    let m = ma.len();
    if m == 0 {
        return 0;
    }
    proof {
        lemma_count_true_le(flags@, lb as int);
    }
    assert(m <= lb);
    assert(m <= la) by {
        lemma_matched_a_le(a@, b@, sr as int, la as int);
    }

    let mut mb: Vec<char> = Vec::new();
    let mut j: usize = 0;
    while j < lb
        invariant
            lb == b@.len(),
            j <= lb,
            flags@.len() == lb,
            mb@ == matched_b_chars(b@, flags@, j as int),
        decreases lb - j,
    {
        if flags[j] {
            mb.push(b[j]);
        }
        proof {
            assert(mb@ =~= matched_b_chars(b@, flags@, j as int + 1));
        }
        j += 1;
    }

    let kmax = if m <= mb.len() {
        m
    } else {
        mb.len()
    };
    let mut t0: usize = 0;
    let mut k: usize = 0;
    while k < kmax
        invariant
            kmax <= ma@.len(),
            kmax <= mb@.len(),
            k <= kmax,
            t0 as int == mismatch_count(ma@, mb@, k as int),
            t0 <= k,
        decreases kmax - k,
    {
        if ma[k] != mb[k] {
            t0 += 1;
        }
        k += 1;
    }
    let t = t0 / 2;
    assert(t as int == jaro_transpositions(a@, b@, sr as int));
    assert(t <= t0 && t0 <= kmax && kmax <= m);

    proof {
        lemma_mul_inequality(m as int, u64::MAX as int, SCORE_UNIT as int);
    }
    let u = SCORE_UNIT as u128;
    let term1: u128 = m as u128 * u / (la as u128);
    let term2: u128 = m as u128 * u / (lb as u128);
    let term3: u128 = (m - t) as u128 * u / (m as u128);
    proof {
        lemma_mul_inequality(m as int - t as int, u64::MAX as int, SCORE_UNIT as int);
        lemma_ratio_le_unit(m as int, la as int, SCORE_UNIT as int);
        lemma_ratio_le_unit(m as int, lb as int, SCORE_UNIT as int);
        lemma_ratio_le_unit(m as int - t as int, m as int, SCORE_UNIT as int);
    }
    let total: u128 = (term1 + term2 + term3) / 3;
    proof {
        lemma_div_is_ordered(
            term1 as int + term2 as int + term3 as int,
            3 * SCORE_UNIT as int,
            3,
        );
        lemma_div_multiples_vanish(SCORE_UNIT as int, 3);
    }
    assert(total <= SCORE_UNIT);
    total as u64
}

/// The number of matched characters of `a` is at most `i`.
proof fn lemma_matched_a_le(a: Seq<char>, b: Seq<char>, sr: int, i: int)
    ensures
        matched_a_chars(a, b, sr, i).len() <= i || i < 0,
    decreases i,
{
    if i > 0 {
        lemma_matched_a_le(a, b, sr, i - 1);
    }
}

/// A scan that starts over matched positions and reaches a free matching
/// one finds exactly that one.
proof fn lemma_first_free_match_finds(
    c: char,
    b: Seq<char>,
    flags: Seq<bool>,
    j0: int,
    i: int,
    hi: int,
)
    requires
        0 <= j0 <= i < hi <= b.len(),
        flags.len() == b.len(),
        forall|k: int| j0 <= k < i ==> flags[k],
        !flags[i],
        b[i] == c,
    ensures
        first_free_match(c, b, flags, j0, hi) == Some(i),
    decreases i - j0,
{
    if j0 < i {
        lemma_first_free_match_finds(c, b, flags, j0 + 1, i, hi);
    }
}

/// Matching a string against itself pairs each position with itself: after
/// `i` steps exactly the first `i` positions are matched.
proof fn lemma_self_match(a: Seq<char>, sr: int, i: int)
    requires
        sr >= 0,
        0 <= i <= a.len(),
    ensures
        jaro_flags(a, a, sr, i) =~= Seq::new(a.len(), |k: int| k < i),
        matched_a_chars(a, a, sr, i) =~= a.subrange(0, i),
    decreases i,
{
    if i > 0 {
        lemma_self_match(a, sr, i - 1);
        let prev = jaro_flags(a, a, sr, i - 1);
        let lo = match_lo(i - 1, sr);
        let hi = match_hi(i - 1, sr, a.len() as int);
        assert(prev =~= Seq::new(a.len(), |k: int| k < i - 1));
        lemma_first_free_match_finds(a[i - 1], a, prev, lo, i - 1, hi);
        assert(jaro_flags(a, a, sr, i) =~= prev.update(i - 1, true));
        assert(a_matched(a, a, sr, i - 1));
    }
}

/// With every position matched, the matched characters of `b` are `b`
/// itself.
proof fn lemma_matched_b_full(b: Seq<char>, flags: Seq<bool>, j: int)
    requires
        flags.len() == b.len(),
        forall|k: int| 0 <= k < flags.len() ==> flags[k],
        0 <= j <= b.len(),
    ensures
        matched_b_chars(b, flags, j) =~= b.subrange(0, j),
    decreases j,
{
    if j > 0 {
        lemma_matched_b_full(b, flags, j - 1);
    }
}

/// A sequence aligned with itself shows no mismatches.
proof fn lemma_mismatch_self(x: Seq<char>, k: int)
    ensures
        mismatch_count(x, x, k) == 0,
    decreases k,
{
    if k > 0 {
        lemma_mismatch_self(x, k - 1);
    }
}

/// Self-similarity: a string is fully similar to itself, so an identifier
/// equal to a name never loses the fuzzy rung to rounding.
pub proof fn lemma_jaro_winkler_reflexive(a: Seq<char>)
    ensures
        jaro_winkler_scaled_spec(a, a) == SCORE_UNIT as int,
{
    let la = a.len() as int;
    if la == 0 {
        assert(jaro_scaled_spec(a, a) == SCORE_UNIT as int);
        assert(common_prefix_len(a, a, 0) == 0);
    } else {
        let sr = search_range(la, la);
        lemma_self_match(a, sr, la);
        let ma = matched_a_chars(a, a, sr, la);
        let flags = jaro_flags(a, a, sr, la);
        assert(ma =~= a);
        assert(forall|k: int| 0 <= k < flags.len() ==> flags[k]);
        lemma_matched_b_full(a, flags, la);
        let mb = matched_b_chars(a, flags, la);
        assert(mb =~= a);
        assert(jaro_match_count(a, a, sr) == la);
        lemma_mismatch_self(a, la);
        assert(mismatch_count(ma, mb, la) == 0);
        assert(jaro_transpositions(a, a, sr) == 0);
        lemma_div_multiples_vanish(SCORE_UNIT as int, la);
        assert(la * (SCORE_UNIT as int) == (SCORE_UNIT as int) * la) by (nonlinear_arith);
        assert(la * (SCORE_UNIT as int) / la == SCORE_UNIT as int);
        lemma_div_multiples_vanish(SCORE_UNIT as int, 3);
        assert(jaro_scaled_spec(a, a) == SCORE_UNIT as int);
        let cp = common_prefix_len(a, a, 0);
        lemma_common_prefix_bounds(a, a, 0);
        assert(cp * (SCORE_UNIT as int - SCORE_UNIT as int) == 0) by (nonlinear_arith);
    }
}

/// The common-prefix count stays between its starting point and 4.
proof fn lemma_common_prefix_bounds(a: Seq<char>, b: Seq<char>, k: int)
    requires
        0 <= k <= 4,
    ensures
        k <= common_prefix_len(a, b, k) <= 4,
    decreases 4 - k,
{
    if !(k < 0 || k >= 4 || k >= a.len() || k >= b.len() || a[k] != b[k]) {
        lemma_common_prefix_bounds(a, b, k + 1);
    }
}

/// The scaled Jaro-Winkler similarity of the two character vectors, exactly
/// as [`jaro_winkler_scaled_spec`] states it.
pub fn jaro_winkler_scaled(a: &Vec<char>, b: &Vec<char>) -> (r: u64)
    ensures
        r == jaro_winkler_scaled_spec(a@, b@),
        r <= SCORE_UNIT,
{
    let s = jaro_scaled(a, b);
    if s > 700_000_000_000 {
        let mut p: usize = 0;
        loop
            invariant
                0 <= p <= 4,
                common_prefix_len(a@, b@, 0) == common_prefix_len(a@, b@, p as int),
            ensures
                p as int == common_prefix_len(a@, b@, 0),
            decreases 4 - p,
        {
            if p >= 4 || p >= a.len() || p >= b.len() {
                break ;
            }
            if a[p] != b[p] {
                break ;
            }
            p += 1;
        }
        proof {
            lemma_mul_inequality(p as int, 4, SCORE_UNIT as int - s as int);
        }
        let boost = (p as u64) * (SCORE_UNIT - s) / 10;
        proof {
            let d = SCORE_UNIT as int - s as int;
            lemma_mul_inequality(p as int, 10, d);
            lemma_div_is_ordered(p as int * d, 10 * d, 10);
            lemma_div_multiples_vanish(d, 10);
            assert(p as int * d >= 0) by (nonlinear_arith)
                requires
                    p >= 0,
                    d >= 0,
            ;
        }
        assert(boost <= SCORE_UNIT - s);
        s + boost
    } else {
        s
    }
}

} // verus!
