//! Similarity measures between videos: Jaccard similarity of tag sets,
//! cosine similarity of embeddings, and closeness of engagement ratios.
use vstd::prelude::*;
use crate::fixed::{UNIT, abs, ratio_spec, ratio, abs_i128};
use crate::model::VideoMetrics;

verus! {

/// Whether some string of `s` equals `x`.
pub open spec fn holds_str(s: Seq<String>, x: Seq<char>) -> bool {
    exists|j: int| 0 <= j < s.len() && #[trigger] s[j]@ == x
}

/// Number of distinct strings in `s`.
pub open spec fn distinct_count(s: Seq<String>) -> int
    decreases s.len(),
{
    if s.len() == 0 {
        0
    } else {
        distinct_count(s.drop_last()) + if holds_str(s.drop_last(), s.last()@) {
            0int
        } else {
            1
        }
    }
}

/// Number of distinct strings of `s1` that also occur in `s2`: the size of
/// the intersection of the two sets.
pub open spec fn common_count(s1: Seq<String>, s2: Seq<String>) -> int
    decreases s1.len(),
{
    if s1.len() == 0 {
        0
    } else {
        common_count(s1.drop_last(), s2) + if !holds_str(s1.drop_last(), s1.last()@) && holds_str(s2, s1.last()@) {
            1int
        } else {
            0
        }
    }
}

/// Number of distinct strings of `s2` that do not occur in `s1`.
pub open spec fn extra_count(s1: Seq<String>, s2: Seq<String>) -> int
    decreases s2.len(),
{
    if s2.len() == 0 {
        0
    } else {
        extra_count(s1, s2.drop_last()) + if !holds_str(s2.drop_last(), s2.last()@) && !holds_str(s1, s2.last()@) {
            1int
        } else {
            0
        }
    }
}

/// Jaccard similarity `|A n B| / |A u B|` of the sets of strings of `s1` and
/// `s2`, fixed-point; zero when either is empty.
pub open spec fn jaccard(s1: Seq<String>, s2: Seq<String>) -> int {
    if s1.len() == 0 || s2.len() == 0 {
        0
    } else {
        (common_count(s1, s2) * UNIT) / (distinct_count(s1) + extra_count(s1, s2))
    }
}

proof fn lemma_counts(s1: Seq<String>, s2: Seq<String>)
    ensures
        0 <= common_count(s1, s2) <= distinct_count(s1),
        s1.len() > 0 ==> distinct_count(s1) >= 1,
        extra_count(s1, s2) >= 0,
    decreases s1.len() + s2.len(),
{
    if s1.len() > 0 {
        lemma_counts(s1.drop_last(), s2);
    }
    if s2.len() > 0 {
        lemma_counts(s1, s2.drop_last());
    }
}

/// Jaccard similarity lies in `[0, 1]`, and is zero when either set is empty.
pub proof fn lemma_jaccard_range(s1: Seq<String>, s2: Seq<String>)
    ensures
        0 <= jaccard(s1, s2) <= UNIT,
        s1.len() == 0 || s2.len() == 0 ==> jaccard(s1, s2) == 0,
{
    if s1.len() > 0 && s2.len() > 0 {
        lemma_counts(s1, s2);
        let c = common_count(s1, s2);
        let u = distinct_count(s1) + extra_count(s1, s2);
        assert(0 <= c * UNIT <= u * UNIT) by (nonlinear_arith)
            requires
                0 <= c <= u,
        ;
        vstd::arithmetic::div_mod::lemma_div_is_ordered(c * UNIT, u * UNIT, u);
        vstd::arithmetic::div_mod::lemma_div_pos_is_pos(c * UNIT, u);
        assert(u * UNIT == u * (UNIT as int)) by (nonlinear_arith);
        vstd::arithmetic::div_mod::lemma_div_multiples_vanish(UNIT as int, u);
    }
}

/// Whether `x` occurs among the first `n` strings of `s`.
pub fn holds_str_upto(s: &Vec<String>, n: usize, x: &String) -> (r: bool)
    requires
        n <= s@.len(),
    ensures
        r == holds_str(s@.subrange(0, n as int), x@),
{
    let mut j: usize = 0;
    while j < n
        invariant
            j <= n <= s@.len(),
            forall|k: int| 0 <= k < j ==> #[trigger] s@[k]@ != x@,
        decreases n - j,
    {
        if s[j] == *x {
            assert(s@.subrange(0, n as int)[j as int]@ == x@);
            return true;
        }
        j += 1;
    }
    assert forall|k: int| 0 <= k < n implies #[trigger] s@.subrange(0, n as int)[k]@ != x@ by {
        assert(s@.subrange(0, n as int)[k] == s@[k]);
    }
    false
}

/// `jaccard` on machine values.
pub fn tag_similarity(tags1: &Vec<String>, tags2: &Vec<String>) -> (r: i128)
    ensures
        r == jaccard(tags1@, tags2@),
        0 <= r <= UNIT,
{
    proof {
        lemma_jaccard_range(tags1@, tags2@);
    }
    if tags1.len() == 0 || tags2.len() == 0 {
        return 0;
    }
    let mut distinct: i128 = 0;
    let mut common: i128 = 0;
    let mut i: usize = 0;
    while i < tags1.len()
        invariant
            i <= tags1.len(),
            distinct == distinct_count(tags1@.subrange(0, i as int)),
            common == common_count(tags1@.subrange(0, i as int), tags2@),
            0 <= common <= distinct <= i,
        decreases tags1.len() - i,
    {
        let ghost s = tags1@.subrange(0, i + 1);
        proof {
            assert(s.drop_last() == tags1@.subrange(0, i as int));
            assert(s.last() == tags1@[i as int]);
            lemma_counts(tags1@.subrange(0, i as int), tags2@);
        }
        if !holds_str_upto(tags1, i, &tags1[i]) {
            distinct = distinct + 1;
            if holds_str_upto(tags2, tags2.len(), &tags1[i]) {
                common = common + 1;
            }
        }
        proof {
            assert(tags2@.subrange(0, tags2@.len() as int) == tags2@);
        }
        i += 1;
    }
    let mut extra: i128 = 0;
    let mut k: usize = 0;
    while k < tags2.len()
        invariant
            k <= tags2.len(),
            extra == extra_count(tags1@, tags2@.subrange(0, k as int)),
            0 <= extra <= k,
        decreases tags2.len() - k,
    {
        let ghost s = tags2@.subrange(0, k + 1);
        proof {
            assert(s.drop_last() == tags2@.subrange(0, k as int));
            assert(s.last() == tags2@[k as int]);
            assert(tags1@.subrange(0, tags1@.len() as int) == tags1@);
        }
        if !holds_str_upto(tags2, k, &tags2[k]) && !holds_str_upto(tags1, tags1.len(), &tags2[k]) {
            extra = extra + 1;
        }
        k += 1;
    }
    assert(tags1@.subrange(0, tags1@.len() as int) == tags1@);
    assert(tags2@.subrange(0, tags2@.len() as int) == tags2@);
    proof {
        lemma_counts(tags1@, tags2@);
    }
    (common * 1_000_000) / (distinct + extra)
}

/// Dot product of two embeddings (over their common prefix from the end).
pub open spec fn dot(a: Seq<i16>, b: Seq<i16>) -> int
    decreases a.len(),
{
    if a.len() == 0 || b.len() == 0 {
        0
    } else {
        dot(a.drop_last(), b.drop_last()) + a.last() * b.last()
    }
}

/// `m` is the square root of `n` rounded up.
pub open spec fn is_ceil_sqrt(m: int, n: int) -> bool {
    &&& m >= 0
    &&& m * m >= n
    &&& (m == 0 || (m - 1) * (m - 1) < n)
}

/// The square root of `n` rounded up.
pub open spec fn ceil_sqrt(n: int) -> int {
    choose|m: int| is_ceil_sqrt(m, n)
}

/// Cosine similarity of two embeddings, fixed-point, rounded toward zero,
/// with each magnitude taken as the square root of its squared norm rounded
/// up; zero when the lengths differ, an embedding is empty, or a magnitude
/// is zero.
pub open spec fn cosine(a: Seq<i16>, b: Seq<i16>) -> int {
    let n1 = dot(a, a);
    let n2 = dot(b, b);
    if a.len() != b.len() || a.len() == 0 || n1 == 0 || n2 == 0 {
        0
    } else {
        let d = dot(a, b);
        let m = ceil_sqrt(n1) * ceil_sqrt(n2);
        if d >= 0 {
            (d * UNIT) / m
        } else {
            -(((-d) * UNIT) / m)
        }
    }
}

/// Cauchy-Schwarz: the squared dot product is at most the product of the
/// squared norms.
pub proof fn lemma_cauchy_schwarz(a: Seq<i16>, b: Seq<i16>)
    requires
        a.len() == b.len(),
    ensures
        dot(a, a) >= 0,
        dot(b, b) >= 0,
        dot(a, b) * dot(a, b) <= dot(a, a) * dot(b, b),
    decreases a.len(),
{
    if a.len() > 0 {
        let a0 = a.drop_last();
        let b0 = b.drop_last();
        lemma_cauchy_schwarz(a0, b0);
        let aa = dot(a0, a0);
        let bb = dot(b0, b0);
        let d = dot(a0, b0);
        let x = a.last() as int;
        let y = b.last() as int;
        assert(x * x >= 0 && y * y >= 0) by (nonlinear_arith);
        let p = aa * (y * y);
        let q = bb * (x * x);
        let r = d * (x * y);
        assert(r == d * (x * y));
        assert(p >= 0 && q >= 0) by (nonlinear_arith)
            requires
                aa >= 0,
                bb >= 0,
                x * x >= 0,
                y * y >= 0,
                p == aa * (y * y),
                q == bb * (x * x),
        ;
        assert(r * r <= p * q) by (nonlinear_arith)
            requires
                d * d <= aa * bb,
                p == aa * (y * y),
                q == bb * (x * x),
                r == d * (x * y),
                x * x >= 0,
                y * y >= 0,
        ;
        assert(2 * r <= p + q) by (nonlinear_arith)
            requires
                p >= 0,
                q >= 0,
                r * r <= p * q,
        ;
        let xy = x * y;
        let xxyy = (x * x) * (y * y);
        assert(xy * xy == xxyy) by (nonlinear_arith)
            requires
                xy == x * y,
                xxyy == (x * x) * (y * y),
        ;
        assert((d + xy) * (d + xy) == d * d + 2 * r + xy * xy) by (nonlinear_arith)
            requires
                r == d * xy,
        ;
        assert((aa + x * x) * (bb + y * y) == aa * bb + p + q + xxyy) by (nonlinear_arith)
            requires
                p == aa * (y * y),
                q == bb * (x * x),
                xxyy == (x * x) * (y * y),
        ;
    }
}

/// Every `n >= 0` has a square root rounded up.
pub proof fn lemma_ceil_sqrt_exists(n: nat)
    ensures
        is_ceil_sqrt(ceil_sqrt(n as int), n as int),
    decreases n,
{
    if n == 0 {
        assert(is_ceil_sqrt(0, 0));
    } else {
        lemma_ceil_sqrt_exists((n - 1) as nat);
        let m = ceil_sqrt(n - 1);
        if m * m >= n {
            assert(is_ceil_sqrt(m, n as int));
        } else {
            assert((m + 1) * (m + 1) >= n) by (nonlinear_arith)
                requires
                    m >= 0,
                    m * m >= n - 1,
            ;
            assert(is_ceil_sqrt(m + 1, n as int));
        }
    }
}

/// The square root rounded up is unique.
pub proof fn lemma_ceil_sqrt_unique(m1: int, m2: int, n: int)
    requires
        is_ceil_sqrt(m1, n),
        is_ceil_sqrt(m2, n),
    ensures
        m1 == m2,
{
    if m1 < m2 {
        assert(m1 * m1 <= (m2 - 1) * (m2 - 1)) by (nonlinear_arith)
            requires
                0 <= m1 <= m2 - 1,
        ;
    }
    if m2 < m1 {
        assert(m2 * m2 <= (m1 - 1) * (m1 - 1)) by (nonlinear_arith)
            requires
                0 <= m2 <= m1 - 1,
        ;
    }
}

/// Cosine similarity lies in `[-1, 1]`, and is zero when the lengths differ,
/// an embedding is empty, or a magnitude is zero.
pub proof fn lemma_cosine_range(a: Seq<i16>, b: Seq<i16>)
    ensures
        -UNIT <= cosine(a, b) <= UNIT,
        a.len() != b.len() || a.len() == 0 || dot(a, a) == 0 || dot(b, b) == 0 ==> cosine(a, b) == 0,
{
    let n1 = dot(a, a);
    let n2 = dot(b, b);
    if !(a.len() != b.len() || a.len() == 0 || n1 == 0 || n2 == 0) {
        lemma_cauchy_schwarz(a, b);
        lemma_ceil_sqrt_exists(n1 as nat);
        lemma_ceil_sqrt_exists(n2 as nat);
        let m1 = ceil_sqrt(n1);
        let m2 = ceil_sqrt(n2);
        let d = dot(a, b);
        let m = m1 * m2;
        let e = if d >= 0 {
            d
        } else {
            -d
        };
        assert(e * e == d * d) by (nonlinear_arith)
            requires
                e == d || e == -d,
        ;
        assert(m >= 1 && e <= m) by (nonlinear_arith)
            requires
                m1 >= 0,
                m2 >= 0,
                m1 * m1 >= n1,
                m2 * m2 >= n2,
                n1 >= 1,
                n2 >= 1,
                d * d <= n1 * n2,
                e * e == d * d,
                e >= 0,
                m == m1 * m2,
        ;
        assert(0 <= e * UNIT <= m * UNIT) by (nonlinear_arith)
            requires
                0 <= e <= m,
        ;
        vstd::arithmetic::div_mod::lemma_div_is_ordered(e * UNIT, m * UNIT, m);
        vstd::arithmetic::div_mod::lemma_div_pos_is_pos(e * UNIT, m);
        assert(m * UNIT == m * (UNIT as int)) by (nonlinear_arith);
        vstd::arithmetic::div_mod::lemma_div_multiples_vanish(UNIT as int, m);
    }
}

/// `dot` on machine values.
fn dot_of(a: &Vec<i16>, b: &Vec<i16>) -> (r: i128)
    requires
        a@.len() == b@.len(),
    ensures
        r == dot(a@, b@),
        -a@.len() * 0x4000_0000 <= r <= a@.len() * 0x4000_0000,
{
    let mut s: i128 = 0;
    let mut i: usize = 0;
    while i < a.len()
        invariant
            a@.len() == b@.len(),
            i <= a@.len(),
            s == dot(a@.subrange(0, i as int), b@.subrange(0, i as int)),
            -i * 0x4000_0000 <= s <= i * 0x4000_0000,
        decreases a.len() - i,
    {
        proof {
            assert(a@.subrange(0, i + 1).drop_last() == a@.subrange(0, i as int));
            assert(b@.subrange(0, i + 1).drop_last() == b@.subrange(0, i as int));
            let x = a@[i as int] as int;
            let y = b@[i as int] as int;
            assert(-0x4000_0000 <= x * y <= 0x4000_0000) by (nonlinear_arith)
                requires
                    -0x8000 <= x < 0x8000,
                    -0x8000 <= y < 0x8000,
            ;
        }
        s = s + (a[i] as i128) * (b[i] as i128);
        i += 1;
    }
    assert(a@.subrange(0, a@.len() as int) == a@);
    assert(b@.subrange(0, b@.len() as int) == b@);
    s
}

/// The square root of `n` rounded up, for `n` below `2^94`.
fn ceil_sqrt_of(n: u128) -> (r: u128)
    requires
        n <= 0x4000_0000_0000_0000_0000_0000,
    ensures
        is_ceil_sqrt(r as int, n as int),
        r <= 0x8000_0000_0000,
{
    if n == 0 {
        return 0;
    }
    let mut lo: u128 = 0;
    let mut hi: u128 = 0x8000_0000_0000;
    assert(hi * hi == 0x4000_0000_0000_0000_0000_0000);
    while hi - lo > 1
        invariant
            lo < hi <= 0x8000_0000_0000,
            lo * lo < n,
            hi * hi >= n,
        decreases hi - lo,
    {
        let mid = lo + (hi - lo) / 2;
        assert(mid * mid <= 0x4000_0000_0000_0000_0000_0000) by (nonlinear_arith)
            requires
                mid <= 0x8000_0000_0000,
        ;
        if mid * mid >= n {
            hi = mid;
        } else {
            lo = mid;
        }
    }
    assert(hi - 1 == lo);
    hi
}

/// `cosine` on machine values.
pub fn cosine_similarity(a: &Vec<i16>, b: &Vec<i16>) -> (r: i128)
    ensures
        r == cosine(a@, b@),
        -UNIT <= r <= UNIT,
{
    proof {
        lemma_cosine_range(a@, b@);
    }
    if a.len() != b.len() || a.len() == 0 {
        return 0;
    }
    let n1 = dot_of(a, a);
    let n2 = dot_of(b, b);
    if n1 == 0 || n2 == 0 {
        return 0;
    }
    let d = dot_of(a, b);
    proof {
        lemma_cauchy_schwarz(a@, b@);
        assert(a@.len() * 0x4000_0000 <= 0x4000_0000_0000_0000_0000_0000) by (nonlinear_arith)
            requires
                a@.len() <= usize::MAX,
        ;
    }
    let m1 = ceil_sqrt_of(n1 as u128);
    let m2 = ceil_sqrt_of(n2 as u128);
    proof {
        lemma_ceil_sqrt_exists(n1 as nat);
        lemma_ceil_sqrt_exists(n2 as nat);
        lemma_ceil_sqrt_unique(m1 as int, ceil_sqrt(n1 as int), n1 as int);
        lemma_ceil_sqrt_unique(m2 as int, ceil_sqrt(n2 as int), n2 as int);
        assert(m1 * m2 <= 0x4000_0000_0000_0000_0000_0000) by (nonlinear_arith)
            requires
                m1 <= 0x8000_0000_0000,
                m2 <= 0x8000_0000_0000,
        ;
        assert(m1 * m2 >= 1) by (nonlinear_arith)
            requires
                m1 * m1 >= n1,
                m2 * m2 >= n2,
                n1 >= 1,
                n2 >= 1,
        ;
    }
    let m: i128 = (m1 * m2) as i128;
    if d >= 0 {
        (d * 1_000_000) / m
    } else {
        -(((-d) * 1_000_000) / m)
    }
}

/// Closeness of engagement: one minus the mean absolute difference of like
/// ratio, comment ratio and average watch fraction.
pub open spec fn engagement_similarity(m1: VideoMetrics, m2: VideoMetrics) -> int {
    let like = abs(ratio_spec(m1.likes as int, m1.views as int) - ratio_spec(m2.likes as int, m2.views as int));
    let comment = abs(
        ratio_spec(m1.comment_count as int, m1.views as int) - ratio_spec(m2.comment_count as int, m2.views as int),
    );
    let watch = abs(m1.avg_watch_percentage - m2.avg_watch_percentage);
    UNIT - (like + comment + watch) / 3
}

/// `engagement_similarity` on machine values.
pub fn engagement_similarity_of(m1: &VideoMetrics, m2: &VideoMetrics) -> (r: i128)
    ensures
        r == engagement_similarity(*m1, *m2),
        -0x100_0000_0000_0000_0000_0000 <= r <= UNIT,
{
    let like = abs_i128(ratio(m1.likes, m1.views) - ratio(m2.likes, m2.views));
    let comment = abs_i128(ratio(m1.comment_count, m1.views) - ratio(m2.comment_count, m2.views));
    let watch = abs_i128(m1.avg_watch_percentage as i128 - m2.avg_watch_percentage as i128);
    1_000_000 - (like + comment + watch) / 3
}

} // verus!
