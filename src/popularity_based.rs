//! The popularity signal: view count on a logarithmic scale, like ratio, and
//! a boost for recent uploads.
use vstd::prelude::*;
use vstd::arithmetic::div_mod::*;
use vstd::arithmetic::mul::*;
use crate::fixed::{UNIT, ratio_spec, ratio};
use crate::clock::{whole_days, days_between, now_unix_seconds};
use crate::model::Video;
use crate::random::draws_in_range;
use crate::ranking::{is_top_ranking, scored_view, top_by_score};

verus! {

/// Ten to the power `k`.
pub open spec fn pow10(k: nat) -> nat
    decreases k,
{
    if k == 0 {
        1
    } else {
        10 * pow10((k - 1) as nat)
    }
}

/// The number of decimal digits of `v` minus one (zero for `v < 10`).
pub open spec fn decade(v: nat) -> nat
    decreases v,
{
    if v < 10 {
        0
    } else {
        1 + decade(v / 10)
    }
}

/// The point `10^(j / 10)` of a decade as a fixed-point value, rounded down,
/// for `j` from 0 to 10.
pub open spec fn breakpoint(j: int) -> int {
    if j <= 0 {
        1000000
    } else if j == 1 {
        1258925
    } else if j == 2 {
        1584893
    } else if j == 3 {
        1995262
    } else if j == 4 {
        2511886
    } else if j == 5 {
        3162277
    } else if j == 6 {
        3981071
    } else if j == 7 {
        5011872
    } else if j == 8 {
        6309573
    } else if j == 9 {
        7943282
    } else {
        10000000
    }
}

/// Which tenth of its decade the fixed-point value `x` lies in, for a decade
/// starting at `p`: the largest `j` with `breakpoint(j) * p <= x`.
pub open spec fn segment(x: int, p: int) -> int {
    if x >= 7943282 * p {
        9
    } else if x >= 6309573 * p {
        8
    } else if x >= 5011872 * p {
        7
    } else if x >= 3981071 * p {
        6
    } else if x >= 3162277 * p {
        5
    } else if x >= 2511886 * p {
        4
    } else if x >= 1995262 * p {
        3
    } else if x >= 1584893 * p {
        2
    } else if x >= 1258925 * p {
        1
    } else {
        0
    }
}

/// The part of `log10_fixed(v)` beyond its whole decades: `j / 10` for the
/// tenth `j` of the decade that `v` lies in, plus the linear interpolation
/// within that tenth.
pub open spec fn decade_fraction(v: nat) -> int {
    let p = pow10(decade(v)) as int;
    let x = v * UNIT;
    let j = segment(x, p);
    j * 100_000 + ((x - breakpoint(j) * p) * 100_000) / ((breakpoint(j + 1) - breakpoint(j)) * p)
}

/// Decimal logarithm of `v` as a fixed-point value: exact at each point
/// `10^(k + j / 10)` (as far as `breakpoint` rounds it) and linear between
/// neighbouring points, so never above `log10(v)` and less than 0.003 below
/// it; zero for `v == 0`.
pub open spec fn log10_fixed(v: nat) -> int {
    if v == 0 {
        0
    } else {
        decade(v) * UNIT + decade_fraction(v)
    }
}

/// The recency multiplier `1 + min(30 / days_old, 3)`.
pub open spec fn recency_factor(days_old: int) -> int {
    let boost = 30 * UNIT / days_old;
    UNIT + if boost > 3 * UNIT {
        3 * UNIT
    } else {
        boost
    }
}

/// Popularity score `(log10(views) x 0.6 + like_ratio x 0.4) x recency_factor`.
pub open spec fn popularity_score(views: nat, like_ratio: int, days_old: int) -> int {
    ((6 * log10_fixed(views) + 4 * like_ratio) * recency_factor(days_old)) / (10 * UNIT)
}

/// Age of a video in whole days as the popularity signal counts it: at least one.
pub open spec fn days_old(upload: int, now: int) -> int {
    let d = whole_days(upload, now);
    if d < 1 {
        1
    } else {
        d
    }
}

/// Popularity score of a catalog video at instant `now`.
pub open spec fn video_popularity(v: Video, now: int) -> int {
    popularity_score(
        v.metrics.views as nat,
        ratio_spec(v.metrics.likes as int, v.metrics.views as int),
        days_old(v.upload_date as int, now),
    )
}

/// The candidates of the popularity signal over a non-empty catalog.
pub open spec fn popularity_candidates(videos: Seq<Video>, now: int) -> Seq<(Seq<char>, int)> {
    videos.map_values(|v: Video| (v.id@, video_popularity(v, now)))
}

proof fn lemma_pow10_positive(k: nat)
    ensures
        pow10(k) >= 1,
    decreases k,
{
    if k > 0 {
        lemma_pow10_positive((k - 1) as nat);
    }
}

proof fn lemma_pow10_exceeds(k: nat)
    ensures
        pow10(k) > k,
    decreases k,
{
    if k > 0 {
        lemma_pow10_exceeds((k - 1) as nat);
    }
}

proof fn lemma_pow10_monotone(a: nat, b: nat)
    requires
        a <= b,
    ensures
        pow10(a) <= pow10(b),
    decreases b,
{
    lemma_pow10_positive(b);
    if a < b {
        lemma_pow10_monotone(a, (b - 1) as nat);
    }
}

proof fn lemma_decade_bounds(v: nat)
    requires
        v >= 1,
    ensures
        pow10(decade(v)) <= v < pow10(decade(v) + 1),
    decreases v,
{
    if v >= 10 {
        lemma_decade_bounds(v / 10);
    }
}

proof fn lemma_decade_unique(v: nat, k: nat)
    requires
        pow10(k) <= v < pow10(k + 1),
    ensures
        decade(v) == k,
{
    lemma_decade_bounds(v);
    let d = decade(v);
    if d < k {
        lemma_pow10_monotone(d + 1, k);
    }
    if k < d {
        lemma_pow10_monotone(k + 1, d);
    }
}

proof fn lemma_decade_monotone(a: nat, b: nat)
    requires
        1 <= a <= b,
    ensures
        decade(a) <= decade(b),
{
    lemma_decade_bounds(a);
    lemma_decade_bounds(b);
    if decade(b) < decade(a) {
        lemma_pow10_monotone(decade(b) + 1, decade(a));
    }
}

/// The tenth of the decade that a value lies in.
proof fn lemma_segment(x: int, p: int)
    requires
        p >= 1,
        UNIT * p <= x < 10 * UNIT * p,
    ensures
        0 <= segment(x, p) <= 9,
        breakpoint(segment(x, p)) * p <= x < breakpoint(segment(x, p) + 1) * p,
        breakpoint(segment(x, p)) < breakpoint(segment(x, p) + 1),
{
}

/// `log10_fixed` brackets its argument by tenths of a decade: with `k` the
/// decade of `v` and `j` its tenth, `breakpoint(j) * 10^k <= v * UNIT <
/// breakpoint(j + 1) * 10^k`, and the result lies in
/// `[k + j / 10, k + (j + 1) / 10)`.
pub proof fn lemma_log10_brackets(v: nat)
    requires
        v >= 1,
    ensures
        ({
            let k = decade(v);
            let p = pow10(k) as int;
            let j = segment(v * UNIT, p);
            &&& 0 <= j <= 9
            &&& breakpoint(j) * p <= v * UNIT < breakpoint(j + 1) * p
            &&& k * UNIT + j * 100_000 <= log10_fixed(v) < k * UNIT + (j + 1) * 100_000
        }),
{
    lemma_decade_bounds(v);
    let k = decade(v);
    let p = pow10(k) as int;
    let x = v * UNIT;
    assert(UNIT * p <= x < 10 * UNIT * p) by (nonlinear_arith)
        requires
            p <= v < 10 * p,
            x == v * UNIT,
    ;
    lemma_segment(x, p);
    let j = segment(x, p);
    let b0 = breakpoint(j);
    let b1 = breakpoint(j + 1);
    let n = (x - b0 * p) * 100_000;
    let d = (b1 - b0) * p;
    assert(0 <= n < d * 100_000 && d > 0) by (nonlinear_arith)
        requires
            b0 * p <= x < b1 * p,
            b0 < b1,
            p >= 1,
            n == (x - b0 * p) * 100_000,
            d == (b1 - b0) * p,
    ;
    lemma_div_pos_is_pos(n, d);
    lemma_multiply_divide_lt(n, d, 100_000);
}

/// The fixed-point logarithm never decreases as its argument grows.
pub proof fn lemma_log10_monotone(a: nat, b: nat)
    requires
        a <= b,
    ensures
        log10_fixed(a) <= log10_fixed(b),
{
    if a == 0 {
        if b >= 1 {
            lemma_log10_brackets(b);
        }
    } else {
        lemma_decade_monotone(a, b);
        lemma_log10_brackets(a);
        lemma_log10_brackets(b);
        let ka = decade(a);
        let kb = decade(b);
        if ka == kb {
            let p = pow10(ka) as int;
            lemma_pow10_positive(ka);
            let xa = a * UNIT;
            let xb = b * UNIT;
            let ja = segment(xa, p);
            let jb = segment(xb, p);
            assert(ja <= jb);
            if ja == jb {
                let b0 = breakpoint(ja);
                let b1 = breakpoint(ja + 1);
                assert((b1 - b0) * p > 0) by (nonlinear_arith)
                    requires
                        b0 < b1,
                        p >= 1,
                ;
                lemma_div_is_ordered((xa - b0 * p) * 100_000, (xb - b0 * p) * 100_000, (b1 - b0) * p);
            }
        }
    }
}

/// Popularity is non-decreasing in the view count when the like ratio and
/// the age are held fixed.
pub proof fn lemma_popularity_monotone_in_views(views1: nat, views2: nat, like_ratio: int, days_old: int)
    requires
        views1 <= views2,
        days_old >= 1,
    ensures
        popularity_score(views1, like_ratio, days_old) <= popularity_score(views2, like_ratio, days_old),
{
    lemma_log10_monotone(views1, views2);
    let f = recency_factor(days_old);
    assert(f >= UNIT) by {
        lemma_div_pos_is_pos(30 * UNIT, days_old);
    }
    let x1 = 6 * log10_fixed(views1) + 4 * like_ratio;
    let x2 = 6 * log10_fixed(views2) + 4 * like_ratio;
    lemma_mul_inequality(x1, x2, f);
    lemma_div_is_ordered(x1 * f, x2 * f, 10 * UNIT);
}

/// `log10_fixed` on machine integers.
pub fn log10_fixed_of(v: u64) -> (r: i128)
    ensures
        r == log10_fixed(v as nat),
        0 <= r <= (v + 1) * UNIT,
{
    if v == 0 {
        return 0;
    }
    let mut p: u64 = 1;
    let mut k: u64 = 0;
    while v / p >= 10
        invariant
            1 <= p <= v,
            p == pow10(k as nat),
            k < p,
        decreases v - p,
    {
        proof {
            assert(p * 10 <= v) by {
                lemma_fundamental_div_mod(v as int, p as int);
                lemma_mul_inequality(10, (v / p) as int, p as int);
                lemma_remainder(v as int, p as int);
            }
        }
        p = p * 10;
        k = k + 1;
        proof {
            lemma_pow10_exceeds(k as nat);
        }
    }
    proof {
        assert(v < p * 10) by {
            lemma_fundamental_div_mod(v as int, p as int);
            lemma_remainder(v as int, p as int);
            lemma_mul_inequality((v / p) as int, 9, p as int);
        }
        lemma_decade_unique(v as nat, k as nat);
        lemma_log10_brackets(v as nat);
        assert(k * UNIT + 1_000_000 <= (v + 1) * UNIT) by (nonlinear_arith)
            requires
                k <= v,
        ;
    }
    let x: u128 = v as u128 * 1_000_000;
    let pp: u128 = p as u128;
    let j: u128 = if x >= 7943282 * pp {
        9
    } else if x >= 6309573 * pp {
        8
    } else if x >= 5011872 * pp {
        7
    } else if x >= 3981071 * pp {
        6
    } else if x >= 3162277 * pp {
        5
    } else if x >= 2511886 * pp {
        4
    } else if x >= 1995262 * pp {
        3
    } else if x >= 1584893 * pp {
        2
    } else if x >= 1258925 * pp {
        1
    } else {
        0
    };
    let b0: u128 = breakpoint_of(j);
    let b1: u128 = breakpoint_of(j + 1);
    proof {
        assert(j == segment(v * UNIT, p as int));
        assert((x - b0 * pp) * 100_000 <= 10_000_000 * pp * 100_000) by (nonlinear_arith)
            requires
                b0 * pp <= x < 10_000_000 * pp,
        ;
        assert(10_000_000 * pp * 100_000 <= 10_000_000 * 0xFFFF_FFFF_FFFF_FFFFu128 * 100_000) by (nonlinear_arith)
            requires
                pp <= 0xFFFF_FFFF_FFFF_FFFFu128,
        ;
        assert(0 < (b1 - b0) * pp <= 10_000_000 * pp) by (nonlinear_arith)
            requires
                0 < b1 - b0 <= 10_000_000,
                pp >= 1,
        ;
    }
    let q: u128 = ((x - b0 * pp) * 100_000) / ((b1 - b0) * pp);
    (k as i128) * 1_000_000 + (j as i128) * 100_000 + q as i128
}

/// `breakpoint` on machine integers.
fn breakpoint_of(j: u128) -> (r: u128)
    requires
        j <= 10,
    ensures
        r == breakpoint(j as int),
{
    if j == 0 {
        1000000
    } else if j == 1 {
        1258925
    } else if j == 2 {
        1584893
    } else if j == 3 {
        1995262
    } else if j == 4 {
        2511886
    } else if j == 5 {
        3162277
    } else if j == 6 {
        3981071
    } else if j == 7 {
        5011872
    } else if j == 8 {
        6309573
    } else if j == 9 {
        7943282
    } else {
        10000000
    }
}

/// `recency_factor` on machine integers.
pub fn recency_factor_of(days_old: i64) -> (r: i128)
    requires
        days_old >= 1,
    ensures
        r == recency_factor(days_old as int),
        UNIT <= r <= 4 * UNIT,
{
    let boost: i128 = (30 * UNIT as i128) / days_old as i128;
    proof {
        lemma_div_pos_is_pos(30 * UNIT, days_old as int);
    }
    UNIT as i128 + if boost > 3 * UNIT as i128 {
        3 * UNIT as i128
    } else {
        boost
    }
}

/// `video_popularity` on machine integers.
pub fn video_popularity_of(v: &Video, now: i64) -> (r: i128)
    ensures
        r == video_popularity(*v, now as int),
{
    let view_score = log10_fixed_of(v.metrics.views);
    let like_ratio = ratio(v.metrics.likes, v.metrics.views);
    let d = days_between(v.upload_date, now);
    let days: i64 = if d < 1 {
        1
    } else {
        d
    };
    let f = recency_factor_of(days);
    let x: i128 = 6 * view_score + 4 * like_ratio;
    proof {
        assert(0 <= x * f <= (10 * ((u64::MAX + 1) * UNIT)) * (4 * UNIT)) by (nonlinear_arith)
            requires
                0 <= x <= 10 * ((u64::MAX + 1) * UNIT),
                UNIT <= f <= 4 * UNIT,
        ;
    }
    (x * f) / (10 * UNIT as i128)
}

/// Ids of the cold-start pool used when the catalog is empty.
pub open spec fn trending_pool() -> Seq<Seq<char>> {
    seq![
        "trending_1"@, "trending_2"@, "trending_3"@, "trending_4"@, "trending_5"@,
        "trending_6"@, "trending_7"@, "trending_8"@, "trending_9"@, "trending_10"@,
    ]
}

/// Cold-start candidates: pool entry `i` scores `log10(views[i]) x 0.6 +
/// like_ratio[i] x 0.4`, with synthetic views and like ratios.
pub open spec fn trending_candidates(views: Seq<u64>, like_ratios: Seq<u64>) -> Seq<(Seq<char>, int)> {
    Seq::new(10, |i: int| (trending_pool()[i], (6 * log10_fixed(views[i] as nat) + 4 * like_ratios[i]) / 10))
}

/// Popularity recommendations at instant `now`. For a non-empty catalog, the
/// best `count` videos by popularity; for an empty one, the best `count` of
/// the cold-start pool, scored from the synthetic `views` and `like_ratios`.
pub fn popularity_recommendations_at(count: usize, videos: &Vec<Video>, now: i64, views: &Vec<u64>, like_ratios: &Vec<u64>) -> (out: Vec<(String, i128)>)
    requires
        views@.len() >= 10,
        like_ratios@.len() >= 10,
        forall|i: int| 0 <= i < 10 ==> #[trigger] like_ratios@[i] <= UNIT,
    ensures
        videos@.len() > 0 ==> is_top_ranking(popularity_candidates(videos@, now as int), scored_view(out@), count as int),
        videos@.len() == 0 ==> is_top_ranking(trending_candidates(views@, like_ratios@), scored_view(out@), count as int),
{
    let mut scored: Vec<(String, i128)> = Vec::new();
    if videos.len() > 0 {
        let mut i: usize = 0;
        while i < videos.len()
            invariant
                i <= videos.len(),
                scored@.len() == i,
                scored_view(scored@) == popularity_candidates(videos@.subrange(0, i as int), now as int),
            decreases videos.len() - i,
        {
            let s = video_popularity_of(&videos[i], now);
            let ghost before = scored@;
            scored.push((videos[i].id.clone(), s));
            proof {
                assert(scored@ == before.push(scored@[i as int]));
                assert(scored_view(scored@) =~= popularity_candidates(videos@.subrange(0, i + 1), now as int)) by {
                    assert(scored_view(scored@)[i as int] == popularity_candidates(videos@.subrange(0, i + 1), now as int)[i as int]);
                    assert forall|j: int| 0 <= j < i implies #[trigger] scored_view(scored@)[j] == popularity_candidates(videos@.subrange(0, i + 1), now as int)[j] by {
                        assert(scored@[j] == before[j]);
                        assert(scored_view(before)[j] == popularity_candidates(videos@.subrange(0, i as int), now as int)[j]);
                    }
                }
            }
            i += 1;
        }
        assert(videos@.subrange(0, videos.len() as int) == videos@);
    } else {
        let ids: Vec<String> = vec![
            String::from_str("trending_1"), String::from_str("trending_2"), String::from_str("trending_3"),
            String::from_str("trending_4"), String::from_str("trending_5"), String::from_str("trending_6"),
            String::from_str("trending_7"), String::from_str("trending_8"), String::from_str("trending_9"),
            String::from_str("trending_10"),
        ];
        let mut i: usize = 0;
        while i < 10
            invariant
                i <= 10,
                scored@.len() == i,
                ids@.len() == 10,
                forall|j: int| 0 <= j < 10 ==> #[trigger] ids@[j]@ == trending_pool()[j],
                views@.len() >= 10,
                like_ratios@.len() >= 10,
                forall|j: int| 0 <= j < 10 ==> #[trigger] like_ratios@[j] <= UNIT,
                scored_view(scored@) == trending_candidates(views@, like_ratios@).subrange(0, i as int),
            decreases 10 - i,
        {
            let view_score = log10_fixed_of(views[i]);
            let s: i128 = (6 * view_score + 4 * like_ratios[i] as i128) / 10;
            let ghost before = scored@;
            scored.push((ids[i].clone(), s));
            proof {
                assert(scored@ == before.push(scored@[i as int]));
                assert(scored_view(scored@) =~= trending_candidates(views@, like_ratios@).subrange(0, i + 1)) by {
                    assert(scored_view(scored@)[i as int] == trending_candidates(views@, like_ratios@)[i as int]);
                    assert forall|j: int| 0 <= j < i implies #[trigger] scored_view(scored@)[j] == trending_candidates(views@, like_ratios@)[j] by {
                        assert(scored@[j] == before[j]);
                        assert(scored_view(before)[j] == trending_candidates(views@, like_ratios@).subrange(0, i as int)[j]);
                    }
                }
            }
            i += 1;
        }
        assert(trending_candidates(views@, like_ratios@).subrange(0, 10) =~= trending_candidates(views@, like_ratios@));
    }
    top_by_score(&scored, count)
}

/// The synthetic cold-start draws lie in their ranges: ten view counts in
/// `[10000, 1000000)` and ten like ratios in `[0.6, 0.95)`.
pub open spec fn trending_draws_in_range(views: Seq<u64>, like_ratios: Seq<u64>) -> bool {
    &&& views.len() == 10
    &&& like_ratios.len() == 10
    &&& forall|i: int| 0 <= i < 10 ==> 10_000 <= #[trigger] views[i] < 1_000_000
    &&& forall|i: int| 0 <= i < 10 ==> 600_000 <= #[trigger] like_ratios[i] < 950_000
}

/// Popularity recommendations now. The cold-start pool, used for an empty
/// catalog, draws views from `[10000, 1000000)` and like ratios from
/// `[0.6, 0.95)`.
pub fn popularity_based_recommendations(count: usize, videos: &Vec<Video>) -> (out: Vec<(String, i128)>)
    ensures
        videos@.len() > 0 ==> exists|now: i64|
            now >= 0 && is_top_ranking(#[trigger] popularity_candidates(videos@, now as int), scored_view(out@), count as int),
        videos@.len() == 0 ==> exists|views: Seq<u64>, like_ratios: Seq<u64>|
            trending_draws_in_range(views, like_ratios) && is_top_ranking(#[trigger] trending_candidates(views, like_ratios), scored_view(out@), count as int),
{
    let now = now_unix_seconds();
    let views = draws_in_range(10, 10_000, 1_000_000);
    let like_ratios = draws_in_range(10, 600_000, 950_000);
    let out = popularity_recommendations_at(count, videos, now, &views, &like_ratios);
    proof {
        if videos@.len() > 0 {
            assert(is_top_ranking(popularity_candidates(videos@, now as int), scored_view(out@), count as int));
        } else {
            assert(trending_draws_in_range(views@, like_ratios@));
            assert(is_top_ranking(trending_candidates(views@, like_ratios@), scored_view(out@), count as int));
        }
    }
    out
}

} // verus!
