//! The content-based signal: the user's category preferences, with jitter,
//! plus a boost for recent uploads.
use vstd::prelude::*;
use crate::fixed::{UNIT, div_floor};
use crate::clock::{whole_days, days_between, now_unix_seconds};
use crate::model::{User, Video, find_user, has_user, user_index};
use crate::random::draws_in_range;
use crate::ranking::{is_top_ranking, scored_view, top_by_score, lemma_top_ranking_not_empty};

verus! {

/// The weight that `prefs` records for `category` (its first entry), if any.
pub open spec fn preference_of(prefs: Seq<(String, i64)>, category: Seq<char>) -> Option<i64>
    decreases prefs.len(),
{
    if prefs.len() == 0 {
        None
    } else if prefs[0].0@ == category {
        Some(prefs[0].1)
    } else {
        preference_of(prefs.skip(1), category)
    }
}

/// Sum over the categories with a preference of `weight x jitter`, where
/// `jitters[j]` is the jitter drawn for category `j`.
pub open spec fn matched_preference(prefs: Seq<(String, i64)>, categories: Seq<String>, jitters: Seq<u64>) -> int
    decreases categories.len(),
{
    if categories.len() == 0 {
        0
    } else {
        let n = (categories.len() - 1) as int;
        let rest = matched_preference(prefs, categories.drop_last(), jitters);
        match preference_of(prefs, categories[n]@) {
            Some(w) => rest + (w * jitters[n]) / (UNIT as int),
            None => rest,
        }
    }
}

/// Boost `0.2 x (30 - age) / 30` for a video younger than 30 days.
pub open spec fn content_recency_boost(age_days: int) -> int {
    if age_days < 30 {
        (200_000 * (30 - age_days)) / 30
    } else {
        0
    }
}

/// Content score of a video: the matched preference, or `baseline` when that is
/// zero, plus the recency boost.
pub open spec fn content_score(prefs: Seq<(String, i64)>, v: Video, now: int, jitters: Seq<u64>, baseline: u64) -> int {
    let m = matched_preference(prefs, v.categories@, jitters);
    (if m == 0 {
        baseline as int
    } else {
        m
    }) + content_recency_boost(whole_days(v.upload_date as int, now))
}

/// Whether `u` has a watch event for the video `id`.
pub open spec fn watched(u: User, id: Seq<char>) -> bool {
    exists|k: int| 0 <= k < u.watch_history@.len() && #[trigger] u.watch_history@[k].video_id@ == id
}

/// Candidates of the content signal: each video that `u` has not watched,
/// in catalog order, scored with the draws made for it.
pub open spec fn content_candidates(u: User, videos: Seq<Video>, now: int, jitters: Seq<Vec<u64>>, baselines: Seq<u64>) -> Seq<(Seq<char>, int)>
    decreases videos.len(),
{
    if videos.len() == 0 {
        Seq::empty()
    } else {
        let n = (videos.len() - 1) as int;
        let rest = content_candidates(u, videos.drop_last(), now, jitters, baselines);
        let v = videos[n];
        if watched(u, v.id@) {
            rest
        } else {
            rest.push((v.id@, content_score(u.content_preferences@, v, now, jitters[n]@, baselines[n])))
        }
    }
}

/// The draws for a known user lie in their ranges: one jitter in
/// `[0.8, 1.2)` per category of each video, and one baseline in `[0.1, 0.3)`
/// per video.
pub open spec fn content_draws_in_range(videos: Seq<Video>, jitters: Seq<Vec<u64>>, baselines: Seq<u64>) -> bool {
    &&& jitters.len() == videos.len()
    &&& baselines.len() == videos.len()
    &&& forall|i: int| 0 <= i < videos.len() ==> #[trigger] jitters[i]@.len() == videos[i].categories@.len()
    &&& forall|i: int, j: int|
        0 <= i < jitters.len() && 0 <= j < jitters[i]@.len() ==> 800_000 <= #[trigger] jitters[i]@[j] < 1_200_000
    &&& forall|i: int| 0 <= i < baselines.len() ==> 100_000 <= #[trigger] baselines[i] < 300_000
}

/// The scores drawn for an unknown user lie in `[0.2, 0.7)`.
pub open spec fn content_pool_in_range(scores: Seq<u64>) -> bool {
    &&& scores.len() == 10
    &&& forall|i: int| 0 <= i < 10 ==> 200_000 <= #[trigger] scores[i] < 700_000
}

/// An unknown user gets a non-empty list from the fallback pool: every entry
/// a pool id scored in `[0.2, 0.7)`.
pub proof fn lemma_unknown_user_pool(scores: Seq<u64>, out: Seq<(Seq<char>, int)>, count: int)
    requires
        content_pool_in_range(scores),
        is_top_ranking(content_pool_candidates(scores), out, count),
        count >= 1,
    ensures
        out.len() >= 1,
        forall|i: int| 0 <= i < out.len() ==> content_pool().contains(#[trigger] out[i].0) && 200_000 <= out[i].1 < 700_000,
{
    let c = content_pool_candidates(scores);
    lemma_top_ranking_not_empty(c, out, count);
    assert forall|i: int| 0 <= i < out.len() implies content_pool().contains(#[trigger] out[i].0) && 200_000 <= out[i].1 < 700_000 by {
        assert(c.contains(out[i]));
        let k = choose|k: int| 0 <= k < c.len() && c[k] == out[i];
        assert(content_pool()[k] == out[i].0);
    }
}

/// A bound on the number of categories of a video, far above what memory
/// can hold, which keeps category sums within machine integers.
pub const MAX_CATEGORIES: u64 = 0x4000_0000_0000_0000;

/// Ids of the pool offered to an unknown user.
pub open spec fn content_pool() -> Seq<Seq<char>> {
    seq![
        "video_cb_1"@, "video_cb_2"@, "video_cb_3"@, "video_cb_4"@, "video_cb_5"@,
        "video_cb_6"@, "video_cb_7"@, "video_cb_8"@, "video_cb_9"@, "video_cb_10"@,
    ]
}

/// The pool for an unknown user, entry `i` scored `scores[i]`.
pub open spec fn content_pool_candidates(scores: Seq<u64>) -> Seq<(Seq<char>, int)> {
    Seq::new(10, |i: int| (content_pool()[i], scores[i] as int))
}

/// `preference_of` on machine values.
pub fn preference_for(prefs: &Vec<(String, i64)>, category: &String) -> (r: Option<i64>)
    ensures
        r == preference_of(prefs@, category@),
{
    let mut i: usize = 0;
    assert(prefs@.skip(0) == prefs@);
    while i < prefs.len()
        invariant
            i <= prefs.len(),
            preference_of(prefs@, category@) == preference_of(prefs@.skip(i as int), category@),
        decreases prefs.len() - i,
    {
        let ghost rest = prefs@.skip(i as int);
        assert(rest[0] == prefs@[i as int]);
        if prefs[i].0 == *category {
            return Some(prefs[i].1);
        }
        assert(rest.skip(1) == prefs@.skip(i + 1));
        i += 1;
    }
    None
}

/// `watched` on machine values.
pub fn has_watched(u: &User, id: &String) -> (r: bool)
    ensures
        r == watched(*u, id@),
{
    let mut k: usize = 0;
    while k < u.watch_history.len()
        invariant
            k <= u.watch_history.len(),
            forall|j: int| 0 <= j < k ==> #[trigger] u.watch_history@[j].video_id@ != id@,
        decreases u.watch_history.len() - k,
    {
        if u.watch_history[k].video_id == *id {
            return true;
        }
        k += 1;
    }
    false
}

/// `content_score` on machine integers.
pub fn content_score_of(prefs: &Vec<(String, i64)>, v: &Video, now: i64, jitters: &Vec<u64>, baseline: u64) -> (r: i128)
    requires
        jitters@.len() == v.categories@.len(),
        v.categories@.len() <= MAX_CATEGORIES,
        forall|j: int| 0 <= j < jitters@.len() ==> #[trigger] jitters@[j] < 2 * UNIT,
    ensures
        r == content_score(prefs@, *v, now as int, jitters@, baseline),
{
    let mut m: i128 = 0;
    let mut j: usize = 0;
    while j < v.categories.len()
        invariant
            j <= v.categories.len(),
            jitters@.len() == v.categories@.len(),
            forall|i: int| 0 <= i < jitters@.len() ==> #[trigger] jitters@[i] < 2 * UNIT,
            m == matched_preference(prefs@, v.categories@.subrange(0, j as int), jitters@),
            v.categories@.len() <= MAX_CATEGORIES,
            -2 * j * 0x8000_0000_0000_0000 <= m <= 2 * j * 0x8000_0000_0000_0000,
        decreases v.categories.len() - j,
    {
        proof {
            assert(v.categories@.subrange(0, j + 1).drop_last() == v.categories@.subrange(0, j as int));
        }
        match preference_for(prefs, &v.categories[j]) {
            Some(w) => {
                proof {
                    assert(-0x8000_0000_0000_0000 * (2 * UNIT) <= w * jitters@[j as int] <= 0x8000_0000_0000_0000 * (2 * UNIT)) by (nonlinear_arith)
                        requires
                            -0x8000_0000_0000_0000 <= w < 0x8000_0000_0000_0000,
                            0 <= jitters@[j as int] < 2 * UNIT,
                    ;
                }
                let t = div_floor(w as i128 * jitters[j] as i128, UNIT as i128);
                proof {
                    vstd::arithmetic::div_mod::lemma_div_is_ordered(w * jitters@[j as int], 0x8000_0000_0000_0000 * (2 * UNIT), UNIT as int);
                    vstd::arithmetic::div_mod::lemma_div_is_ordered(-0x8000_0000_0000_0000 * (2 * UNIT), w * jitters@[j as int], UNIT as int);
                }
                m = m + t;
            },
            None => {},
        }
        j += 1;
    }
    assert(v.categories@.subrange(0, v.categories.len() as int) == v.categories@);
    assert(2 * v.categories@.len() * 0x8000_0000_0000_0000 <= 2 * MAX_CATEGORIES * 0x8000_0000_0000_0000) by (nonlinear_arith)
        requires
            v.categories@.len() <= MAX_CATEGORIES,
    ;
    let base: i128 = if m == 0 {
        baseline as i128
    } else {
        m
    };
    let age = days_between(v.upload_date, now);
    let boost: i128 = if age < 30 {
        (200_000 * (30 - age as i128)) / 30
    } else {
        0
    };
    base + boost
}

/// The pool offered to an unknown user, entry `i` scored `pool_scores[i]`,
/// ranked.
pub fn content_pool_ranking(pool_scores: &Vec<u64>, count: usize) -> (out: Vec<(String, i128)>)
    requires
        pool_scores@.len() == 10,
    ensures
        is_top_ranking(content_pool_candidates(pool_scores@), scored_view(out@), count as int),
{
    let mut scored: Vec<(String, i128)> = Vec::new();
    let ids: Vec<String> = vec![
        String::from_str("video_cb_1"), String::from_str("video_cb_2"), String::from_str("video_cb_3"),
        String::from_str("video_cb_4"), String::from_str("video_cb_5"), String::from_str("video_cb_6"),
        String::from_str("video_cb_7"), String::from_str("video_cb_8"), String::from_str("video_cb_9"),
        String::from_str("video_cb_10"),
    ];
    let mut i: usize = 0;
    while i < 10
        invariant
            i <= 10,
            scored@.len() == i,
            ids@.len() == 10,
            pool_scores@.len() == 10,
            forall|j: int| 0 <= j < 10 ==> #[trigger] ids@[j]@ == content_pool()[j],
            scored_view(scored@) == content_pool_candidates(pool_scores@).subrange(0, i as int),
        decreases 10 - i,
    {
        let ghost before = scored@;
        scored.push((ids[i].clone(), pool_scores[i] as i128));
        proof {
            assert(scored@ == before.push(scored@[i as int]));
            assert(scored_view(scored@) =~= content_pool_candidates(pool_scores@).subrange(0, i + 1)) by {
                assert forall|j: int| 0 <= j < i implies #[trigger] scored_view(scored@)[j] == content_pool_candidates(pool_scores@)[j] by {
                    assert(scored@[j] == before[j]);
                    assert(scored_view(before)[j] == content_pool_candidates(pool_scores@).subrange(0, i as int)[j]);
                }
            }
        }
        i += 1;
    }
    assert(content_pool_candidates(pool_scores@).subrange(0, 10) =~= content_pool_candidates(pool_scores@));
    top_by_score(&scored, count)
}

/// Content-based recommendations at instant `now` with the given draws:
/// `jitters[i][j]` for category `j` of video `i`, `baselines[i]` for video
/// `i`, and `pool_scores` for an unknown user, who is offered the pool.
#[verifier::rlimit(50)]
pub fn content_based_recommendations_with(
    user_id: &String,
    count: usize,
    users: &Vec<User>,
    videos: &Vec<Video>,
    now: i64,
    jitters: &Vec<Vec<u64>>,
    baselines: &Vec<u64>,
    pool_scores: &Vec<u64>,
) -> (out: Vec<(String, i128)>)
    requires
        jitters@.len() == videos@.len(),
        baselines@.len() == videos@.len(),
        pool_scores@.len() == 10,
        forall|i: int| 0 <= i < videos@.len() ==> #[trigger] jitters@[i]@.len() == videos@[i].categories@.len(),
        forall|i: int| 0 <= i < videos@.len() ==> #[trigger] videos@[i].categories@.len() <= MAX_CATEGORIES,
        forall|i: int, j: int| 0 <= i < jitters@.len() && 0 <= j < jitters@[i]@.len() ==> #[trigger] jitters@[i]@[j] < 2 * UNIT,
    ensures
        has_user(users@, user_id@) ==> is_top_ranking(
            content_candidates(users@[user_index(users@, user_id@)], videos@, now as int, jitters@, baselines@),
            scored_view(out@),
            count as int,
        ),
        !has_user(users@, user_id@) ==> is_top_ranking(content_pool_candidates(pool_scores@), scored_view(out@), count as int),
{
    let mut scored: Vec<(String, i128)> = Vec::new();
    match find_user(users, user_id) {
        Some(ui) => {
            let u = &users[ui];
            let mut i: usize = 0;
            while i < videos.len()
                invariant
                    i <= videos.len(),
                    jitters@.len() == videos@.len(),
                    baselines@.len() == videos@.len(),
                    forall|i: int| 0 <= i < videos@.len() ==> #[trigger] jitters@[i]@.len() == videos@[i].categories@.len(),
                    forall|i: int| 0 <= i < videos@.len() ==> #[trigger] videos@[i].categories@.len() <= MAX_CATEGORIES,
                    forall|i: int, j: int| 0 <= i < jitters@.len() && 0 <= j < jitters@[i]@.len() ==> #[trigger] jitters@[i]@[j] < 2 * UNIT,
                    scored_view(scored@) == content_candidates(*u, videos@.subrange(0, i as int), now as int, jitters@, baselines@),
                decreases videos.len() - i,
            {
                proof {
                    assert(videos@.subrange(0, i + 1).drop_last() == videos@.subrange(0, i as int));
                }
                if !has_watched(u, &videos[i].id) {
                    let s = content_score_of(&u.content_preferences, &videos[i], now, &jitters[i], baselines[i]);
                    scored.push((videos[i].id.clone(), s));
                }
                i += 1;
            }
            assert(videos@.subrange(0, videos.len() as int) == videos@);
        },
        None => {
            return content_pool_ranking(pool_scores, count);
        },
    }
    top_by_score(&scored, count)
}

/// Content-based recommendations now, with fresh draws: jitters from
/// `[0.8, 1.2)`, baselines from `[0.1, 0.3)`, and pool scores from `[0.2, 0.7)`.
pub fn content_based_recommendations(user_id: &String, count: usize, users: &Vec<User>, videos: &Vec<Video>) -> (out: Vec<(String, i128)>)
    requires
        forall|i: int| 0 <= i < videos@.len() ==> #[trigger] videos@[i].categories@.len() <= MAX_CATEGORIES,
    ensures
        has_user(users@, user_id@) ==> exists|now: i64, jitters: Seq<Vec<u64>>, baselines: Seq<u64>|
            now >= 0 && content_draws_in_range(videos@, jitters, baselines) && is_top_ranking(
                #[trigger] content_candidates(users@[user_index(users@, user_id@)], videos@, now as int, jitters, baselines),
                scored_view(out@),
                count as int,
            ),
        !has_user(users@, user_id@) ==> exists|scores: Seq<u64>|
            content_pool_in_range(scores) && is_top_ranking(#[trigger] content_pool_candidates(scores), scored_view(out@), count as int),
{
    let now = now_unix_seconds();
    let mut jitters: Vec<Vec<u64>> = Vec::new();
    let mut i: usize = 0;
    while i < videos.len()
        invariant
            i <= videos.len(),
            jitters@.len() == i,
            forall|k: int| 0 <= k < i ==> #[trigger] jitters@[k]@.len() == videos@[k].categories@.len(),
            forall|k: int, j: int|
                0 <= k < jitters@.len() && 0 <= j < jitters@[k]@.len() ==> 800_000 <= #[trigger] jitters@[k]@[j] < 1_200_000,
        decreases videos.len() - i,
    {
        let d = draws_in_range(videos[i].categories.len(), 800_000, 1_200_000);
        jitters.push(d);
        i += 1;
    }
    let baselines = draws_in_range(videos.len(), 100_000, 300_000);
    let pool_scores = draws_in_range(10, 200_000, 700_000);
    let out = content_based_recommendations_with(user_id, count, users, videos, now, &jitters, &baselines, &pool_scores);
    proof {
        assert(content_draws_in_range(videos@, jitters@, baselines@));
        if has_user(users@, user_id@) {
            assert(is_top_ranking(
                content_candidates(users@[user_index(users@, user_id@)], videos@, now as int, jitters@, baselines@),
                scored_view(out@),
                count as int,
            ));
        } else {
            assert(content_pool_in_range(pool_scores@));
            assert(is_top_ranking(content_pool_candidates(pool_scores@), scored_view(out@), count as int));
        }
    }
    out
}

/// Sum and number of the preferences that `prefs` gives the categories.
pub open spec fn matched_totals(prefs: Seq<(String, i64)>, categories: Seq<String>) -> (int, int)
    decreases categories.len(),
{
    if categories.len() == 0 {
        (0, 0)
    } else {
        let rest = matched_totals(prefs, categories.drop_last());
        match preference_of(prefs, categories.last()@) {
            Some(w) => (rest.0 + w, rest.1 + 1),
            None => rest,
        }
    }
}

/// Mean preference over the categories that have one, rounded down; zero
/// when none has.
pub open spec fn content_similarity(prefs: Seq<(String, i64)>, categories: Seq<String>) -> int {
    let t = matched_totals(prefs, categories);
    if t.1 > 0 {
        t.0 / t.1
    } else {
        0
    }
}

/// `content_similarity` on machine values; tags play no part.
pub fn calculate_content_similarity(prefs: &Vec<(String, i64)>, categories: &Vec<String>, _tags: &Vec<String>) -> (r: i128)
    requires
        categories@.len() <= MAX_CATEGORIES,
    ensures
        r == content_similarity(prefs@, categories@),
{
    let mut sum: i128 = 0;
    let mut n: i128 = 0;
    let mut j: usize = 0;
    while j < categories.len()
        invariant
            j <= categories@.len() <= MAX_CATEGORIES,
            (sum as int, n as int) == matched_totals(prefs@, categories@.subrange(0, j as int)),
            0 <= n <= j,
            -(j * 0x8000_0000_0000_0000) <= sum <= j * 0x8000_0000_0000_0000,
        decreases categories@.len() - j,
    {
        proof {
            assert(categories@.subrange(0, j + 1).drop_last() == categories@.subrange(0, j as int));
            assert(j * 0x8000_0000_0000_0000 + 0x8000_0000_0000_0000 <= MAX_CATEGORIES * 0x8000_0000_0000_0000 + 0x8000_0000_0000_0000) by (nonlinear_arith)
                requires
                    j < MAX_CATEGORIES,
            ;
        }
        match preference_for(prefs, &categories[j]) {
            Some(w) => {
                sum = sum + w as i128;
                n = n + 1;
            },
            None => {},
        }
        j += 1;
    }
    assert(categories@.subrange(0, categories@.len() as int) == categories@);
    if n > 0 {
        div_floor(sum, n)
    } else {
        0
    }
}

} // verus!
