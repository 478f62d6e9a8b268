//! The collaborative-filtering signal. A fixed set of similar users, with
//! their similarity weights, donates candidate videos from a fixed pool.
use vstd::prelude::*;
use crate::fixed::UNIT;
use crate::model::Rating;
use crate::random::draws_in_range;
use crate::ranking::{is_top_ranking, scored_view, top_by_score, lemma_top_ranking_not_empty};

verus! {

/// Number of donor users, and of picks per donor.
pub const DONORS: usize = 5;

/// Ids of the candidate pool.
pub open spec fn cf_pool() -> Seq<Seq<char>> {
    seq![
        "video_cf_1"@, "video_cf_2"@, "video_cf_3"@, "video_cf_4"@, "video_cf_5"@,
        "video_cf_6"@, "video_cf_7"@, "video_cf_8"@, "video_cf_9"@, "video_cf_10"@,
        "video_cf_11"@, "video_cf_12"@, "video_cf_13"@, "video_cf_14"@, "video_cf_15"@,
    ]
}

/// Similarity weight of donor `d`.
pub open spec fn donor_similarity(d: int) -> int {
    if d == 0 {
        850_000
    } else if d == 1 {
        740_000
    } else if d == 2 {
        680_000
    } else if d == 3 {
        610_000
    } else {
        580_000
    }
}

/// Whether the matrix holds a rating by `user`.
pub open spec fn has_ratings(matrix: Seq<Rating>, user: Seq<char>) -> bool {
    exists|k: int| 0 <= k < matrix.len() && #[trigger] matrix[k].user_id@ == user
}

/// Whether the matrix holds a rating by `user` of `video`.
pub open spec fn rated(matrix: Seq<Rating>, user: Seq<char>, video: Seq<char>) -> bool {
    exists|k: int| 0 <= k < matrix.len() && #[trigger] matrix[k].user_id@ == user && matrix[k].video_id@ == video
}

/// Candidates from the first `n` picks: pick `k` (donor `k / 5`) proposes
/// pool entry `picks[k]` with score `similarity x jitters[k]`, unless the user
/// has already rated it.
pub open spec fn donor_candidates(matrix: Seq<Rating>, user: Seq<char>, picks: Seq<u64>, jitters: Seq<u64>, n: int) -> Seq<(Seq<char>, int)>
    decreases n,
{
    if n <= 0 {
        Seq::empty()
    } else {
        let k = n - 1;
        let rest = donor_candidates(matrix, user, picks, jitters, k);
        let id = cf_pool()[picks[k] as int];
        if rated(matrix, user, id) {
            rest
        } else {
            rest.push((id, (donor_similarity(k / 5) * jitters[k]) / UNIT as int))
        }
    }
}

/// The pool for a user without ratings, entry `i` scored `scores[i]`.
pub open spec fn cf_pool_candidates(scores: Seq<u64>) -> Seq<(Seq<char>, int)> {
    Seq::new(15, |i: int| (cf_pool()[i], scores[i] as int))
}

/// The candidates for `user`: from the donors when the user has ratings,
/// else the whole pool.
pub open spec fn cf_candidates(matrix: Seq<Rating>, user: Seq<char>, picks: Seq<u64>, jitters: Seq<u64>, pool_scores: Seq<u64>) -> Seq<(Seq<char>, int)> {
    if has_ratings(matrix, user) {
        donor_candidates(matrix, user, picks, jitters, 25)
    } else {
        cf_pool_candidates(pool_scores)
    }
}

/// The draws of one request lie in their ranges: 25 picks over the pool and
/// 25 jitters in `[0.7, 1.0)`, and 15 cold-start scores in `[0.3, 0.6)`.
pub open spec fn cf_draws_in_range(picks: Seq<u64>, jitters: Seq<u64>, pool_scores: Seq<u64>) -> bool {
    &&& picks.len() == 25
    &&& jitters.len() == 25
    &&& pool_scores.len() == 15
    &&& forall|k: int| 0 <= k < 25 ==> #[trigger] picks[k] < 15
    &&& forall|k: int| 0 <= k < 25 ==> 700_000 <= #[trigger] jitters[k] < UNIT
    &&& forall|i: int| 0 <= i < 15 ==> 300_000 <= #[trigger] pool_scores[i] < 600_000
}

/// A user without ratings gets a non-empty list from the cold-start pool:
/// every entry a pool id scored in `[0.3, 0.6)`.
pub proof fn lemma_cold_start_pool(
    matrix: Seq<Rating>,
    user: Seq<char>,
    picks: Seq<u64>,
    jitters: Seq<u64>,
    pool_scores: Seq<u64>,
    out: Seq<(Seq<char>, int)>,
    count: int,
)
    requires
        !has_ratings(matrix, user),
        cf_draws_in_range(picks, jitters, pool_scores),
        is_top_ranking(cf_candidates(matrix, user, picks, jitters, pool_scores), out, count),
        count >= 1,
    ensures
        out.len() >= 1,
        forall|i: int| 0 <= i < out.len() ==> cf_pool().contains(#[trigger] out[i].0) && 300_000 <= out[i].1 < 600_000,
{
    let c = cf_pool_candidates(pool_scores);
    lemma_top_ranking_not_empty(c, out, count);
    assert forall|i: int| 0 <= i < out.len() implies cf_pool().contains(#[trigger] out[i].0) && 300_000 <= out[i].1 < 600_000 by {
        assert(c.contains(out[i]));
        let k = choose|k: int| 0 <= k < c.len() && c[k] == out[i];
        assert(cf_pool()[k] == out[i].0);
    }
}

/// Whether the matrix holds a rating by `user`, and of `video` when given.
fn find_rating(matrix: &Vec<Rating>, user: &String, video: Option<&String>) -> (r: bool)
    ensures
        video is None ==> r == has_ratings(matrix@, user@),
        video matches Some(v) ==> r == rated(matrix@, user@, v@),
{
    let mut k: usize = 0;
    while k < matrix.len()
        invariant
            k <= matrix.len(),
            video is None ==> forall|j: int| 0 <= j < k ==> #[trigger] matrix@[j].user_id@ != user@,
            video matches Some(v) ==> forall|j: int|
                0 <= j < k ==> !(#[trigger] matrix@[j].user_id@ == user@ && matrix@[j].video_id@ == v@),
        decreases matrix.len() - k,
    {
        if matrix[k].user_id == *user {
            match video {
                None => {
                    return true;
                },
                Some(v) => {
                    if matrix[k].video_id == *v {
                        return true;
                    }
                },
            }
        }
        k += 1;
    }
    false
}

fn pool_ids() -> (ids: Vec<String>)
    ensures
        ids@.len() == 15,
        forall|j: int| 0 <= j < 15 ==> #[trigger] ids@[j]@ == cf_pool()[j],
{
    vec![
        String::from_str("video_cf_1"), String::from_str("video_cf_2"), String::from_str("video_cf_3"),
        String::from_str("video_cf_4"), String::from_str("video_cf_5"), String::from_str("video_cf_6"),
        String::from_str("video_cf_7"), String::from_str("video_cf_8"), String::from_str("video_cf_9"),
        String::from_str("video_cf_10"), String::from_str("video_cf_11"), String::from_str("video_cf_12"),
        String::from_str("video_cf_13"), String::from_str("video_cf_14"), String::from_str("video_cf_15"),
    ]
}

/// Collaborative-filtering recommendations for `user_id` with the given
/// draws: `picks` (pool positions) and `jitters` for the 25 donor picks,
/// and `pool_scores` for a user without ratings.
pub fn collaborative_filtering_with(
    user_id: &String,
    count: usize,
    matrix: &Vec<Rating>,
    picks: &Vec<u64>,
    jitters: &Vec<u64>,
    pool_scores: &Vec<u64>,
) -> (out: Vec<(String, i128)>)
    requires
        picks@.len() == 25,
        jitters@.len() == 25,
        pool_scores@.len() == 15,
        forall|k: int| 0 <= k < 25 ==> #[trigger] picks@[k] < 15,
        forall|k: int| 0 <= k < 25 ==> #[trigger] jitters@[k] <= UNIT,
    ensures
        is_top_ranking(cf_candidates(matrix@, user_id@, picks@, jitters@, pool_scores@), scored_view(out@), count as int),
{
    let ids = pool_ids();
    let mut scored: Vec<(String, i128)> = Vec::new();
    if find_rating(matrix, user_id, None) {
        let mut k: usize = 0;
        while k < 25
            invariant
                k <= 25,
                ids@.len() == 15,
                forall|j: int| 0 <= j < 15 ==> #[trigger] ids@[j]@ == cf_pool()[j],
                picks@.len() == 25,
                jitters@.len() == 25,
                forall|j: int| 0 <= j < 25 ==> #[trigger] picks@[j] < 15,
                forall|j: int| 0 <= j < 25 ==> #[trigger] jitters@[j] <= UNIT,
                scored_view(scored@) == donor_candidates(matrix@, user_id@, picks@, jitters@, k as int),
            decreases 25 - k,
        {
            let id = &ids[picks[k] as usize];
            if !find_rating(matrix, user_id, Some(id)) {
                let d = k / 5;
                let sim: i128 = if d == 0 {
                    850_000
                } else if d == 1 {
                    740_000
                } else if d == 2 {
                    680_000
                } else if d == 3 {
                    610_000
                } else {
                    580_000
                };
                let s = (sim * jitters[k] as i128) / UNIT as i128;
                scored.push((id.clone(), s));
            }
            k += 1;
        }
    } else {
        let mut i: usize = 0;
        while i < 15
            invariant
                i <= 15,
                scored@.len() == i,
                ids@.len() == 15,
                pool_scores@.len() == 15,
                forall|j: int| 0 <= j < 15 ==> #[trigger] ids@[j]@ == cf_pool()[j],
                scored_view(scored@) == cf_pool_candidates(pool_scores@).subrange(0, i as int),
            decreases 15 - i,
        {
            let ghost before = scored@;
            scored.push((ids[i].clone(), pool_scores[i] as i128));
            proof {
                assert(scored@ == before.push(scored@[i as int]));
                assert(scored_view(scored@) =~= cf_pool_candidates(pool_scores@).subrange(0, i + 1)) by {
                    assert forall|j: int| 0 <= j < i implies #[trigger] scored_view(scored@)[j] == cf_pool_candidates(pool_scores@)[j] by {
                        assert(scored@[j] == before[j]);
                        assert(scored_view(before)[j] == cf_pool_candidates(pool_scores@).subrange(0, i as int)[j]);
                    }
                }
            }
            i += 1;
        }
        assert(cf_pool_candidates(pool_scores@).subrange(0, 15) =~= cf_pool_candidates(pool_scores@));
    }
    top_by_score(&scored, count)
}

/// Collaborative-filtering recommendations with fresh draws: picks uniform
/// over the pool, jitters from `[0.7, 1.0)`, pool scores from `[0.3, 0.6)`.
pub fn collaborative_filtering_recommendations(user_id: &String, count: usize, matrix: &Vec<Rating>) -> (out: Vec<(String, i128)>)
    ensures
        exists|picks: Seq<u64>, jitters: Seq<u64>, pool_scores: Seq<u64>|
            cf_draws_in_range(picks, jitters, pool_scores) && is_top_ranking(
                #[trigger] cf_candidates(matrix@, user_id@, picks, jitters, pool_scores),
                scored_view(out@),
                count as int,
            ),
{
    let picks = draws_in_range(25, 0, 15);
    let jitters = draws_in_range(25, 700_000, 1_000_000);
    let pool_scores = draws_in_range(15, 300_000, 600_000);
    let out = collaborative_filtering_with(user_id, count, matrix, &picks, &jitters, &pool_scores);
    proof {
        assert(cf_draws_in_range(picks@, jitters@, pool_scores@));
        assert(is_top_ranking(cf_candidates(matrix@, user_id@, picks@, jitters@, pool_scores@), scored_view(out@), count as int));
    }
    out
}

} // verus!
