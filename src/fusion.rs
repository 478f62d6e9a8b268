//! Weighted fusion of the five signals into one ranked list of videos.
use vstd::prelude::*;
use crate::model::{Video, has_video, find_video, has_user, user_index, video_index, EngineError, same_video, copy_video};
use crate::collaborative_filtering::{cf_candidates, cf_draws_in_range};
use crate::content_based::{content_candidates, content_pool_candidates, content_draws_in_range, content_pool_in_range};
use crate::popularity_based::{popularity_candidates, trending_candidates, trending_draws_in_range};
use crate::temporal::temporal_candidates;
use crate::engagement::engagement_candidates;
use crate::engine::RecommendationEngine;
use crate::ranking::{is_top_ranking, scored_view, top_by_score};
use crate::collaborative_filtering::collaborative_filtering_recommendations;
use crate::content_based::{content_based_recommendations, MAX_CATEGORIES};
use crate::popularity_based::popularity_based_recommendations;
use crate::temporal::get_temporal_recommendations;
use crate::engagement::get_engagement_recommendations;

verus! {

/// Weight of the collaborative-filtering signal, in hundredths.
pub const CF_WEIGHT: i128 = 35;
/// Weight of the content-based signal, in hundredths.
pub const CB_WEIGHT: i128 = 25;
/// Weight of the popularity signal, in hundredths.
pub const POPULARITY_WEIGHT: i128 = 15;
/// Weight of the temporal signal, in hundredths.
pub const TEMPORAL_WEIGHT: i128 = 10;
/// Weight of the engagement signal, in hundredths.
pub const ENGAGEMENT_WEIGHT: i128 = 15;
/// The weight that stands for 1.0.
pub const WEIGHT_SCALE: i128 = 100;

/// The largest signal score magnitude that fusion accepts; beyond it a
/// weighted sum could leave the range of machine integers.
pub const SCORE_LIMIT: i128 = 1_000_000_000_000_000_000_000_000_000_000_000;

/// The five fusion weights add up to exactly 1.0.
pub proof fn lemma_weights_sum_to_one()
    ensures
        CF_WEIGHT + CB_WEIGHT + POPULARITY_WEIGHT + TEMPORAL_WEIGHT + ENGAGEMENT_WEIGHT == WEIGHT_SCALE,
{
}

/// The score that `list` gives `id` (its first entry for `id`), or zero.
pub open spec fn list_score(list: Seq<(Seq<char>, int)>, id: Seq<char>) -> int
    decreases list.len(),
{
    if list.len() == 0 {
        0
    } else if list[0].0 == id {
        list[0].1
    } else {
        list_score(list.skip(1), id)
    }
}

/// The five signal lists of one request.
pub struct SignalLists {
    pub collaborative: Vec<(String, i128)>,
    pub content: Vec<(String, i128)>,
    pub popularity: Vec<(String, i128)>,
    pub temporal: Vec<(String, i128)>,
    pub engagement: Vec<(String, i128)>,
}

/// Fused score of `id`: the weighted sum of its signal scores, in units of
/// `fixed::UNIT / WEIGHT_SCALE`.
pub open spec fn fused_score(l: SignalLists, id: Seq<char>) -> int {
    CF_WEIGHT * list_score(scored_view(l.collaborative@), id) + CB_WEIGHT * list_score(scored_view(l.content@), id)
        + POPULARITY_WEIGHT * list_score(scored_view(l.popularity@), id) + TEMPORAL_WEIGHT * list_score(
        scored_view(l.temporal@),
        id,
    ) + ENGAGEMENT_WEIGHT * list_score(scored_view(l.engagement@), id)
}

/// Fusion preserves agreement: an id that every signal scores `s` (a signal
/// that does not list it counting as 0) has the fused score `s`, at the
/// weight scale.
pub proof fn lemma_agreeing_scores_fuse_unchanged(l: SignalLists, id: Seq<char>, s: int)
    requires
        list_score(scored_view(l.collaborative@), id) == s,
        list_score(scored_view(l.content@), id) == s,
        list_score(scored_view(l.popularity@), id) == s,
        list_score(scored_view(l.temporal@), id) == s,
        list_score(scored_view(l.engagement@), id) == s,
    ensures
        fused_score(l, id) == WEIGHT_SCALE * s,
{
}

/// Every id of the five lists, with its fused score.
pub open spec fn fusion_candidates(l: SignalLists) -> Seq<(Seq<char>, int)> {
    (scored_view(l.collaborative@) + scored_view(l.content@) + scored_view(l.popularity@) + scored_view(l.temporal@)
        + scored_view(l.engagement@)).map_values(|p: (Seq<char>, int)| (p.0, fused_score(l, p.0)))
}

/// Every score of `list` lies within `SCORE_LIMIT`.
pub open spec fn within_limit(list: Seq<(String, i128)>) -> bool {
    forall|k: int| 0 <= k < list.len() ==> -SCORE_LIMIT <= (#[trigger] list[k]).1 <= SCORE_LIMIT
}

/// Every score of the five lists lies within `SCORE_LIMIT`.
pub open spec fn lists_within_limit(l: SignalLists) -> bool {
    &&& within_limit(l.collaborative@)
    &&& within_limit(l.content@)
    &&& within_limit(l.popularity@)
    &&& within_limit(l.temporal@)
    &&& within_limit(l.engagement@)
}

/// The catalog records of the ids of `ranked` that are in the catalog, in
/// order.
pub open spec fn present_videos(ranked: Seq<(Seq<char>, int)>, videos: Seq<Video>) -> Seq<Video>
    decreases ranked.len(),
{
    if ranked.len() == 0 {
        Seq::empty()
    } else {
        let rest = present_videos(ranked.drop_last(), videos);
        let id = ranked.last().0;
        if has_video(videos, id) {
            rest.push(videos[video_index(videos, id)])
        } else {
            rest
        }
    }
}

/// `a` and `b` hold the same records, in the same order.
pub open spec fn same_videos(a: Seq<Video>, b: Seq<Video>) -> bool {
    a.len() == b.len() && forall|k: int| 0 <= k < a.len() ==> same_video(#[trigger] a[k], b[k])
}

/// The fused recommendations of `l`, resolved against `videos`: `Err` exactly
/// when a signal score exceeds `SCORE_LIMIT`, else the catalog records of a
/// top ranking of the fusion candidates, in ranking order, ids that are not
/// in the catalog dropped.
pub open spec fn fused_result(videos: Seq<Video>, l: SignalLists, count: int, r: Result<Vec<Video>, EngineError>) -> bool {
    match r {
        Err(e) => e == EngineError::Numeric && !lists_within_limit(l),
        Ok(vs) => lists_within_limit(l) && exists|ranked: Seq<(Seq<char>, int)>|
            is_top_ranking(fusion_candidates(l), ranked, count) && same_videos(vs@, #[trigger] present_videos(ranked, videos)),
    }
}

/// `l` holds what the five signals can return for `user` and `count` over the
/// store `e`, for some draws and some instant: each list a top ranking of its
/// signal's candidates, collaborative filtering and content-based with
/// `2 x count` entries (saturating), the others with `count`.
pub open spec fn signal_lists_valid(e: RecommendationEngine, user: Seq<char>, count: int, l: SignalLists) -> bool {
    let wide = if count <= usize::MAX / 2 {
        2 * count
    } else {
        usize::MAX as int
    };
    &&& exists|picks: Seq<u64>, jitters: Seq<u64>, pool: Seq<u64>|
        cf_draws_in_range(picks, jitters, pool) && is_top_ranking(
            #[trigger] cf_candidates(e.user_video_matrix@, user, picks, jitters, pool),
            scored_view(l.collaborative@),
            wide,
        )
    &&& has_user(e.users@, user) ==> exists|now: i64, jitters: Seq<Vec<u64>>, baselines: Seq<u64>|
        now >= 0 && content_draws_in_range(e.videos@, jitters, baselines) && is_top_ranking(
            #[trigger] content_candidates(e.users@[user_index(e.users@, user)], e.videos@, now as int, jitters, baselines),
            scored_view(l.content@),
            wide,
        )
    &&& !has_user(e.users@, user) ==> exists|scores: Seq<u64>|
        content_pool_in_range(scores) && is_top_ranking(#[trigger] content_pool_candidates(scores), scored_view(l.content@), wide)
    &&& e.videos@.len() > 0 ==> exists|now: i64|
        now >= 0 && is_top_ranking(#[trigger] popularity_candidates(e.videos@, now as int), scored_view(l.popularity@), count)
    &&& e.videos@.len() == 0 ==> exists|views: Seq<u64>, ratios: Seq<u64>|
        trending_draws_in_range(views, ratios) && is_top_ranking(
            #[trigger] trending_candidates(views, ratios),
            scored_view(l.popularity@),
            count,
        )
    &&& !has_user(e.users@, user) ==> l.temporal@.len() == 0 && l.engagement@.len() == 0
    &&& has_user(e.users@, user) ==> exists|now: i64|
        now >= 0 && is_top_ranking(
            #[trigger] temporal_candidates(e.users@[user_index(e.users@, user)], e.videos@, now as int),
            scored_view(l.temporal@),
            count,
        )
    &&& has_user(e.users@, user) ==> is_top_ranking(
        engagement_candidates(e.users@[user_index(e.users@, user)].interaction_patterns, e.videos@),
        scored_view(l.engagement@),
        count,
    )
}

/// `list_score` on machine values.
fn list_score_of(list: &Vec<(String, i128)>, id: &String) -> (r: i128)
    requires
        within_limit(list@),
    ensures
        r == list_score(scored_view(list@), id@),
        -SCORE_LIMIT <= r <= SCORE_LIMIT,
{
    let ghost v = scored_view(list@);
    let mut i: usize = 0;
    assert(v.skip(0) == v);
    while i < list.len()
        invariant
            i <= list.len(),
            v == scored_view(list@),
            within_limit(list@),
            list_score(v, id@) == list_score(v.skip(i as int), id@),
        decreases list.len() - i,
    {
        assert(v.skip(i as int)[0] == v[i as int]);
        if list[i].0 == *id {
            return list[i].1;
        }
        assert(v.skip(i as int).skip(1) == v.skip(i + 1));
        i += 1;
    }
    0
}

/// `fused_score` on machine values.
fn fused_score_of(l: &SignalLists, id: &String) -> (r: i128)
    requires
        lists_within_limit(*l),
    ensures
        r == fused_score(*l, id@),
{
    let a = list_score_of(&l.collaborative, id);
    let b = list_score_of(&l.content, id);
    let c = list_score_of(&l.popularity, id);
    let d = list_score_of(&l.temporal, id);
    let e = list_score_of(&l.engagement, id);
    CF_WEIGHT * a + CB_WEIGHT * b + POPULARITY_WEIGHT * c + TEMPORAL_WEIGHT * d + ENGAGEMENT_WEIGHT * e
}

/// Appends each entry of `src` with its fused score.
fn push_fused(cands: &mut Vec<(String, i128)>, src: &Vec<(String, i128)>, l: &SignalLists)
    requires
        lists_within_limit(*l),
    ensures
        scored_view(final(cands)@) == scored_view(old(cands)@) + scored_view(src@).map_values(
            |p: (Seq<char>, int)| (p.0, fused_score(*l, p.0)),
        ),
{
    let ghost c0 = scored_view(cands@);
    let ghost f = |p: (Seq<char>, int)| (p.0, fused_score(*l, p.0));
    let mut i: usize = 0;
    while i < src.len()
        invariant
            i <= src.len(),
            lists_within_limit(*l),
            f == (|p: (Seq<char>, int)| (p.0, fused_score(*l, p.0))),
            cands@.len() == c0.len() + i,
            scored_view(cands@) == c0 + scored_view(src@).subrange(0, i as int).map_values(f),
        decreases src.len() - i,
    {
        let s = fused_score_of(l, &src[i].0);
        let ghost before = cands@;
        cands.push((src[i].0.clone(), s));
        proof {
            let rhs = c0 + scored_view(src@).subrange(0, i + 1).map_values(f);
            let lhs = scored_view(cands@);
            assert(lhs.len() == rhs.len());
            assert forall|j: int| 0 <= j < lhs.len() implies lhs[j] == rhs[j] by {
                if j < c0.len() + i {
                    assert(cands@[j] == before[j]);
                    assert(scored_view(before)[j] == (c0 + scored_view(src@).subrange(0, i as int).map_values(f))[j]);
                } else {
                    assert(rhs[j] == f(scored_view(src@)[i as int]));
                }
            }
            assert(lhs =~= rhs);
        }
        i += 1;
    }
    assert(scored_view(src@).subrange(0, src.len() as int) == scored_view(src@));
}

/// Whether every score of `list` lies within `SCORE_LIMIT`.
fn check_limit(list: &Vec<(String, i128)>) -> (r: bool)
    ensures
        r == within_limit(list@),
{
    let mut i: usize = 0;
    while i < list.len()
        invariant
            i <= list.len(),
            forall|k: int| 0 <= k < i ==> -SCORE_LIMIT <= (#[trigger] list@[k]).1 <= SCORE_LIMIT,
        decreases list.len() - i,
    {
        if list[i].1 < -SCORE_LIMIT || list[i].1 > SCORE_LIMIT {
            return false;
        }
        i += 1;
    }
    true
}

/// The best `count` ids by fused score, or `Numeric` when a signal score
/// exceeds `SCORE_LIMIT`.
pub fn fuse_rankings(l: &SignalLists, count: usize) -> (r: Result<Vec<(String, i128)>, EngineError>)
    ensures
        r is Err <==> !lists_within_limit(*l),
        r matches Err(e) ==> e == EngineError::Numeric,
        r matches Ok(out) ==> is_top_ranking(fusion_candidates(*l), scored_view(out@), count as int),
{
    if !(check_limit(&l.collaborative) && check_limit(&l.content) && check_limit(&l.popularity) && check_limit(&l.temporal)
        && check_limit(&l.engagement)) {
        return Err(EngineError::Numeric);
    }
    let mut cands: Vec<(String, i128)> = Vec::new();
    push_fused(&mut cands, &l.collaborative, l);
    push_fused(&mut cands, &l.content, l);
    push_fused(&mut cands, &l.popularity, l);
    push_fused(&mut cands, &l.temporal, l);
    push_fused(&mut cands, &l.engagement, l);
    proof {
        let f = |p: (Seq<char>, int)| (p.0, fused_score(*l, p.0));
        let a = scored_view(l.collaborative@);
        let b = scored_view(l.content@);
        let c = scored_view(l.popularity@);
        let d = scored_view(l.temporal@);
        let e = scored_view(l.engagement@);
        assert(scored_view(cands@) =~= ((((a + b) + c) + d) + e).map_values(f));
    }
    Ok(top_by_score(&cands, count))
}

/// The catalog videos of the ranked ids, in order; ids no longer in the
/// catalog are dropped.
pub fn resolve_videos(ranked: &Vec<(String, i128)>, videos: &Vec<Video>) -> (r: Vec<Video>)
    ensures
        same_videos(r@, present_videos(scored_view(ranked@), videos@)),
{
    let ghost rv = scored_view(ranked@);
    let mut r: Vec<Video> = Vec::new();
    let mut i: usize = 0;
    while i < ranked.len()
        invariant
            i <= ranked.len(),
            rv == scored_view(ranked@),
            same_videos(r@, present_videos(rv.subrange(0, i as int), videos@)),
        decreases ranked.len() - i,
    {
        let ghost id = rv[i as int].0;
        proof {
            assert(rv.subrange(0, i + 1).drop_last() == rv.subrange(0, i as int));
            assert(rv.subrange(0, i + 1).last().0 == id);
        }
        let ghost before = r@;
        match find_video(videos, &ranked[i].0) {
            Some(k) => {
                let v = copy_video(&videos[k]);
                r.push(v);
                proof {
                    assert(r@ == before.push(v));
                    assert(present_videos(rv.subrange(0, i + 1), videos@) == present_videos(rv.subrange(0, i as int), videos@).push(
                        videos@[k as int],
                    ));
                    assert forall|j: int| 0 <= j < r@.len() implies same_video(
                        #[trigger] r@[j],
                        present_videos(rv.subrange(0, i + 1), videos@)[j],
                    ) by {
                        if j < before.len() {
                            assert(r@[j] == before[j]);
                        }
                    }
                }
            },
            None => {
                assert(present_videos(rv.subrange(0, i + 1), videos@) == present_videos(rv.subrange(0, i as int), videos@));
            },
        }
        i += 1;
    }
    assert(rv.subrange(0, ranked.len() as int) == rv);
    r
}

impl RecommendationEngine {
    /// The recommendations that the signal lists `l` give: their weighted
    /// fusion, top `count`, resolved against the catalog.
    pub fn recommend_from(&self, l: &SignalLists, count: usize) -> (r: Result<Vec<Video>, EngineError>)
        ensures
            fused_result(self.videos@, *l, count as int, r),
    {
        match fuse_rankings(l, count) {
            Err(e) => Err(e),
            Ok(ranked) => {
                let vs = resolve_videos(&ranked, &self.videos);
                assert(same_videos(vs@, present_videos(scored_view(ranked@), self.videos@)));
                assert(is_top_ranking(fusion_candidates(*l), scored_view(ranked@), count as int));
                Ok(vs)
            },
        }
    }

    /// The five signal lists for `user_id`: collaborative filtering and
    /// content-based with `2 x count` candidates, the rest with `count`.
    pub fn signal_lists(&self, user_id: &String, count: usize) -> (l: SignalLists)
        requires
            forall|i: int| 0 <= i < self.videos@.len() ==> #[trigger] self.videos@[i].categories@.len() <= MAX_CATEGORIES,
        ensures
            signal_lists_valid(*self, user_id@, count as int, l),
    {
        let wide: usize = if count <= usize::MAX / 2 {
            count * 2
        } else {
            usize::MAX
        };
        let collaborative = collaborative_filtering_recommendations(user_id, wide, &self.user_video_matrix);
        let content = content_based_recommendations(user_id, wide, &self.users, &self.videos);
        let popularity = popularity_based_recommendations(count, &self.videos);
        let temporal = get_temporal_recommendations(user_id, count, &self.users, &self.videos);
        let engagement = get_engagement_recommendations(user_id, count, &self.users, &self.videos);
        SignalLists { collaborative, content, popularity, temporal, engagement }
    }

    /// Up to `count` recommended videos for `user_id`, best first.
    pub fn recommend_videos(&self, user_id: &String, count: usize) -> (r: Result<Vec<Video>, EngineError>)
        requires
            forall|i: int| 0 <= i < self.videos@.len() ==> #[trigger] self.videos@[i].categories@.len() <= MAX_CATEGORIES,
        ensures
            exists|l: SignalLists|
                signal_lists_valid(*self, user_id@, count as int, l) && #[trigger] fused_result(self.videos@, l, count as int, r),
    {
        let l = self.signal_lists(user_id, count);
        let r = self.recommend_from(&l, count);
        assert(signal_lists_valid(*self, user_id@, count as int, l) && fused_result(self.videos@, l, count as int, r));
        r
    }
}

} // verus!
