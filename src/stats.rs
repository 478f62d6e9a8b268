//! Aggregate figures over the store for dashboards.
use vstd::prelude::*;
use crate::model::{User, Video, VideoMetrics};
use crate::engine::RecommendationEngine;
use crate::analytics::{category_videos, category_stats, string_views};
use crate::ranking::{is_top_ranking, scored_view, top_by_score};

verus! {

/// Sum of one counter over all videos.
pub open spec fn metric_total(videos: Seq<Video>, f: spec_fn(VideoMetrics) -> u64) -> int
    decreases videos.len(),
{
    if videos.len() == 0 {
        0
    } else {
        metric_total(videos.drop_last(), f) + f(videos.last().metrics)
    }
}

/// Ids of a list of users.
pub open spec fn user_ids(users: Seq<User>) -> Seq<Seq<char>> {
    users.map_values(|u: User| u.id@)
}

/// Each category of each video, in order, with the number of videos tagged
/// with it in `all`.
pub open spec fn category_popularity(all: Seq<Video>, videos: Seq<Video>) -> Seq<(Seq<char>, int)>
    decreases videos.len(),
{
    if videos.len() == 0 {
        Seq::empty()
    } else {
        category_popularity(all, videos.drop_last()) + videos.last().categories@.map_values(
            |c: String| (c@, category_videos(all, c@)),
        )
    }
}

/// Counts of the store.
pub struct Stats {
    pub user_count: usize,
    pub video_count: usize,
    pub total_views: u128,
    pub total_likes: u128,
    pub total_comments: u128,
    pub users: Vec<String>,
}

/// Interaction totals and the most used categories.
pub struct ChartData {
    pub likes: u128,
    pub dislikes: u128,
    pub comments: u128,
    pub shares: u128,
    /// The five categories carried by the most videos, with their counts.
    pub top_categories: Vec<(String, i128)>,
}

/// The sums of views, likes, dislikes, comments and shares over `videos`.
fn metric_totals(videos: &Vec<Video>) -> (r: (u128, u128, u128, u128, u128))
    ensures
        r.0 == metric_total(videos@, |m: VideoMetrics| m.views),
        r.1 == metric_total(videos@, |m: VideoMetrics| m.likes),
        r.2 == metric_total(videos@, |m: VideoMetrics| m.dislikes),
        r.3 == metric_total(videos@, |m: VideoMetrics| m.comment_count),
        r.4 == metric_total(videos@, |m: VideoMetrics| m.share_count),
{
    let ghost fv = |m: VideoMetrics| m.views;
    let ghost fl = |m: VideoMetrics| m.likes;
    let ghost fd = |m: VideoMetrics| m.dislikes;
    let ghost fc = |m: VideoMetrics| m.comment_count;
    let ghost fs = |m: VideoMetrics| m.share_count;
    let mut t: (u128, u128, u128, u128, u128) = (0, 0, 0, 0, 0);
    let mut i: usize = 0;
    while i < videos.len()
        invariant
            i <= videos.len(),
            fv == (|m: VideoMetrics| m.views),
            fl == (|m: VideoMetrics| m.likes),
            fd == (|m: VideoMetrics| m.dislikes),
            fc == (|m: VideoMetrics| m.comment_count),
            fs == (|m: VideoMetrics| m.share_count),
            t.0 == metric_total(videos@.subrange(0, i as int), fv),
            t.1 == metric_total(videos@.subrange(0, i as int), fl),
            t.2 == metric_total(videos@.subrange(0, i as int), fd),
            t.3 == metric_total(videos@.subrange(0, i as int), fc),
            t.4 == metric_total(videos@.subrange(0, i as int), fs),
            t.0 <= i * 0xFFFF_FFFF_FFFF_FFFF,
            t.1 <= i * 0xFFFF_FFFF_FFFF_FFFF,
            t.2 <= i * 0xFFFF_FFFF_FFFF_FFFF,
            t.3 <= i * 0xFFFF_FFFF_FFFF_FFFF,
            t.4 <= i * 0xFFFF_FFFF_FFFF_FFFF,
        decreases videos.len() - i,
    {
        proof {
            assert(videos@.subrange(0, i + 1).drop_last() == videos@.subrange(0, i as int));
            assert(i * 0xFFFF_FFFF_FFFF_FFFF + 0xFFFF_FFFF_FFFF_FFFF <= 0xFFFF_FFFF_FFFF_FFFF * 0xFFFF_FFFF_FFFF_FFFF + 0xFFFF_FFFF_FFFF_FFFF) by (nonlinear_arith)
                requires
                    i < 0xFFFF_FFFF_FFFF_FFFF,
            ;
        }
        let m = &videos[i].metrics;
        t = (
            t.0 + m.views as u128,
            t.1 + m.likes as u128,
            t.2 + m.dislikes as u128,
            t.3 + m.comment_count as u128,
            t.4 + m.share_count as u128,
        );
        i += 1;
    }
    assert(videos@.subrange(0, videos.len() as int) == videos@);
    t
}

impl RecommendationEngine {
    /// The number of users and videos, the view, like and comment totals,
    /// and the user ids.
    pub fn get_stats(&self) -> (r: Stats)
        ensures
            r.user_count == self.users@.len(),
            r.video_count == self.videos@.len(),
            r.total_views == metric_total(self.videos@, |m: VideoMetrics| m.views),
            r.total_likes == metric_total(self.videos@, |m: VideoMetrics| m.likes),
            r.total_comments == metric_total(self.videos@, |m: VideoMetrics| m.comment_count),
            string_views(r.users@) == user_ids(self.users@),
    {
        let t = metric_totals(&self.videos);
        let mut ids: Vec<String> = Vec::new();
        let mut i: usize = 0;
        while i < self.users.len()
            invariant
                i <= self.users.len(),
                ids@.len() == i,
                string_views(ids@) == user_ids(self.users@.subrange(0, i as int)),
            decreases self.users.len() - i,
        {
            let ghost before = ids@;
            ids.push(self.users[i].id.clone());
            assert(string_views(ids@) =~= user_ids(self.users@.subrange(0, i + 1))) by {
                assert forall|k: int| 0 <= k < i implies #[trigger] string_views(ids@)[k] == user_ids(self.users@.subrange(0, i + 1))[k] by {
                    assert(ids@[k] == before[k]);
                    assert(string_views(before)[k] == user_ids(self.users@.subrange(0, i as int))[k]);
                }
            }
            i += 1;
        }
        assert(self.users@.subrange(0, self.users.len() as int) == self.users@);
        Stats {
            user_count: self.users.len(),
            video_count: self.videos.len(),
            total_views: t.0,
            total_likes: t.1,
            total_comments: t.3,
            users: ids,
        }
    }

    /// Like, dislike, comment and share totals, and the five categories
    /// carried by the most videos.
    pub fn get_chart_data(&self) -> (r: ChartData)
        ensures
            r.likes == metric_total(self.videos@, |m: VideoMetrics| m.likes),
            r.dislikes == metric_total(self.videos@, |m: VideoMetrics| m.dislikes),
            r.comments == metric_total(self.videos@, |m: VideoMetrics| m.comment_count),
            r.shares == metric_total(self.videos@, |m: VideoMetrics| m.share_count),
            is_top_ranking(category_popularity(self.videos@, self.videos@), scored_view(r.top_categories@), 5),
    {
        let t = metric_totals(&self.videos);
        let videos = &self.videos;
        let mut cands: Vec<(String, i128)> = Vec::new();
        let mut i: usize = 0;
        while i < videos.len()
            invariant
                i <= videos.len(),
                scored_view(cands@) == category_popularity(videos@, videos@.subrange(0, i as int)),
            decreases videos.len() - i,
        {
            proof {
                assert(videos@.subrange(0, i + 1).drop_last() == videos@.subrange(0, i as int));
            }
            let ghost c0 = scored_view(cands@);
            let cats = &videos[i].categories;
            let ghost f = |c: String| (c@, category_videos(videos@, c@));
            assert(cats@.subrange(0, 0).map_values(f) =~= Seq::<(Seq<char>, int)>::empty());
            assert(c0 + Seq::<(Seq<char>, int)>::empty() =~= c0);
            let mut j: usize = 0;
            while j < cats.len()
                invariant
                    j <= cats@.len(),
                    cands@.len() == c0.len() + j,
                    f == (|c: String| (c@, category_videos(videos@, c@))),
                    scored_view(cands@) == c0 + cats@.subrange(0, j as int).map_values(f),
                decreases cats@.len() - j,
            {
                let (_, count) = category_stats(videos, &cats[j]);
                let ghost before = cands@;
                cands.push((cats[j].clone(), count as i128));
                assert(scored_view(cands@) =~= c0 + cats@.subrange(0, j + 1).map_values(f)) by {
                    assert(cands@ == before.push(cands@.last()));
                    let rhs = c0 + cats@.subrange(0, j + 1).map_values(f);
                    assert forall|k: int| 0 <= k < cands@.len() implies #[trigger] scored_view(cands@)[k] == rhs[k] by {
                        if k < before.len() {
                            assert(cands@[k] == before[k]);
                            assert(scored_view(before)[k] == (c0 + cats@.subrange(0, j as int).map_values(f))[k]);
                        }
                    }
                }
                j += 1;
            }
            assert(cats@.subrange(0, cats@.len() as int) == cats@);
            i += 1;
        }
        assert(videos@.subrange(0, videos.len() as int) == videos@);
        let top = top_by_score(&cands, 5);
        ChartData { likes: t.1, dislikes: t.2, comments: t.3, shares: t.4, top_categories: top }
    }
}

} // verus!
