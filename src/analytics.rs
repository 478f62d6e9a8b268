//! Batch analytics over the store: user segmentation, the video-to-video
//! similarity matrix and per-category engagement.
use vstd::prelude::*;
use crate::fixed::div_floor;
use crate::model::{User, Video, WatchEvent, Interaction};
use crate::ranking::{scored_view, has_id, contains_id};
use crate::similarity::{jaccard, cosine, engagement_similarity, tag_similarity, cosine_similarity, engagement_similarity_of, holds_str, holds_str_upto};

verus! {

/// Number of comment interactions in `list`.
pub open spec fn comment_interactions(list: Seq<Interaction>) -> int
    decreases list.len(),
{
    if list.len() == 0 {
        0
    } else {
        comment_interactions(list.drop_last()) + if list.last() is Comment {
            1int
        } else {
            0
        }
    }
}

/// Number of comment interactions over a watch history.
pub open spec fn history_comments(history: Seq<WatchEvent>) -> int
    decreases history.len(),
{
    if history.len() == 0 {
        0
    } else {
        history_comments(history.drop_last()) + comment_interactions(history.last().interactions@)
    }
}

/// A behavioural segment of users.
#[derive(Debug, PartialEq, Eq, Structural, Clone, Copy)]
pub enum Segment {
    /// Fewer than 20 watch sessions.
    Casual,
    /// More than 100 watch sessions and more than 20 comments.
    Engaged,
    /// One or two preferred categories.
    Niche,
}

/// The segment of `u`, by rules tried in turn; `None` when none applies.
pub open spec fn segment_of(u: User) -> Option<Segment> {
    let n = u.watch_history@.len();
    if n > 100 && history_comments(u.watch_history@) > 20 {
        Some(Segment::Engaged)
    } else if n < 20 {
        Some(Segment::Casual)
    } else if 1 <= u.content_preferences@.len() < 3 {
        Some(Segment::Niche)
    } else {
        None
    }
}

/// Ids of the users of `users` in segment `s`, in order.
pub open spec fn segment_members(users: Seq<User>, s: Segment) -> Seq<Seq<char>>
    decreases users.len(),
{
    if users.len() == 0 {
        Seq::empty()
    } else {
        let rest = segment_members(users.drop_last(), s);
        if segment_of(users.last()) == Some(s) {
            rest.push(users.last().id@)
        } else {
            rest
        }
    }
}

/// Weighted similarity of two videos: 0.2 x tag Jaccard + 0.3 x category
/// Jaccard + 0.2 x engagement similarity + 0.3 x embedding cosine.
pub open spec fn video_similarity(v1: Video, v2: Video) -> int {
    (2 * jaccard(v1.tags@, v2.tags@) + 3 * jaccard(v1.categories@, v2.categories@) + 2 * engagement_similarity(
        v1.metrics,
        v2.metrics,
    ) + 3 * cosine(v1.embedding@, v2.embedding@)) / 10
}

/// Similarities of `v` to each video of `videos` with another id, in order.
pub open spec fn similarity_row(v: Video, videos: Seq<Video>) -> Seq<(Seq<char>, int)>
    decreases videos.len(),
{
    if videos.len() == 0 {
        Seq::empty()
    } else {
        let rest = similarity_row(v, videos.drop_last());
        let w = videos.last();
        if w.id@ == v.id@ {
            rest
        } else {
            rest.push((w.id@, video_similarity(v, w)))
        }
    }
}

/// Sum of the average watch fractions of the videos tagged `c`.
pub open spec fn category_total(videos: Seq<Video>, c: Seq<char>) -> int
    decreases videos.len(),
{
    if videos.len() == 0 {
        0
    } else {
        category_total(videos.drop_last(), c) + if holds_str(videos.last().categories@, c) {
            videos.last().metrics.avg_watch_percentage as int
        } else {
            0
        }
    }
}

/// Number of videos tagged `c`.
pub open spec fn category_videos(videos: Seq<Video>, c: Seq<char>) -> int
    decreases videos.len(),
{
    if videos.len() == 0 {
        0
    } else {
        category_videos(videos.drop_last(), c) + if holds_str(videos.last().categories@, c) {
            1int
        } else {
            0
        }
    }
}

proof fn lemma_category_bounds(videos: Seq<Video>, c: Seq<char>)
    ensures
        0 <= category_videos(videos, c) <= videos.len(),
        -(videos.len() * 0x8000_0000_0000_0000) <= category_total(videos, c) <= videos.len() * 0x8000_0000_0000_0000,
    decreases videos.len(),
{
    if videos.len() > 0 {
        lemma_category_bounds(videos.drop_last(), c);
    }
}

/// A category carried by some video is counted for at least one video.
proof fn lemma_category_present(videos: Seq<Video>, i: int, c: Seq<char>)
    requires
        0 <= i < videos.len(),
        holds_str(videos[i].categories@, c),
    ensures
        category_videos(videos, c) >= 1,
    decreases videos.len(),
{
    lemma_category_bounds(videos.drop_last(), c);
    if i < videos.len() - 1 {
        lemma_category_present(videos.drop_last(), i, c);
    }
}

/// Sum of average watch fractions and number of the videos tagged `c`.
pub fn category_stats(videos: &Vec<Video>, c: &String) -> (r: (i128, u64))
    ensures
        r.0 == category_total(videos@, c@),
        r.1 == category_videos(videos@, c@),
{
    let mut total: i128 = 0;
    let mut count: u64 = 0;
    let mut i: usize = 0;
    while i < videos.len()
        invariant
            i <= videos.len(),
            total == category_total(videos@.subrange(0, i as int), c@),
            count == category_videos(videos@.subrange(0, i as int), c@),
            -(i * 0x8000_0000_0000_0000) <= total <= i * 0x8000_0000_0000_0000,
            count <= i,
        decreases videos.len() - i,
    {
        proof {
            assert(videos@.subrange(0, i + 1).drop_last() == videos@.subrange(0, i as int));
            assert(i * 0x8000_0000_0000_0000 + 0x8000_0000_0000_0000 <= 0xFFFF_FFFF_FFFF_FFFF * 0x8000_0000_0000_0000 + 0x8000_0000_0000_0000) by (nonlinear_arith)
                requires
                    i < 0xFFFF_FFFF_FFFF_FFFF,
            ;
        }
        let cats = &videos[i].categories;
        let tagged = holds_str_upto(cats, cats.len(), c);
        proof {
            assert(cats@.subrange(0, cats@.len() as int) == cats@);
        }
        if tagged {
            total = total + videos[i].metrics.avg_watch_percentage as i128;
            count = count + 1;
        }
        i += 1;
    }
    assert(videos@.subrange(0, videos.len() as int) == videos@);
    (total, count)
}

/// Per category, the mean of `avg_watch_percentage` over the videos tagged
/// with it, rounded down; one entry per category, in order of first
/// appearance.
pub open spec fn is_content_insight(videos: Seq<Video>, r: Seq<(Seq<char>, int)>) -> bool {
    &&& forall|i: int, j: int| 0 <= i < j < r.len() ==> #[trigger] r[i].0 != #[trigger] r[j].0
    &&& forall|k: int|
        0 <= k < r.len() ==> category_videos(videos, #[trigger] r[k].0) >= 1 && r[k].1 == category_total(videos, r[k].0)
            / category_videos(videos, r[k].0)
    &&& forall|i: int, j: int|
        0 <= i < videos.len() && 0 <= j < videos[i].categories@.len() ==> has_id(r, #[trigger] videos[i].categories@[j]@)
}

/// Users by segment.
pub struct UserSegments {
    pub casual_viewers: Vec<String>,
    pub engaged_viewers: Vec<String>,
    pub niche_enthusiasts: Vec<String>,
}

/// Ids of a list of strings.
pub open spec fn string_views(s: Seq<String>) -> Seq<Seq<char>> {
    s.map_values(|x: String| x@)
}

/// Batch analytics state.
pub struct AnalyticsEngine {
    pub user_segments: UserSegments,
}

/// Number of comment interactions in `list`.
fn count_comment_interactions(list: &Vec<Interaction>) -> (r: u64)
    ensures
        r == comment_interactions(list@),
{
    let mut c: u64 = 0;
    let mut i: usize = 0;
    while i < list.len()
        invariant
            i <= list.len(),
            c == comment_interactions(list@.subrange(0, i as int)),
            c <= i,
        decreases list.len() - i,
    {
        proof {
            assert(list@.subrange(0, i + 1).drop_last() == list@.subrange(0, i as int));
        }
        match &list[i] {
            Interaction::Comment(_) => {
                c = c + 1;
            },
            _ => {},
        }
        i += 1;
    }
    assert(list@.subrange(0, list.len() as int) == list@);
    c
}

/// Number of comment interactions over a watch history.
fn count_history_comments(history: &Vec<WatchEvent>) -> (r: u128)
    ensures
        r == history_comments(history@),
{
    let mut c: u128 = 0;
    let mut i: usize = 0;
    while i < history.len()
        invariant
            i <= history.len(),
            c == history_comments(history@.subrange(0, i as int)),
            c <= i * 0xFFFF_FFFF_FFFF_FFFF,
        decreases history.len() - i,
    {
        proof {
            assert(history@.subrange(0, i + 1).drop_last() == history@.subrange(0, i as int));
        }
        let k = count_comment_interactions(&history[i].interactions);
        proof {
            assert(i * 0xFFFF_FFFF_FFFF_FFFF + 0xFFFF_FFFF_FFFF_FFFF <= 0xFFFF_FFFF_FFFF_FFFF * 0xFFFF_FFFF_FFFF_FFFF + 0xFFFF_FFFF_FFFF_FFFF) by (nonlinear_arith)
                requires
                    i < 0xFFFF_FFFF_FFFF_FFFF,
            ;
        }
        c = c + k as u128;
        i += 1;
    }
    assert(history@.subrange(0, history.len() as int) == history@);
    c
}

/// `segment_of` on machine values.
pub fn segment_of_user(u: &User) -> (r: Option<Segment>)
    ensures
        r == segment_of(*u),
{
    let n = u.watch_history.len();
    if n > 100 && count_history_comments(&u.watch_history) > 20 {
        Some(Segment::Engaged)
    } else if n < 20 {
        Some(Segment::Casual)
    } else if 1 <= u.content_preferences.len() && u.content_preferences.len() < 3 {
        Some(Segment::Niche)
    } else {
        None
    }
}

/// Pushes `x` onto a list of strings.
fn push_string(list: &mut Vec<String>, x: &String)
    ensures
        string_views(final(list)@) == string_views(old(list)@).push(x@),
{
    let ghost before = list@;
    list.push(x.clone());
    assert(string_views(list@) =~= string_views(before).push(x@));
}

/// `video_similarity` on machine values.
pub fn video_similarity_of(v1: &Video, v2: &Video) -> (r: i128)
    ensures
        r == video_similarity(*v1, *v2),
{
    let t = tag_similarity(&v1.tags, &v2.tags);
    let c = tag_similarity(&v1.categories, &v2.categories);
    let e = engagement_similarity_of(&v1.metrics, &v2.metrics);
    let k = cosine_similarity(&v1.embedding, &v2.embedding);
    div_floor(2 * t + 3 * c + 2 * e + 3 * k, 10)
}

/// `similarity_row` on machine values.
pub fn similarity_row_of(v: &Video, videos: &Vec<Video>) -> (row: Vec<(String, i128)>)
    ensures
        scored_view(row@) == similarity_row(*v, videos@),
{
    let mut row: Vec<(String, i128)> = Vec::new();
    let mut j: usize = 0;
    while j < videos.len()
        invariant
            j <= videos.len(),
            scored_view(row@) == similarity_row(*v, videos@.subrange(0, j as int)),
        decreases videos.len() - j,
    {
        proof {
            assert(videos@.subrange(0, j + 1).drop_last() == videos@.subrange(0, j as int));
        }
        if videos[j].id != v.id {
            let s = video_similarity_of(v, &videos[j]);
            row.push((videos[j].id.clone(), s));
        }
        j += 1;
    }
    assert(videos@.subrange(0, videos.len() as int) == videos@);
    row
}

impl AnalyticsEngine {
    /// Empty analytics state.
    pub fn new() -> (r: Self)
        ensures
            r.user_segments.casual_viewers@.len() == 0,
            r.user_segments.engaged_viewers@.len() == 0,
            r.user_segments.niche_enthusiasts@.len() == 0,
    {
        AnalyticsEngine {
            user_segments: UserSegments { casual_viewers: Vec::new(), engaged_viewers: Vec::new(), niche_enthusiasts: Vec::new() },
        }
    }

    /// Partitions `users` into segments, replacing the previous segmentation;
    /// a user matching no rule is left out.
    pub fn run_user_segmentation(&mut self, users: &Vec<User>)
        ensures
            string_views(final(self).user_segments.casual_viewers@) == segment_members(users@, Segment::Casual),
            string_views(final(self).user_segments.engaged_viewers@) == segment_members(users@, Segment::Engaged),
            string_views(final(self).user_segments.niche_enthusiasts@) == segment_members(users@, Segment::Niche),
    {
        let mut casual: Vec<String> = Vec::new();
        let mut engaged: Vec<String> = Vec::new();
        let mut niche: Vec<String> = Vec::new();
        let mut i: usize = 0;
        while i < users.len()
            invariant
                i <= users.len(),
                string_views(casual@) == segment_members(users@.subrange(0, i as int), Segment::Casual),
                string_views(engaged@) == segment_members(users@.subrange(0, i as int), Segment::Engaged),
                string_views(niche@) == segment_members(users@.subrange(0, i as int), Segment::Niche),
            decreases users.len() - i,
        {
            proof {
                assert(users@.subrange(0, i + 1).drop_last() == users@.subrange(0, i as int));
            }
            match segment_of_user(&users[i]) {
                Some(Segment::Engaged) => push_string(&mut engaged, &users[i].id),
                Some(Segment::Casual) => push_string(&mut casual, &users[i].id),
                Some(Segment::Niche) => push_string(&mut niche, &users[i].id),
                None => {},
            }
            i += 1;
        }
        assert(users@.subrange(0, users.len() as int) == users@);
        self.user_segments = UserSegments { casual_viewers: casual, engaged_viewers: engaged, niche_enthusiasts: niche };
    }

    /// Per category, the mean average watch fraction of its videos.
    pub fn generate_content_insights(&self, videos: &Vec<Video>) -> (r: Vec<(String, i128)>)
        ensures
            is_content_insight(videos@, scored_view(r@)),
    {
        let mut out: Vec<(String, i128)> = Vec::new();
        let mut i: usize = 0;
        while i < videos.len()
            invariant
                i <= videos.len(),
                ({
                    let o = scored_view(out@);
                    &&& forall|a: int, b: int| 0 <= a < b < o.len() ==> #[trigger] o[a].0 != #[trigger] o[b].0
                    &&& forall|k: int|
                        0 <= k < o.len() ==> category_videos(videos@, #[trigger] o[k].0) >= 1 && o[k].1 == category_total(
                            videos@,
                            o[k].0,
                        ) / category_videos(videos@, o[k].0)
                    &&& forall|a: int, b: int|
                        0 <= a < i && 0 <= b < videos@[a].categories@.len() ==> has_id(o, #[trigger] videos@[a].categories@[b]@)
                }),
            decreases videos.len() - i,
        {
            let cats = &videos[i].categories;
            let mut j: usize = 0;
            while j < cats.len()
                invariant
                    i < videos.len(),
                    cats == &videos@[i as int].categories,
                    j <= cats@.len(),
                    ({
                        let o = scored_view(out@);
                        &&& forall|a: int, b: int| 0 <= a < b < o.len() ==> #[trigger] o[a].0 != #[trigger] o[b].0
                        &&& forall|k: int|
                            0 <= k < o.len() ==> category_videos(videos@, #[trigger] o[k].0) >= 1 && o[k].1
                                == category_total(videos@, o[k].0) / category_videos(videos@, o[k].0)
                        &&& forall|a: int, b: int|
                            0 <= a < i && 0 <= b < videos@[a].categories@.len() ==> has_id(o, #[trigger] videos@[a].categories@[b]@)
                        &&& forall|b: int| 0 <= b < j ==> has_id(o, #[trigger] cats@[b]@)
                    }),
                decreases cats@.len() - j,
            {
                let ghost o = scored_view(out@);
                if !contains_id(&out, &cats[j]) {
                    let (total, count) = category_stats(videos, &cats[j]);
                    proof {
                        assert(holds_str(videos@[i as int].categories@, cats@[j as int]@));
                        lemma_category_present(videos@, i as int, cats@[j as int]@);
                        lemma_category_bounds(videos@, cats@[j as int]@);
                    }
                    proof {
                        assert(videos@.len() * 0x8000_0000_0000_0000 < 0x7FFF_FFFF_FFFF_FFFF_FFFF_FFFF_FFFF_FFFF) by (nonlinear_arith)
                            requires
                                videos@.len() <= 0xFFFF_FFFF_FFFF_FFFF,
                        ;
                    }
                    let avg = div_floor(total, count as i128);
                    out.push((cats[j].clone(), avg));
                    let ghost o2 = scored_view(out@);
                    assert(o2 == o.push((cats@[j as int]@, avg as int)));
                    assert forall|x: Seq<char>| has_id(o, x) implies has_id(o2, x) by {
                        let k = choose|k: int| 0 <= k < o.len() && #[trigger] o[k].0 == x;
                        assert(o2[k].0 == x);
                    }
                    assert(o2[o.len() as int].0 == cats@[j as int]@);
                    assert(has_id(o2, cats@[j as int]@));
                }
                j += 1;
            }
            i += 1;
        }
        out
    }

    /// For each video, in catalog order, its id and its similarity to every
    /// video with another id.
    pub fn calculate_video_similarity_matrix(&self, videos: &Vec<Video>) -> (r: Vec<(String, Vec<(String, i128)>)>)
        ensures
            r@.len() == videos@.len(),
            forall|i: int|
                0 <= i < videos@.len() ==> #[trigger] r@[i].0@ == videos@[i].id@ && scored_view(r@[i].1@)
                    == similarity_row(videos@[i], videos@),
    {
        let mut rows: Vec<(String, Vec<(String, i128)>)> = Vec::new();
        let mut i: usize = 0;
        while i < videos.len()
            invariant
                i <= videos.len(),
                rows@.len() == i,
                forall|k: int| 0 <= k < i ==> (#[trigger] rows@[k]).0@ == videos@[k].id@,
                forall|k: int| 0 <= k < i ==> scored_view((#[trigger] rows@[k]).1@) == similarity_row(videos@[k], videos@),
            decreases videos.len() - i,
        {
            let row = similarity_row_of(&videos[i], videos);
            let ghost before = rows@;
            let id = videos[i].id.clone();
            let ghost row_view = scored_view(row@);
            assert(row_view == similarity_row(videos@[i as int], videos@));
            rows.push((id, row));
            assert(rows@[i as int].1@ == row@);
            assert forall|k: int| 0 <= k < i + 1 implies (#[trigger] rows@[k]).0@ == videos@[k].id@ && scored_view(rows@[k].1@)
                == similarity_row(videos@[k], videos@) by {
                if k < i {
                    assert(rows@[k] == before[k]);
                } else {
                    assert(scored_view(rows@[k].1@) == row_view);
                }
            }
            i += 1;

        }
        rows
    }
}

} // verus!
