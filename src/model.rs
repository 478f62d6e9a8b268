//! The behavioural model: users, videos, comments and watch sessions.
//!
//! Fractional quantities are fixed-point (`fixed::UNIT` is 1.0), durations are
//! milliseconds and instants are seconds since the Unix epoch.
use vstd::prelude::*;

verus! {

/// A per-user behavioural profile.
#[derive(Clone, Debug)]
pub struct InteractionPatterns {
    pub avg_watch_percentage: i64,
    pub avg_comment_length: u64,
    /// Affinity for each hour of the day (0..24), at most one entry per hour.
    pub time_of_day_preferences: Vec<(u8, i64)>,
    pub like_to_view_ratio: i64,
    pub share_frequency: i64,
}

/// A viewer.
#[derive(Clone, Debug)]
pub struct User {
    pub id: String,
    /// Ids of subscribed channels, each at most once.
    pub subscriptions: Vec<String>,
    pub watch_history: Vec<WatchEvent>,
    /// Preference weight of each category, at most one entry per category.
    pub content_preferences: Vec<(String, i64)>,
    pub interaction_patterns: InteractionPatterns,
}

/// Aggregate engagement statistics of a video.
#[derive(Clone, Debug)]
pub struct VideoMetrics {
    pub views: u64,
    pub likes: u64,
    pub dislikes: u64,
    pub share_count: u64,
    pub comment_count: u64,
    pub avg_watch_time_ms: u64,
    pub avg_watch_percentage: i64,
    pub completion_rate: i64,
    /// Pairs of (fraction of the video, fraction of viewers still watching).
    pub retention_curve: Vec<(i64, i64)>,
    pub rewatch_rate: i64,
}

/// A content item.
#[derive(Clone, Debug)]
pub struct Video {
    pub id: String,
    pub title: String,
    pub channel_id: String,
    pub duration_ms: u64,
    pub categories: Vec<String>,
    pub tags: Vec<String>,
    pub upload_date: i64,
    pub metrics: VideoMetrics,
    /// Embedding components, fixed-point with `EMBEDDING_UNIT` as 1.0.
    pub embedding: Vec<i16>,
}

/// The fixed-point value of 1.0 for embedding components.
pub const EMBEDDING_UNIT: i16 = 10_000;

/// A comment on a video.
#[derive(Clone, Debug)]
pub struct Comment {
    pub id: String,
    pub video_id: String,
    pub user_id: String,
    pub text: String,
    pub timestamp: i64,
    pub sentiment_score: i64,
    pub likes: u32,
    pub replies: Vec<String>,
}

/// One watch session.
#[derive(Clone, Debug)]
pub struct WatchEvent {
    pub video_id: String,
    pub timestamp: i64,
    pub watch_duration_ms: u64,
    pub video_duration_ms: u64,
    pub interactions: Vec<Interaction>,
}

/// A single action within a watch session.
#[derive(Clone, Debug)]
pub enum Interaction {
    Like,
    Dislike,
    Comment(String),
    Share,
    Subscribe,
    OpenCommentSection,
    /// Playback positions, in milliseconds.
    Pause(Vec<u64>),
    /// Ranges of playback positions, in milliseconds.
    Rewind(Vec<(u64, u64)>),
    Skip(Vec<(u64, u64)>),
    /// Playback speed, fixed-point.
    ChangePlaybackSpeed(i64),
}

/// One cell of the implicit rating matrix: the accumulated preference score
/// of a user for a video.
#[derive(Clone, Debug)]
pub struct Rating {
    pub user_id: String,
    pub video_id: String,
    pub value: i64,
}

/// Why an operation could not be carried out.
#[derive(Debug, PartialEq, Eq, Structural, Clone, Copy)]
pub enum EngineError {
    /// A referenced video does not exist.
    NotFound,
    /// A value left the range in which the arithmetic is defined: a score too
    /// large for fusion, or a ratio over a video without duration.
    Numeric,
}

/// Ids of a list of videos.
pub open spec fn video_ids(videos: Seq<Video>) -> Seq<Seq<char>> {
    videos.map_values(|v: Video| v.id@)
}

/// `a` and `b` hold the same metrics.
pub open spec fn same_metrics(a: VideoMetrics, b: VideoMetrics) -> bool {
    &&& a.views == b.views
    &&& a.likes == b.likes
    &&& a.dislikes == b.dislikes
    &&& a.share_count == b.share_count
    &&& a.comment_count == b.comment_count
    &&& a.avg_watch_time_ms == b.avg_watch_time_ms
    &&& a.avg_watch_percentage == b.avg_watch_percentage
    &&& a.completion_rate == b.completion_rate
    &&& a.retention_curve@ == b.retention_curve@
    &&& a.rewatch_rate == b.rewatch_rate
}

/// `a` and `b` are the same video record, field by field.
pub open spec fn same_video(a: Video, b: Video) -> bool {
    &&& a.id@ == b.id@
    &&& a.title@ == b.title@
    &&& a.channel_id@ == b.channel_id@
    &&& a.duration_ms == b.duration_ms
    &&& a.categories@.map_values(|c: String| c@) == b.categories@.map_values(|c: String| c@)
    &&& a.tags@.map_values(|c: String| c@) == b.tags@.map_values(|c: String| c@)
    &&& a.upload_date == b.upload_date
    &&& same_metrics(a.metrics, b.metrics)
    &&& a.embedding@ == b.embedding@
}

/// A copy of a list of strings.
pub fn copy_strings(v: &Vec<String>) -> (r: Vec<String>)
    ensures
        r@.map_values(|c: String| c@) == v@.map_values(|c: String| c@),
{
    let mut r: Vec<String> = Vec::new();
    let mut i: usize = 0;
    while i < v.len()
        invariant
            i <= v.len(),
            r@.len() == i,
            forall|k: int| 0 <= k < i ==> #[trigger] r@[k]@ == v@[k]@,
        decreases v.len() - i,
    {
        r.push(v[i].clone());
        i += 1;
    }
    assert(r@.map_values(|c: String| c@) =~= v@.map_values(|c: String| c@));
    r
}

/// A copy of a retention curve.
fn copy_pairs(v: &Vec<(i64, i64)>) -> (r: Vec<(i64, i64)>)
    ensures
        r@ == v@,
{
    let mut r: Vec<(i64, i64)> = Vec::new();
    let mut i: usize = 0;
    while i < v.len()
        invariant
            i <= v.len(),
            r@ == v@.subrange(0, i as int),
        decreases v.len() - i,
    {
        r.push(v[i]);
        i += 1;
        assert(r@ =~= v@.subrange(0, i as int));
    }
    assert(v@.subrange(0, v.len() as int) =~= v@);
    r
}

/// A copy of an embedding.
fn copy_embedding(v: &Vec<i16>) -> (r: Vec<i16>)
    ensures
        r@ == v@,
{
    let mut r: Vec<i16> = Vec::new();
    let mut i: usize = 0;
    while i < v.len()
        invariant
            i <= v.len(),
            r@ == v@.subrange(0, i as int),
        decreases v.len() - i,
    {
        r.push(v[i]);
        i += 1;
        assert(r@ =~= v@.subrange(0, i as int));
    }
    assert(v@.subrange(0, v.len() as int) =~= v@);
    r
}

/// A copy of `v`, field by field.
pub fn copy_video(v: &Video) -> (r: Video)
    ensures
        same_video(r, *v),
{
    let m = &v.metrics;
    Video {
        id: v.id.clone(),
        title: v.title.clone(),
        channel_id: v.channel_id.clone(),
        duration_ms: v.duration_ms,
        categories: copy_strings(&v.categories),
        tags: copy_strings(&v.tags),
        upload_date: v.upload_date,
        metrics: VideoMetrics {
            views: m.views,
            likes: m.likes,
            dislikes: m.dislikes,
            share_count: m.share_count,
            comment_count: m.comment_count,
            avg_watch_time_ms: m.avg_watch_time_ms,
            avg_watch_percentage: m.avg_watch_percentage,
            completion_rate: m.completion_rate,
            retention_curve: copy_pairs(&m.retention_curve),
            rewatch_rate: m.rewatch_rate,
        },
        embedding: copy_embedding(&v.embedding),
    }
}

/// When some position below `len` satisfies `p`, a first such position exists.
pub proof fn lemma_first_position(len: int, p: spec_fn(int) -> bool, k: int)
    requires
        0 <= k < len,
        p(k),
    ensures
        exists|i: int| 0 <= i < len && #[trigger] p(i) && forall|j: int| 0 <= j < i ==> !#[trigger] p(j),
    decreases k,
{
    if exists|j: int| 0 <= j < k && #[trigger] p(j) {
        let j = choose|j: int| 0 <= j < k && #[trigger] p(j);
        lemma_first_position(len, p, j);
    } else {
        assert(0 <= k < len && p(k) && forall|j: int| 0 <= j < k ==> !#[trigger] p(j));
    }
}

/// Some user in `users` has the id `id`.
pub open spec fn has_user(users: Seq<User>, id: Seq<char>) -> bool {
    exists|i: int| 0 <= i < users.len() && #[trigger] users[i].id@ == id
}

/// The position of the first user with the id `id` (meaningful when `has_user`).
pub open spec fn user_index(users: Seq<User>, id: Seq<char>) -> int {
    choose|i: int|
        0 <= i < users.len() && users[i].id@ == id && forall|j: int| 0 <= j < i ==> #[trigger] users[j].id@ != id
}

/// Some video in `videos` has the id `id`.
pub open spec fn has_video(videos: Seq<Video>, id: Seq<char>) -> bool {
    exists|i: int| 0 <= i < videos.len() && #[trigger] videos[i].id@ == id
}

/// The position of the first video with the id `id` (meaningful when `has_video`).
pub open spec fn video_index(videos: Seq<Video>, id: Seq<char>) -> int {
    choose|i: int|
        0 <= i < videos.len() && videos[i].id@ == id && forall|j: int| 0 <= j < i ==> #[trigger] videos[j].id@ != id
}

/// `user_index` is the first position of a user with the id `id`.
pub proof fn lemma_user_index(users: Seq<User>, id: Seq<char>)
    requires
        has_user(users, id),
    ensures
        0 <= user_index(users, id) < users.len(),
        users[user_index(users, id)].id@ == id,
        forall|j: int| 0 <= j < user_index(users, id) ==> #[trigger] users[j].id@ != id,
{
    let k = choose|k: int| 0 <= k < users.len() && #[trigger] users[k].id@ == id;
    let p = |i: int| users[i].id@ == id;
    lemma_first_position(users.len() as int, p, k);
    let i = choose|i: int| 0 <= i < users.len() && #[trigger] p(i) && forall|j: int| 0 <= j < i ==> !#[trigger] p(j);
    assert(0 <= i < users.len() && users[i].id@ == id && forall|j: int| 0 <= j < i ==> #[trigger] users[j].id@ != id) by {
        assert forall|j: int| 0 <= j < i implies #[trigger] users[j].id@ != id by {
            assert(!p(j));
        }
    }
}

/// `video_index` is the first position of a video with the id `id`.
pub proof fn lemma_video_index(videos: Seq<Video>, id: Seq<char>)
    requires
        has_video(videos, id),
    ensures
        0 <= video_index(videos, id) < videos.len(),
        videos[video_index(videos, id)].id@ == id,
        forall|j: int| 0 <= j < video_index(videos, id) ==> #[trigger] videos[j].id@ != id,
{
    let k = choose|k: int| 0 <= k < videos.len() && #[trigger] videos[k].id@ == id;
    let p = |i: int| videos[i].id@ == id;
    lemma_first_position(videos.len() as int, p, k);
    let i = choose|i: int| 0 <= i < videos.len() && #[trigger] p(i) && forall|j: int| 0 <= j < i ==> !#[trigger] p(j);
    assert(0 <= i < videos.len() && videos[i].id@ == id && forall|j: int| 0 <= j < i ==> #[trigger] videos[j].id@ != id) by {
        assert forall|j: int| 0 <= j < i implies #[trigger] videos[j].id@ != id by {
            assert(!p(j));
        }
    }
}

/// The position of the user with the id `id`, if there is one.
pub fn find_user(users: &Vec<User>, id: &String) -> (r: Option<usize>)
    ensures
        r is None <==> !has_user(users@, id@),
        r matches Some(i) ==> i == user_index(users@, id@) && i < users.len() && users@[i as int].id@ == id@,
{
    let mut i: usize = 0;
    while i < users.len()
        invariant
            i <= users.len(),
            forall|j: int| 0 <= j < i ==> #[trigger] users@[j].id@ != id@,
        decreases users.len() - i,
    {
        if users[i].id == *id {
            let ghost c = user_index(users@, id@);
            assert(0 <= c < users.len() && users@[c].id@ == id@ && forall|j: int| 0 <= j < c ==> #[trigger] users@[j].id@ != id@) by {
                assert(forall|j: int| 0 <= j < i ==> #[trigger] users@[j].id@ != id@);
            }
            assert(c == i as int) by {
                if c < i {
                    assert(users@[c].id@ != id@);
                }
                if c > i {
                    assert(users@[i as int].id@ != id@);
                }
            }
            return Some(i);
        }
        i += 1;
    }
    None
}

/// The position of the video with the id `id`, if there is one.
pub fn find_video(videos: &Vec<Video>, id: &String) -> (r: Option<usize>)
    ensures
        r is None <==> !has_video(videos@, id@),
        r matches Some(i) ==> i == video_index(videos@, id@) && i < videos.len() && videos@[i as int].id@ == id@,
{
    let mut i: usize = 0;
    while i < videos.len()
        invariant
            i <= videos.len(),
            forall|j: int| 0 <= j < i ==> #[trigger] videos@[j].id@ != id@,
        decreases videos.len() - i,
    {
        if videos[i].id == *id {
            let ghost c = video_index(videos@, id@);
            assert(0 <= c < videos.len() && videos@[c].id@ == id@ && forall|j: int| 0 <= j < c ==> #[trigger] videos@[j].id@ != id@) by {
                assert(forall|j: int| 0 <= j < i ==> #[trigger] videos@[j].id@ != id@);
            }
            assert(c == i as int) by {
                if c < i {
                    assert(videos@[c].id@ != id@);
                }
                if c > i {
                    assert(videos@[i as int].id@ != id@);
                }
            }
            return Some(i);
        }
        i += 1;
    }
    None
}

} // verus!
