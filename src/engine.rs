//! The behavioural store and the event pipeline that updates it.
//!
//! One engine value owns the four tables; callers that share it between
//! threads hold it behind a single lock, so every event is applied whole.
use vstd::prelude::*;
use crate::fixed::{UNIT, div_floor, ema, ema_u64, ema_spec, ratio, ratio_spec};
use crate::clock::now_unix_seconds;
use crate::ids::{comment_id, comment_id_spec};
use crate::sentiment::{analyze_sentiment, sentiment_spec, lowercase_of};
use crate::temporal::{subscribed, is_subscribed};
use crate::model::{EngineError, User, Video, VideoMetrics, Comment, Rating, WatchEvent, find_user, find_video, has_user, has_video, user_index, video_index, lemma_user_index, lemma_video_index, lemma_first_position};
use crate::collaborative_filtering::rated;

verus! {

/// The behavioural store: users, videos, comments and the implicit rating
/// matrix, each table keyed by id.
pub struct RecommendationEngine {
    pub users: Vec<User>,
    pub videos: Vec<Video>,
    pub comments: Vec<Comment>,
    pub user_video_matrix: Vec<Rating>,
}

/// A counter after one more event; counters stop at their maximum.
pub open spec fn bumped(x: u64) -> u64 {
    if x == u64::MAX {
        x
    } else {
        (x + 1) as u64
    }
}

/// Smoothing of a preference toward an adjustment: `old x 0.95 + adj x 0.05`,
/// rounded down.
pub open spec fn preference_ema(old: int, adj: int) -> int {
    (95 * old + 5 * adj) / 100
}

/// A rating after adding `adj`, held within the range of `i64`.
pub open spec fn accumulated(old: int, adj: int) -> int {
    let s = old + adj;
    if s > i64::MAX {
        i64::MAX as int
    } else if s < i64::MIN {
        i64::MIN as int
    } else {
        s
    }
}

/// Position of the first entry of `prefs` for `category`, or -1.
pub open spec fn preference_index(prefs: Seq<(String, i64)>, category: Seq<char>) -> int
    decreases prefs.len(),
{
    if prefs.len() == 0 {
        -1
    } else if prefs[0].0@ == category {
        0
    } else {
        let r = preference_index(prefs.skip(1), category);
        if r < 0 {
            -1
        } else {
            r + 1
        }
    }
}

/// `prefs` after smoothing the entry for `category` toward `adj`; an absent
/// category enters with weight 0 first.
pub open spec fn preference_updated(prefs: Seq<(String, i64)>, category: String, adj: int) -> Seq<(String, i64)> {
    let i = preference_index(prefs, category@);
    if i >= 0 {
        prefs.update(i, (prefs[i].0, preference_ema(prefs[i].1 as int, adj) as i64))
    } else {
        prefs.push((category, preference_ema(0, adj) as i64))
    }
}

/// `prefs` after smoothing each of `categories` in turn.
pub open spec fn preferences_updated(prefs: Seq<(String, i64)>, categories: Seq<String>, adj: int) -> Seq<(String, i64)>
    decreases categories.len(),
{
    if categories.len() == 0 {
        prefs
    } else {
        preference_updated(preferences_updated(prefs, categories.drop_last(), adj), categories.last(), adj)
    }
}

/// Position of the first rating of `video` by `user` (meaningful when `rated`).
pub open spec fn rating_index(m: Seq<Rating>, user: Seq<char>, video: Seq<char>) -> int {
    choose|i: int|
        0 <= i < m.len() && m[i].user_id@ == user && m[i].video_id@ == video && forall|j: int|
            0 <= j < i ==> !(#[trigger] m[j].user_id@ == user && m[j].video_id@ == video)
}

/// The accumulated rating of `video` by `user`; zero when there is none.
pub open spec fn rating_of(m: Seq<Rating>, user: Seq<char>, video: Seq<char>) -> int {
    if rated(m, user, video) {
        m[rating_index(m, user, video)].value as int
    } else {
        0
    }
}

/// The categories of the video `id`, empty for an unknown video.
pub open spec fn categories_of(videos: Seq<Video>, id: Seq<char>) -> Seq<String> {
    if has_video(videos, id) {
        videos[video_index(videos, id)].categories@
    } else {
        Seq::empty()
    }
}

/// The matrix after adding `adj` to the rating of `video` by `user`.
pub open spec fn ratings_updated(m0: Seq<Rating>, m1: Seq<Rating>, user: Seq<char>, video: Seq<char>, adj: int) -> bool {
    if rated(m0, user, video) {
        let i = rating_index(m0, user, video);
        m1 == m0.update(i, Rating { value: accumulated(m0[i].value as int, adj) as i64, ..m0[i] })
    } else {
        &&& m1.len() == m0.len() + 1
        &&& m1.subrange(0, m0.len() as int) == m0
        &&& m1.last().user_id@ == user
        &&& m1.last().video_id@ == video
        &&& m1.last().value == accumulated(0, adj)
    }
}

/// Every user but the first with the id `user` is the same in `us1` as in `us0`.
pub open spec fn others_unchanged(us0: Seq<User>, us1: Seq<User>, user: Seq<char>) -> bool {
    &&& us1.len() == us0.len()
    &&& forall|i: int| 0 <= i < us0.len() && !(has_user(us0, user) && i == user_index(us0, user))
        ==> #[trigger] us1[i] == us0[i]
}

/// `u1` is `u0` with its category preferences smoothed toward `adj` for each of
/// `categories`; its id, subscriptions and habits are kept.
pub open spec fn preferences_moved(u0: User, u1: User, categories: Seq<String>, adj: int) -> bool {
    &&& u1.id == u0.id
    &&& u1.subscriptions == u0.subscriptions
    &&& u1.interaction_patterns == u0.interaction_patterns
    &&& u1.content_preferences@ == preferences_updated(u0.content_preferences@, categories, adj)
}

/// The effect of a preference adjustment `adj` from `user` on a video with
/// `categories` and id `video`: the user's preferences move toward `adj`, the
/// rating accumulates it, and nothing else changes.
pub open spec fn preferences_effect(
    us0: Seq<User>,
    us1: Seq<User>,
    m0: Seq<Rating>,
    m1: Seq<Rating>,
    categories: Seq<String>,
    user: Seq<char>,
    video: Seq<char>,
    adj: int,
) -> bool {
    &&& others_unchanged(us0, us1, user)
    &&& has_user(us0, user) ==> {
        let i = user_index(us0, user);
        &&& preferences_moved(us0[i], us1[i], categories, adj)
        &&& us1[i].watch_history == us0[i].watch_history
    }
    &&& ratings_updated(m0, m1, user, video, adj)
}

/// A smoothed preference lies between the old weight and the adjustment.
pub proof fn lemma_preference_ema_between(old: int, adj: int)
    ensures
        old <= adj ==> old <= preference_ema(old, adj) <= adj,
        adj <= old ==> adj <= preference_ema(old, adj) <= old,
{
}

/// Position of the entry of `prefs` for `category`, if any.
fn preference_position(prefs: &Vec<(String, i64)>, category: &String) -> (r: Option<usize>)
    ensures
        r is None <==> preference_index(prefs@, category@) < 0,
        r matches Some(i) ==> i == preference_index(prefs@, category@) && i < prefs@.len(),
{
    let mut i: usize = 0;
    assert(prefs@.skip(0) == prefs@);
    while i < prefs.len()
        invariant
            i <= prefs.len(),
            preference_index(prefs@, category@) == if preference_index(prefs@.skip(i as int), category@) < 0 {
                -1
            } else {
                preference_index(prefs@.skip(i as int), category@) + i
            },
        decreases prefs.len() - i,
    {
        let ghost rest = prefs@.skip(i as int);
        assert(rest[0] == prefs@[i as int]);
        if prefs[i].0 == *category {
            return Some(i);
        }
        assert(rest.skip(1) == prefs@.skip(i + 1));
        i += 1;
    }
    None
}

/// Smooths the preferences for each of `categories` toward `adj`.
fn update_preferences(prefs: &mut Vec<(String, i64)>, categories: &Vec<String>, adj: i64)
    ensures
        final(prefs)@ == preferences_updated(old(prefs)@, categories@, adj as int),
{
    let mut j: usize = 0;
    while j < categories.len()
        invariant
            j <= categories.len(),
            prefs@ == preferences_updated(old(prefs)@, categories@.subrange(0, j as int), adj as int),
        decreases categories.len() - j,
    {
        proof {
            assert(categories@.subrange(0, j + 1).drop_last() == categories@.subrange(0, j as int));
        }
        match preference_position(prefs, &categories[j]) {
            Some(i) => {
                let w = prefs[i].1;
                proof {
                    lemma_preference_ema_between(w as int, adj as int);
                }
                let nw = div_floor(95 * w as i128 + 5 * adj as i128, 100) as i64;
                prefs[i].1 = nw;
            },
            None => {
                proof {
                    lemma_preference_ema_between(0, adj as int);
                }
                let nw = div_floor(5 * adj as i128, 100) as i64;
                prefs.push((categories[j].clone(), nw));
            },
        }
        j += 1;
    }
    assert(categories@.subrange(0, categories.len() as int) == categories@);
}

/// `v` after a like (or a dislike).
pub open spec fn with_like(v: Video, is_like: bool) -> Video {
    if is_like {
        Video { metrics: VideoMetrics { likes: bumped(v.metrics.likes), ..v.metrics }, ..v }
    } else {
        Video { metrics: VideoMetrics { dislikes: bumped(v.metrics.dislikes), ..v.metrics }, ..v }
    }
}

/// `v` after a share.
pub open spec fn with_share(v: Video) -> Video {
    Video { metrics: VideoMetrics { share_count: bumped(v.metrics.share_count), ..v.metrics }, ..v }
}

/// `v` after a comment.
pub open spec fn with_comment(v: Video) -> Video {
    Video { metrics: VideoMetrics { comment_count: bumped(v.metrics.comment_count), ..v.metrics }, ..v }
}

/// Fraction of a video of `duration` ms that `watched` ms cover; zero for a
/// video without duration.
pub open spec fn watch_fraction(watched: int, duration: int) -> int {
    let r = ratio_spec(watched, duration);
    if r > i64::MAX {
        i64::MAX as int
    } else {
        r
    }
}

/// `v` after a session of `watched` ms: one more view, smoothed watch time and
/// watch fraction, and a completion counted above 90%.
pub open spec fn with_watch(v: Video, watched: u64) -> Video {
    let f = watch_fraction(watched as int, v.duration_ms as int);
    let m = v.metrics;
    Video {
        metrics: VideoMetrics {
            views: bumped(m.views),
            avg_watch_time_ms: ema_spec(m.avg_watch_time_ms as int, watched as int) as u64,
            avg_watch_percentage: ema_spec(m.avg_watch_percentage as int, f) as i64,
            completion_rate: if f > 900_000 {
                ema_spec(m.completion_rate as int, UNIT as int) as i64
            } else {
                m.completion_rate
            },
            ..m
        },
        ..v
    }
}

/// Preference adjustment of a like (+1.0) or a dislike (-0.5).
pub open spec fn like_adjustment(is_like: bool) -> int {
    if is_like {
        UNIT as int
    } else {
        -(UNIT / 2)
    }
}

/// Preference adjustment of a share.
pub open spec fn share_adjustment() -> int {
    700_000
}

/// Preference adjustment of a comment.
pub open spec fn comment_adjustment() -> int {
    300_000
}

/// Preference adjustment of a session covering fraction `f`: 0.5 above 70%,
/// else `0.2 x f`.
pub open spec fn watch_adjustment(f: int) -> int {
    if f > 700_000 {
        500_000
    } else {
        f / 5
    }
}

/// The duration of the video `id`; zero for an unknown video.
pub open spec fn duration_of(videos: Seq<Video>, id: Seq<char>) -> int {
    if has_video(videos, id) {
        videos[video_index(videos, id)].duration_ms as int
    } else {
        0
    }
}

/// `videos` with the video `id`, if present, replaced by `f` of it.
pub open spec fn video_changed(videos: Seq<Video>, id: Seq<char>, nv: Video) -> Seq<Video> {
    if has_video(videos, id) {
        videos.update(video_index(videos, id), nv)
    } else {
        videos
    }
}

/// The video `id` of `videos` (meaningful when `has_video`).
pub open spec fn video_of(videos: Seq<Video>, id: Seq<char>) -> Video {
    videos[video_index(videos, id)]
}

/// The effect of a like (or dislike) by `user` of `video`.
pub open spec fn like_effect(e0: RecommendationEngine, e1: RecommendationEngine, user: Seq<char>, video: Seq<char>, is_like: bool) -> bool {
    &&& e1.videos@ == video_changed(e0.videos@, video, with_like(video_of(e0.videos@, video), is_like))
    &&& e1.comments@ == e0.comments@
    &&& preferences_effect(
        e0.users@,
        e1.users@,
        e0.user_video_matrix@,
        e1.user_video_matrix@,
        categories_of(e0.videos@, video),
        user,
        video,
        like_adjustment(is_like),
    )
}

/// The effect of a share by `user` of `video`.
pub open spec fn share_effect(e0: RecommendationEngine, e1: RecommendationEngine, user: Seq<char>, video: Seq<char>) -> bool {
    &&& e1.videos@ == video_changed(e0.videos@, video, with_share(video_of(e0.videos@, video)))
    &&& e1.comments@ == e0.comments@
    &&& preferences_effect(
        e0.users@,
        e1.users@,
        e0.user_video_matrix@,
        e1.user_video_matrix@,
        categories_of(e0.videos@, video),
        user,
        video,
        share_adjustment(),
    )
}

/// The effect of a session of `watched` ms by `user` of `video` at `now`: the
/// session joins the user's history, the video's metrics absorb it, and the
/// preference adjustment follows the fraction watched.
pub open spec fn watch_effect(e0: RecommendationEngine, e1: RecommendationEngine, user: Seq<char>, video: Seq<char>, watched: u64, now: i64) -> bool {
    let d = duration_of(e0.videos@, video);
    let adj = watch_adjustment(watch_fraction(watched as int, d));
    &&& e1.videos@ == video_changed(e0.videos@, video, with_watch(video_of(e0.videos@, video), watched))
    &&& e1.comments@ == e0.comments@
    &&& others_unchanged(e0.users@, e1.users@, user)
    &&& has_user(e0.users@, user) ==> {
        let i = user_index(e0.users@, user);
        let h0 = e0.users@[i].watch_history@;
        let h1 = e1.users@[i].watch_history@;
        &&& preferences_moved(e0.users@[i], e1.users@[i], categories_of(e0.videos@, video), adj)
        &&& h1.len() == h0.len() + 1
        &&& h1.subrange(0, h0.len() as int) == h0
        &&& h1.last().video_id@ == video
        &&& h1.last().timestamp == now
        &&& h1.last().watch_duration_ms == watched
        &&& h1.last().video_duration_ms == d
        &&& h1.last().interactions@.len() == 0
    }
    &&& ratings_updated(e0.user_video_matrix@, e1.user_video_matrix@, user, video, adj)
}

/// Some comment in `comments` has the id `id`.
pub open spec fn has_comment(comments: Seq<Comment>, id: Seq<char>) -> bool {
    exists|i: int| 0 <= i < comments.len() && #[trigger] comments[i].id@ == id
}

/// The position of the first comment with the id `id` (meaningful when `has_comment`).
pub open spec fn comment_index(comments: Seq<Comment>, id: Seq<char>) -> int {
    choose|i: int|
        0 <= i < comments.len() && comments[i].id@ == id && forall|j: int| 0 <= j < i ==> #[trigger] comments[j].id@ != id
}

/// `c` is the comment with id `id` by `user` on `video` with `text` at `ts`.
pub open spec fn is_new_comment(c: Comment, id: Seq<char>, user: Seq<char>, video: Seq<char>, text: Seq<char>, ts: i64) -> bool {
    &&& c.id@ == id
    &&& c.video_id@ == video
    &&& c.user_id@ == user
    &&& c.text@ == text
    &&& c.timestamp == ts
    &&& c.sentiment_score == sentiment_spec(lowercase_of(text))
    &&& c.likes == 0
    &&& c.replies@.len() == 0
}

/// The effect of a comment by `user` on `video` with `text` at `ts`: the
/// comment is stored under its id (replacing one with the same id), the video
/// counts one more comment, and preferences move.
pub open spec fn comment_effect(
    e0: RecommendationEngine,
    e1: RecommendationEngine,
    user: Seq<char>,
    video: Seq<char>,
    text: Seq<char>,
    ts: i64,
) -> bool {
    let id = comment_id_spec(video, ts as int);
    &&& e1.videos@ == video_changed(e0.videos@, video, with_comment(video_of(e0.videos@, video)))
    &&& if has_comment(e0.comments@, id) {
        let i = comment_index(e0.comments@, id);
        &&& e1.comments@.len() == e0.comments@.len()
        &&& forall|j: int| 0 <= j < e0.comments@.len() && j != i ==> #[trigger] e1.comments@[j] == e0.comments@[j]
        &&& is_new_comment(e1.comments@[i], id, user, video, text, ts)
    } else {
        &&& e1.comments@.len() == e0.comments@.len() + 1
        &&& e1.comments@.subrange(0, e0.comments@.len() as int) == e0.comments@
        &&& is_new_comment(e1.comments@.last(), id, user, video, text, ts)
    }
    &&& preferences_effect(
        e0.users@,
        e1.users@,
        e0.user_video_matrix@,
        e1.user_video_matrix@,
        categories_of(e0.videos@, video),
        user,
        video,
        comment_adjustment(),
    )
}

/// The effect of a subscription of `user` to `channel`: the channel joins the
/// user's subscriptions unless already there; nothing else changes.
pub open spec fn subscribe_effect(e0: RecommendationEngine, e1: RecommendationEngine, user: Seq<char>, channel: Seq<char>) -> bool {
    &&& e1.videos@ == e0.videos@
    &&& e1.comments@ == e0.comments@
    &&& e1.user_video_matrix@ == e0.user_video_matrix@
    &&& others_unchanged(e0.users@, e1.users@, user)
    &&& has_user(e0.users@, user) ==> {
        let i = user_index(e0.users@, user);
        let u0 = e0.users@[i];
        let u1 = e1.users@[i];
        &&& u1.id == u0.id
        &&& u1.watch_history == u0.watch_history
        &&& u1.content_preferences == u0.content_preferences
        &&& u1.interaction_patterns == u0.interaction_patterns
        &&& if subscribed(u0.subscriptions@, channel) {
            u1.subscriptions@ == u0.subscriptions@
        } else {
            &&& u1.subscriptions@.len() == u0.subscriptions@.len() + 1
            &&& u1.subscriptions@.subrange(0, u0.subscriptions@.len() as int) == u0.subscriptions@
            &&& u1.subscriptions@.last()@ == channel
        }
    }
}

/// No two users share an id.
pub open spec fn unique_users(us: Seq<User>) -> bool {
    forall|i: int, j: int| 0 <= i < j < us.len() ==> #[trigger] us[i].id@ != #[trigger] us[j].id@
}

/// No two videos share an id.
pub open spec fn unique_videos(vs: Seq<Video>) -> bool {
    forall|i: int, j: int| 0 <= i < j < vs.len() ==> #[trigger] vs[i].id@ != #[trigger] vs[j].id@
}

/// No two comments share an id.
pub open spec fn unique_comments(cs: Seq<Comment>) -> bool {
    forall|i: int, j: int| 0 <= i < j < cs.len() ==> #[trigger] cs[i].id@ != #[trigger] cs[j].id@
}

/// The matrix holds at most one cell per user and video.
pub open spec fn unique_ratings(m: Seq<Rating>) -> bool {
    forall|i: int, j: int|
        0 <= i < j < m.len() ==> !(#[trigger] m[i].user_id@ == #[trigger] m[j].user_id@ && m[i].video_id@ == m[j].video_id@)
}

impl RecommendationEngine {
    /// Every table is keyed by its ids: no id, and no user and video pair of
    /// the rating matrix, occurs twice.
    pub open spec fn wf(&self) -> bool {
        &&& unique_users(self.users@)
        &&& unique_videos(self.videos@)
        &&& unique_comments(self.comments@)
        &&& unique_ratings(self.user_video_matrix@)
    }
}

/// A change confined to one user that keeps its id keeps users unique.
pub proof fn lemma_users_stay_unique(us0: Seq<User>, us1: Seq<User>, user: Seq<char>)
    requires
        unique_users(us0),
        others_unchanged(us0, us1, user),
        has_user(us0, user) ==> us1[user_index(us0, user)].id == us0[user_index(us0, user)].id,
    ensures
        unique_users(us1),
{
    assert forall|i: int| 0 <= i < us0.len() implies #[trigger] us1[i].id@ == us0[i].id@ by {
        if !(has_user(us0, user) && i == user_index(us0, user)) {
            assert(us1[i] == us0[i]);
        }
    }
    assert forall|i: int, j: int| 0 <= i < j < us1.len() implies #[trigger] us1[i].id@ != #[trigger] us1[j].id@ by {
        assert(us0[i].id@ != us0[j].id@);
    }
}

/// Replacing a video by one with the same id keeps videos unique.
pub proof fn lemma_videos_stay_unique(vs: Seq<Video>, id: Seq<char>, nv: Video)
    requires
        unique_videos(vs),
        has_video(vs, id) ==> nv.id == vs[video_index(vs, id)].id,
    ensures
        unique_videos(video_changed(vs, id, nv)),
{
    if has_video(vs, id) {
        lemma_video_index(vs, id);
        let k = video_index(vs, id);
        let v1 = vs.update(k, nv);
        assert forall|i: int, j: int| 0 <= i < j < v1.len() implies #[trigger] v1[i].id@ != #[trigger] v1[j].id@ by {
            assert(vs[i].id@ != vs[j].id@);
        }
    }
}

/// An update of one rating keeps one cell per user and video.
pub proof fn lemma_ratings_stay_unique(m0: Seq<Rating>, m1: Seq<Rating>, user: Seq<char>, video: Seq<char>, adj: int)
    requires
        unique_ratings(m0),
        ratings_updated(m0, m1, user, video, adj),
    ensures
        unique_ratings(m1),
{
    if rated(m0, user, video) {
        lemma_rating_index(m0, user, video);
        assert forall|i: int, j: int| 0 <= i < j < m1.len() implies !(#[trigger] m1[i].user_id@ == #[trigger] m1[j].user_id@
            && m1[i].video_id@ == m1[j].video_id@) by {
            assert(!(m0[i].user_id@ == m0[j].user_id@ && m0[i].video_id@ == m0[j].video_id@));
        }
    } else {
        let n = m0.len() as int;
        assert forall|i: int, j: int| 0 <= i < j < m1.len() implies !(#[trigger] m1[i].user_id@ == #[trigger] m1[j].user_id@
            && m1[i].video_id@ == m1[j].video_id@) by {
            assert(m1[i] == m1.subrange(0, n)[i]);
            if j < n {
                assert(m1[j] == m1.subrange(0, n)[j]);
                assert(!(m0[i].user_id@ == m0[j].user_id@ && m0[i].video_id@ == m0[j].video_id@));
            } else if m1[i].user_id@ == m1[j].user_id@ && m1[i].video_id@ == m1[j].video_id@ {
                assert(m0[i].user_id@ == user && m0[i].video_id@ == video);
            }
        }
    }
}

/// The effect of a comment keeps comment ids unique.
pub proof fn lemma_comments_stay_unique(e0: RecommendationEngine, e1: RecommendationEngine, user: Seq<char>, video: Seq<char>, text: Seq<char>, ts: i64)
    requires
        unique_comments(e0.comments@),
        comment_effect(e0, e1, user, video, text, ts),
    ensures
        unique_comments(e1.comments@),
{
    let id = comment_id_spec(video, ts as int);
    let c0 = e0.comments@;
    let c1 = e1.comments@;
    if has_comment(c0, id) {
        lemma_comment_index(c0, id);
        let k = comment_index(c0, id);
        assert forall|i: int, j: int| 0 <= i < j < c1.len() implies #[trigger] c1[i].id@ != #[trigger] c1[j].id@ by {
            assert(c0[i].id@ != c0[j].id@);
            if i != k {
                assert(c1[i] == c0[i]);
            }
            if j != k {
                assert(c1[j] == c0[j]);
            }
        }
    } else {
        let n = c0.len() as int;
        assert forall|i: int, j: int| 0 <= i < j < c1.len() implies #[trigger] c1[i].id@ != #[trigger] c1[j].id@ by {
            assert(c1[i] == c1.subrange(0, n)[i]);
            if j < n {
                assert(c1[j] == c1.subrange(0, n)[j]);
                assert(c0[i].id@ != c0[j].id@);
            } else if c1[i].id@ == c1[j].id@ {
                assert(c0[i].id@ == id);
            }
        }
    }
}

/// Likes keep the store well formed.
pub proof fn lemma_like_keeps_wf(e0: RecommendationEngine, e1: RecommendationEngine, user: Seq<char>, video: Seq<char>, is_like: bool)
    requires
        e0.wf(),
        like_effect(e0, e1, user, video, is_like),
    ensures
        e1.wf(),
{
    lemma_users_stay_unique(e0.users@, e1.users@, user);
    lemma_videos_stay_unique(e0.videos@, video, with_like(video_of(e0.videos@, video), is_like));
    lemma_ratings_stay_unique(e0.user_video_matrix@, e1.user_video_matrix@, user, video, like_adjustment(is_like));
}

/// Shares keep the store well formed.
pub proof fn lemma_share_keeps_wf(e0: RecommendationEngine, e1: RecommendationEngine, user: Seq<char>, video: Seq<char>)
    requires
        e0.wf(),
        share_effect(e0, e1, user, video),
    ensures
        e1.wf(),
{
    lemma_users_stay_unique(e0.users@, e1.users@, user);
    lemma_videos_stay_unique(e0.videos@, video, with_share(video_of(e0.videos@, video)));
    lemma_ratings_stay_unique(e0.user_video_matrix@, e1.user_video_matrix@, user, video, share_adjustment());
}

/// Watch sessions keep the store well formed.
pub proof fn lemma_watch_keeps_wf(e0: RecommendationEngine, e1: RecommendationEngine, user: Seq<char>, video: Seq<char>, watched: u64, now: i64)
    requires
        e0.wf(),
        watch_effect(e0, e1, user, video, watched, now),
    ensures
        e1.wf(),
{
    lemma_users_stay_unique(e0.users@, e1.users@, user);
    lemma_videos_stay_unique(e0.videos@, video, with_watch(video_of(e0.videos@, video), watched));
    lemma_ratings_stay_unique(
        e0.user_video_matrix@,
        e1.user_video_matrix@,
        user,
        video,
        watch_adjustment(watch_fraction(watched as int, duration_of(e0.videos@, video))),
    );
}

/// Comments keep the store well formed.
pub proof fn lemma_comment_keeps_wf(e0: RecommendationEngine, e1: RecommendationEngine, user: Seq<char>, video: Seq<char>, text: Seq<char>, ts: i64)
    requires
        e0.wf(),
        comment_effect(e0, e1, user, video, text, ts),
    ensures
        e1.wf(),
{
    lemma_users_stay_unique(e0.users@, e1.users@, user);
    lemma_videos_stay_unique(e0.videos@, video, with_comment(video_of(e0.videos@, video)));
    lemma_comments_stay_unique(e0, e1, user, video, text, ts);
    lemma_ratings_stay_unique(e0.user_video_matrix@, e1.user_video_matrix@, user, video, comment_adjustment());
}

/// Subscriptions keep the store well formed.
pub proof fn lemma_subscribe_keeps_wf(e0: RecommendationEngine, e1: RecommendationEngine, user: Seq<char>, channel: Seq<char>)
    requires
        e0.wf(),
        subscribe_effect(e0, e1, user, channel),
    ensures
        e1.wf(),
{
    lemma_users_stay_unique(e0.users@, e1.users@, user);
}

/// Replacing a video by one with the same id leaves every lookup as it was.
pub proof fn lemma_lookup_kept(videos: Seq<Video>, i: int, nv: Video, id: Seq<char>)
    requires
        0 <= i < videos.len(),
        nv.id == videos[i].id,
    ensures
        has_video(videos.update(i, nv), id) == has_video(videos, id),
        has_video(videos, id) ==> video_index(videos.update(i, nv), id) == video_index(videos, id),
        categories_of(videos.update(i, nv), id) == if has_video(videos, id) && video_index(videos, id) == i {
            nv.categories@
        } else {
            categories_of(videos, id)
        },
        duration_of(videos.update(i, nv), id) == if has_video(videos, id) && video_index(videos, id) == i {
            nv.duration_ms as int
        } else {
            duration_of(videos, id)
        },
{
    let v1 = videos.update(i, nv);
    assert(forall|j: int| 0 <= j < videos.len() ==> #[trigger] v1[j].id@ == videos[j].id@);
    if has_video(videos, id) {
        lemma_video_index(videos, id);
        let k = video_index(videos, id);
        assert(v1[k].id@ == id);
        lemma_video_index(v1, id);
        let k1 = video_index(v1, id);
        if k1 < k {
            assert(videos[k1].id@ == id);
        }
        if k < k1 {
            assert(v1[k].id@ == id);
        }
    }
    if has_video(v1, id) {
        let k = choose|k: int| 0 <= k < v1.len() && #[trigger] v1[k].id@ == id;
        assert(videos[k].id@ == id);
    }
}

/// `comment_index` is the first position of a comment with the id `id`.
pub proof fn lemma_comment_index(comments: Seq<Comment>, id: Seq<char>)
    requires
        has_comment(comments, id),
    ensures
        0 <= comment_index(comments, id) < comments.len(),
        comments[comment_index(comments, id)].id@ == id,
{
    let k = choose|k: int| 0 <= k < comments.len() && #[trigger] comments[k].id@ == id;
    let p = |i: int| comments[i].id@ == id;
    lemma_first_position(comments.len() as int, p, k);
    let i = choose|i: int| 0 <= i < comments.len() && #[trigger] p(i) && forall|j: int| 0 <= j < i ==> !#[trigger] p(j);
    assert(0 <= i < comments.len() && comments[i].id@ == id && forall|j: int| 0 <= j < i ==> #[trigger] comments[j].id@ != id) by {
        assert forall|j: int| 0 <= j < i implies #[trigger] comments[j].id@ != id by {
            assert(!p(j));
        }
    }
}

/// Users with the same ids at the same positions give the same lookups.
pub proof fn lemma_user_lookup_kept(us0: Seq<User>, us1: Seq<User>, id: Seq<char>)
    requires
        us1.len() == us0.len(),
        forall|i: int| 0 <= i < us0.len() ==> #[trigger] us1[i].id@ == us0[i].id@,
    ensures
        has_user(us1, id) == has_user(us0, id),
        has_user(us0, id) ==> user_index(us1, id) == user_index(us0, id),
{
    if has_user(us0, id) {
        lemma_user_index(us0, id);
        let k = user_index(us0, id);
        assert(us1[k].id@ == id);
        lemma_user_index(us1, id);
        let k1 = user_index(us1, id);
        if k1 < k {
            assert(us0[k1].id@ == id);
        }
        if k < k1 {
            assert(us1[k].id@ == id);
        }
    }
    if has_user(us1, id) {
        let k = choose|k: int| 0 <= k < us1.len() && #[trigger] us1[k].id@ == id;
        assert(us0[k].id@ == id);
    }
}

/// A change confined to the user `user` that keeps ids keeps every lookup.
pub proof fn lemma_user_change_keeps_lookup(us0: Seq<User>, us1: Seq<User>, user: Seq<char>, id: Seq<char>)
    requires
        others_unchanged(us0, us1, user),
        has_user(us0, user) ==> us1[user_index(us0, user)].id == us0[user_index(us0, user)].id,
    ensures
        has_user(us1, id) == has_user(us0, id),
        has_user(us0, id) ==> user_index(us1, id) == user_index(us0, id),
{
    assert forall|i: int| 0 <= i < us0.len() implies #[trigger] us1[i].id@ == us0[i].id@ by {
        if has_user(us0, user) && i == user_index(us0, user) {
        } else {
            assert(us1[i] == us0[i]);
        }
    }
    lemma_user_lookup_kept(us0, us1, id);
}

/// The three steps of a watch event make up its effect.
proof fn lemma_watch_steps(
    e0: RecommendationEngine,
    e1: RecommendationEngine,
    e2: RecommendationEngine,
    e3: RecommendationEngine,
    user: Seq<char>,
    video: Seq<char>,
    watched: u64,
    now: i64,
    d: int,
    adj: int,
)
    requires
        d == duration_of(e0.videos@, video),
        adj == watch_adjustment(watch_fraction(watched as int, d)),
        e1.videos == e0.videos,
        e1.comments == e0.comments,
        e1.user_video_matrix == e0.user_video_matrix,
        others_unchanged(e0.users@, e1.users@, user),
        has_user(e0.users@, user) ==> {
            let i = user_index(e0.users@, user);
            let u0 = e0.users@[i];
            let u1 = e1.users@[i];
            let h0 = u0.watch_history@;
            let h1 = u1.watch_history@;
            &&& u1.id == u0.id
            &&& u1.subscriptions == u0.subscriptions
            &&& u1.interaction_patterns == u0.interaction_patterns
            &&& u1.content_preferences == u0.content_preferences
            &&& h1.len() == h0.len() + 1
            &&& h1.subrange(0, h0.len() as int) == h0
            &&& h1.last().video_id@ == video
            &&& h1.last().timestamp == now
            &&& h1.last().watch_duration_ms == watched
            &&& h1.last().video_duration_ms == d
            &&& h1.last().interactions@.len() == 0
        },
        e2.users == e1.users,
        e2.comments == e1.comments,
        e2.user_video_matrix == e1.user_video_matrix,
        e2.videos@ == video_changed(e1.videos@, video, with_watch(video_of(e1.videos@, video), watched)),
        categories_of(e2.videos@, video) == categories_of(e1.videos@, video),
        e3.videos@ == e2.videos@,
        e3.comments@ == e2.comments@,
        preferences_effect(
            e2.users@,
            e3.users@,
            e2.user_video_matrix@,
            e3.user_video_matrix@,
            categories_of(e2.videos@, video),
            user,
            video,
            adj,
        ),
    ensures
        watch_effect(e0, e3, user, video, watched, now),
{
    lemma_user_change_keeps_lookup(e0.users@, e1.users@, user, user);
    assert forall|i: int| 0 <= i < e0.users@.len() && !(has_user(e0.users@, user) && i == user_index(e0.users@, user))
        implies #[trigger] e3.users@[i] == e0.users@[i] by {
        assert(e1.users@[i] == e0.users@[i]);
    }
}

/// `rating_index` is the first position of a rating of `video` by `user`.
pub proof fn lemma_rating_index(m: Seq<Rating>, user: Seq<char>, video: Seq<char>)
    requires
        rated(m, user, video),
    ensures
        0 <= rating_index(m, user, video) < m.len(),
        m[rating_index(m, user, video)].user_id@ == user,
        m[rating_index(m, user, video)].video_id@ == video,
        forall|j: int| 0 <= j < rating_index(m, user, video) ==> !(#[trigger] m[j].user_id@ == user && m[j].video_id@ == video),
{
    let k = choose|k: int| 0 <= k < m.len() && #[trigger] m[k].user_id@ == user && m[k].video_id@ == video;
    let p = |i: int| m[i].user_id@ == user && m[i].video_id@ == video;
    lemma_first_position(m.len() as int, p, k);
    let i = choose|i: int| 0 <= i < m.len() && #[trigger] p(i) && forall|j: int| 0 <= j < i ==> !#[trigger] p(j);
    assert(0 <= i < m.len() && m[i].user_id@ == user && m[i].video_id@ == video && forall|j: int|
        0 <= j < i ==> !(#[trigger] m[j].user_id@ == user && m[j].video_id@ == video)) by {
        assert forall|j: int| 0 <= j < i implies !(#[trigger] m[j].user_id@ == user && m[j].video_id@ == video) by {
            assert(!p(j));
        }
    }
}

/// An update of the rating of `video` by `user` accumulates `adj` into it.
pub proof fn lemma_rating_after_update(m0: Seq<Rating>, m1: Seq<Rating>, user: Seq<char>, video: Seq<char>, adj: int)
    requires
        ratings_updated(m0, m1, user, video, adj),
    ensures
        rated(m1, user, video),
        rating_of(m1, user, video) == accumulated(rating_of(m0, user, video), adj),
{
    if rated(m0, user, video) {
        lemma_rating_index(m0, user, video);
        let i = rating_index(m0, user, video);
        assert(m1[i].user_id@ == user && m1[i].video_id@ == video);
        lemma_rating_index(m1, user, video);
        let i1 = rating_index(m1, user, video);
        if i1 < i {
            assert(m0[i1] == m1[i1]);
        }
        if i < i1 {
            assert(!(m1[i].user_id@ == user && m1[i].video_id@ == video));
        }
    } else {
        let n = m0.len() as int;
        assert(m1[n].user_id@ == user && m1[n].video_id@ == video);
        lemma_rating_index(m1, user, video);
        let i1 = rating_index(m1, user, video);
        if i1 < n {
            assert(m1[i1] == m1.subrange(0, n)[i1]);
            assert(m0[i1].user_id@ == user && m0[i1].video_id@ == video);
        }
    }
}

/// Likes are not idempotent: two identical likes (or dislikes) of a video
/// count twice, and the rating accumulates the adjustment twice.
pub proof fn lemma_like_twice(
    e0: RecommendationEngine,
    e1: RecommendationEngine,
    e2: RecommendationEngine,
    user: Seq<char>,
    video: Seq<char>,
    is_like: bool,
)
    requires
        like_effect(e0, e1, user, video, is_like),
        like_effect(e1, e2, user, video, is_like),
    ensures
        has_video(e0.videos@, video) ==> {
            let i = video_index(e0.videos@, video);
            let m0 = e0.videos@[i].metrics;
            let m2 = e2.videos@[i].metrics;
            &&& is_like && m0.likes + 2 <= u64::MAX ==> m2.likes == m0.likes + 2
            &&& !is_like && m0.dislikes + 2 <= u64::MAX ==> m2.dislikes == m0.dislikes + 2
        },
        rating_of(e2.user_video_matrix@, user, video) == accumulated(
            accumulated(rating_of(e0.user_video_matrix@, user, video), like_adjustment(is_like)),
            like_adjustment(is_like),
        ),
        i64::MIN <= rating_of(e0.user_video_matrix@, user, video) + 2 * like_adjustment(is_like) <= i64::MAX
            ==> rating_of(e2.user_video_matrix@, user, video) == rating_of(e0.user_video_matrix@, user, video) + 2
            * like_adjustment(is_like),
{
    lemma_rating_after_update(e0.user_video_matrix@, e1.user_video_matrix@, user, video, like_adjustment(is_like));
    lemma_rating_after_update(e1.user_video_matrix@, e2.user_video_matrix@, user, video, like_adjustment(is_like));
    if has_video(e0.videos@, video) {
        lemma_video_index(e0.videos@, video);
        let i = video_index(e0.videos@, video);
        lemma_lookup_kept(e0.videos@, i, with_like(e0.videos@[i], is_like), video);
    }
}

/// Position of the first rating of `video` by `user`, if any.
fn rating_position(m: &Vec<Rating>, user: &String, video: &String) -> (r: Option<usize>)
    ensures
        r is None <==> !rated(m@, user@, video@),
        r matches Some(i) ==> i == rating_index(m@, user@, video@) && i < m@.len(),
{
    let mut i: usize = 0;
    while i < m.len()
        invariant
            i <= m.len(),
            forall|j: int| 0 <= j < i ==> !(#[trigger] m@[j].user_id@ == user@ && m@[j].video_id@ == video@),
        decreases m.len() - i,
    {
        if m[i].user_id == *user && m[i].video_id == *video {
            let ghost c = rating_index(m@, user@, video@);
            assert(0 <= c < m@.len() && m@[c].user_id@ == user@ && m@[c].video_id@ == video@ && forall|j: int|
                0 <= j < c ==> !(#[trigger] m@[j].user_id@ == user@ && m@[j].video_id@ == video@)) by {
                assert(forall|j: int| 0 <= j < i ==> !(#[trigger] m@[j].user_id@ == user@ && m@[j].video_id@ == video@));
            }
            assert(c == i as int) by {
                if c < i {
                    assert(!(m@[c].user_id@ == user@ && m@[c].video_id@ == video@));
                }
                if c > i {
                    assert(!(m@[i as int].user_id@ == user@ && m@[i as int].video_id@ == video@));
                }
            }
            return Some(i);
        }
        i += 1;
    }
    None
}

/// Position of the first comment with the id `id`, if any.
fn comment_position(comments: &Vec<Comment>, id: &String) -> (r: Option<usize>)
    ensures
        r is None <==> !has_comment(comments@, id@),
        r matches Some(i) ==> i == comment_index(comments@, id@) && i < comments@.len(),
{
    let mut i: usize = 0;
    while i < comments.len()
        invariant
            i <= comments.len(),
            forall|j: int| 0 <= j < i ==> #[trigger] comments@[j].id@ != id@,
        decreases comments.len() - i,
    {
        if comments[i].id == *id {
            let ghost c = comment_index(comments@, id@);
            assert(0 <= c < comments.len() && comments@[c].id@ == id@ && forall|j: int| 0 <= j < c ==> #[trigger] comments@[j].id@ != id@) by {
                assert(forall|j: int| 0 <= j < i ==> #[trigger] comments@[j].id@ != id@);
            }
            assert(c == i as int) by {
                if c < i {
                    assert(comments@[c].id@ != id@);
                }
                if c > i {
                    assert(comments@[i as int].id@ != id@);
                }
            }
            return Some(i);
        }
        i += 1;
    }
    None
}

/// `watch_fraction` on machine integers.
fn watch_fraction_of(watched: u64, duration: u64) -> (r: i64)
    ensures
        r == watch_fraction(watched as int, duration as int),
        r >= 0,
{
    let f = ratio(watched, duration);
    if f > i64::MAX as i128 {
        i64::MAX
    } else {
        f as i64
    }
}

impl RecommendationEngine {
    /// An empty store.
    pub fn new() -> (r: Self)
        ensures
            r.users@.len() == 0,
            r.videos@.len() == 0,
            r.comments@.len() == 0,
            r.user_video_matrix@.len() == 0,
            r.wf(),
    {
        RecommendationEngine { users: Vec::new(), videos: Vec::new(), comments: Vec::new(), user_video_matrix: Vec::new() }
    }

    /// Adds `adj` to the rating of `video_id` by `user_id`.
    fn add_rating(&mut self, user_id: &String, video_id: &String, adj: i64)
        ensures
            final(self).users == old(self).users,
            final(self).videos == old(self).videos,
            final(self).comments == old(self).comments,
            ratings_updated(old(self).user_video_matrix@, final(self).user_video_matrix@, user_id@, video_id@, adj as int),
    {
        match rating_position(&self.user_video_matrix, user_id, video_id) {
            Some(i) => {
                let s: i128 = self.user_video_matrix[i].value as i128 + adj as i128;
                let nv: i64 = if s > i64::MAX as i128 {
                    i64::MAX
                } else if s < i64::MIN as i128 {
                    i64::MIN
                } else {
                    s as i64
                };
                self.user_video_matrix[i].value = nv;
            },
            None => {
                let ghost m0 = self.user_video_matrix@;
                self.user_video_matrix.push(Rating { user_id: user_id.clone(), video_id: video_id.clone(), value: adj });
                assert(self.user_video_matrix@.subrange(0, m0.len() as int) =~= m0);
            },
        }
    }

    /// Records a like (or a dislike) of `video_id` by `user_id`.
    pub fn process_like(&mut self, user_id: &String, video_id: &String, is_like: bool)
        ensures
            like_effect(*old(self), *final(self), user_id@, video_id@, is_like),
            old(self).wf() ==> final(self).wf(),
    {
        let ghost v0 = self.videos@;
        match find_video(&self.videos, video_id) {
            Some(i) => {
                if is_like {
                    self.videos[i].metrics.likes = self.videos[i].metrics.likes.saturating_add(1);
                } else {
                    self.videos[i].metrics.dislikes = self.videos[i].metrics.dislikes.saturating_add(1);
                }
                proof {
                    lemma_lookup_kept(v0, i as int, self.videos@[i as int], video_id@);
                    assert(self.videos@ =~= v0.update(i as int, with_like(v0[i as int], is_like)));
                }
            },
            None => {},
        }
        let adj: i64 = if is_like {
            1_000_000
        } else {
            -500_000
        };
        let ghost e0 = *old(self);
        self.update_user_preferences(user_id, video_id, adj);
        proof {
            if e0.wf() {
                lemma_like_keeps_wf(e0, *self, user_id@, video_id@, is_like);
            }
        }
    }

    /// Records a share of `video_id` by `user_id`.
    pub fn process_share(&mut self, user_id: &String, video_id: &String)
        ensures
            share_effect(*old(self), *final(self), user_id@, video_id@),
            old(self).wf() ==> final(self).wf(),
    {
        let ghost v0 = self.videos@;
        match find_video(&self.videos, video_id) {
            Some(i) => {
                self.videos[i].metrics.share_count = self.videos[i].metrics.share_count.saturating_add(1);
                proof {
                    lemma_lookup_kept(v0, i as int, self.videos@[i as int], video_id@);
                    assert(self.videos@ =~= v0.update(i as int, with_share(v0[i as int])));
                }
            },
            None => {},
        }
        self.update_user_preferences(user_id, video_id, 700_000);
        proof {
            if old(self).wf() {
                lemma_share_keeps_wf(*old(self), *self, user_id@, video_id@);
            }
        }
    }

    /// Records a subscription of `user_id` to `channel_id`.
    pub fn process_subscribe(&mut self, user_id: &String, channel_id: &String)
        ensures
            subscribe_effect(*old(self), *final(self), user_id@, channel_id@),
            old(self).wf() ==> final(self).wf(),
    {
        let ghost us0 = self.users@;
        match find_user(&self.users, user_id) {
            Some(u) => {
                if !is_subscribed(&self.users[u].subscriptions, channel_id) {
                    let ghost s0 = self.users@[u as int].subscriptions@;
                    self.users[u].subscriptions.push(channel_id.clone());
                    assert(self.users@[u as int].subscriptions@.subrange(0, s0.len() as int) =~= s0);
                }
                assert(self.users@ == us0.update(u as int, self.users@[u as int]));
            },
            None => {},
        }
        proof {
            if old(self).wf() {
                lemma_subscribe_keeps_wf(*old(self), *self, user_id@, channel_id@);
            }
        }
    }

    /// Appends a watch event to the history of the user `user_id`, if known.
    fn record_session(&mut self, user_id: &String, video_id: &String, watch_ms: u64, duration: u64, now: i64)
        ensures
            final(self).videos == old(self).videos,
            final(self).comments == old(self).comments,
            final(self).user_video_matrix == old(self).user_video_matrix,
            others_unchanged(old(self).users@, final(self).users@, user_id@),
            has_user(old(self).users@, user_id@) ==> {
                let i = user_index(old(self).users@, user_id@);
                let u0 = old(self).users@[i];
                let u1 = final(self).users@[i];
                let h0 = u0.watch_history@;
                let h1 = u1.watch_history@;
                &&& u1.id == u0.id
                &&& u1.subscriptions == u0.subscriptions
                &&& u1.interaction_patterns == u0.interaction_patterns
                &&& u1.content_preferences == u0.content_preferences
                &&& h1.len() == h0.len() + 1
                &&& h1.subrange(0, h0.len() as int) == h0
                &&& h1.last().video_id@ == video_id@
                &&& h1.last().timestamp == now
                &&& h1.last().watch_duration_ms == watch_ms
                &&& h1.last().video_duration_ms == duration
                &&& h1.last().interactions@.len() == 0
            },
    {
        match find_user(&self.users, user_id) {
            Some(u) => {
                let ghost h0 = self.users@[u as int].watch_history@;
                let ghost us0 = self.users@;
                let event = WatchEvent {
                    video_id: video_id.clone(),
                    timestamp: now,
                    watch_duration_ms: watch_ms,
                    video_duration_ms: duration,
                    interactions: Vec::new(),
                };
                self.users[u].watch_history.push(event);
                assert(self.users@[u as int].watch_history@.subrange(0, h0.len() as int) =~= h0);
                assert(self.users@ == us0.update(u as int, self.users@[u as int]));
            },
            None => {},
        }
    }

    /// Folds a session of `watch_ms` ms into the metrics of video `i`.
    fn absorb_session(&mut self, i: usize, watch_ms: u64)
        requires
            i < old(self).videos@.len(),
        ensures
            final(self).users == old(self).users,
            final(self).comments == old(self).comments,
            final(self).user_video_matrix == old(self).user_video_matrix,
            final(self).videos@ == old(self).videos@.update(i as int, with_watch(old(self).videos@[i as int], watch_ms)),
    {
        let fraction = watch_fraction_of(watch_ms, self.videos[i].duration_ms);
        let m = &self.videos[i].metrics;
        let views = m.views.saturating_add(1);
        let avg_time = ema_u64(m.avg_watch_time_ms, watch_ms);
        let avg_pct = ema(m.avg_watch_percentage, fraction);
        let completion = if fraction > 900_000 {
            ema(m.completion_rate, 1_000_000)
        } else {
            m.completion_rate
        };
        let ghost v0 = self.videos@;
        self.videos[i].metrics.views = views;
        self.videos[i].metrics.avg_watch_time_ms = avg_time;
        self.videos[i].metrics.avg_watch_percentage = avg_pct;
        self.videos[i].metrics.completion_rate = completion;
        assert(self.videos@ =~= v0.update(i as int, with_watch(v0[i as int], watch_ms)));
    }

    /// Records a session of `watch_ms` ms of `video_id` by `user_id` at the
    /// instant `now`. An unknown video gives `NotFound` and one without
    /// duration `Numeric` (its watch fraction is undefined); both leave the
    /// store as it was.
    pub fn process_watch_at(&mut self, user_id: &String, video_id: &String, watch_ms: u64, now: i64) -> (r: Result<(), EngineError>)
        ensures
            !has_video(old(self).videos@, video_id@) ==> r == Err::<(), EngineError>(EngineError::NotFound) && *final(self) == *old(self),
            has_video(old(self).videos@, video_id@) && duration_of(old(self).videos@, video_id@) == 0 ==> r == Err::<(), EngineError>(
                EngineError::Numeric,
            ) && *final(self) == *old(self),
            duration_of(old(self).videos@, video_id@) > 0 ==> r is Ok && watch_effect(*old(self), *final(self), user_id@, video_id@, watch_ms, now),
            old(self).wf() ==> final(self).wf(),
    {
        let ghost e0 = *self;
        let vi = find_video(&self.videos, video_id);
        let duration: u64 = match vi {
            Some(i) => self.videos[i].duration_ms,
            None => {
                return Err(EngineError::NotFound);
            },
        };
        if duration == 0 {
            return Err(EngineError::Numeric);
        }
        self.record_session(user_id, video_id, watch_ms, duration, now);
        let ghost e1 = *self;
        match vi {
            Some(i) => {
                self.absorb_session(i, watch_ms);
                proof {
                    lemma_lookup_kept(e1.videos@, i as int, self.videos@[i as int], video_id@);
                }
            },
            None => {},
        }
        let ghost e2 = *self;
        let fraction = watch_fraction_of(watch_ms, duration);
        let adj: i64 = if fraction > 700_000 {
            500_000
        } else {
            fraction / 5
        };
        self.update_user_preferences(user_id, video_id, adj);
        proof {
            lemma_watch_steps(e0, e1, e2, *self, user_id@, video_id@, watch_ms, now, duration as int, adj as int);
            if e0.wf() {
                lemma_watch_keeps_wf(e0, *self, user_id@, video_id@, watch_ms, now);
            }
        }
        Ok(())
    }

    /// Records a session of `watch_ms` ms of `video_id` by `user_id` now, with
    /// the outcomes of `process_watch_at`.
    pub fn process_watch(&mut self, user_id: &String, video_id: &String, watch_ms: u64) -> (r: Result<(), EngineError>)
        ensures
            !has_video(old(self).videos@, video_id@) ==> r == Err::<(), EngineError>(EngineError::NotFound) && *final(self) == *old(self),
            has_video(old(self).videos@, video_id@) && duration_of(old(self).videos@, video_id@) == 0 ==> r == Err::<(), EngineError>(
                EngineError::Numeric,
            ) && *final(self) == *old(self),
            duration_of(old(self).videos@, video_id@) > 0 ==> r is Ok && exists|now: i64|
                now >= 0 && #[trigger] watch_effect(*old(self), *final(self), user_id@, video_id@, watch_ms, now),
            old(self).wf() ==> final(self).wf(),
    {
        let now = now_unix_seconds();
        self.process_watch_at(user_id, video_id, watch_ms, now)
    }

    /// Stores `comment` under its id, replacing a comment with the same id.
    fn store_comment(&mut self, comment: Comment)
        ensures
            final(self).users == old(self).users,
            final(self).videos == old(self).videos,
            final(self).user_video_matrix == old(self).user_video_matrix,
            if has_comment(old(self).comments@, comment.id@) {
                final(self).comments@ == old(self).comments@.update(comment_index(old(self).comments@, comment.id@), comment)
            } else {
                final(self).comments@ == old(self).comments@.push(comment)
            },
    {
        match comment_position(&self.comments, &comment.id) {
            Some(i) => {
                self.comments[i] = comment;
            },
            None => {
                self.comments.push(comment);
            },
        }
    }

    /// Counts one more comment on `video_id`, if known.
    fn count_comment(&mut self, video_id: &String)
        ensures
            final(self).users == old(self).users,
            final(self).comments == old(self).comments,
            final(self).user_video_matrix == old(self).user_video_matrix,
            final(self).videos@ == video_changed(old(self).videos@, video_id@, with_comment(video_of(old(self).videos@, video_id@))),
            categories_of(final(self).videos@, video_id@) == categories_of(old(self).videos@, video_id@),
    {
        let ghost v0 = self.videos@;
        match find_video(&self.videos, video_id) {
            Some(i) => {
                self.videos[i].metrics.comment_count = self.videos[i].metrics.comment_count.saturating_add(1);
                proof {
                    lemma_lookup_kept(v0, i as int, self.videos@[i as int], video_id@);
                    assert(self.videos@ =~= v0.update(i as int, with_comment(v0[i as int])));
                }
            },
            None => {},
        }
    }

    /// Stores a comment by `user_id` on `video_id` with `text`, made at `ts`,
    /// and returns its id `c-{video_id}-{ts}`.
    pub fn process_comment_at(&mut self, user_id: &String, video_id: &String, text: &String, ts: i64) -> (r: String)
        ensures
            r@ == comment_id_spec(video_id@, ts as int),
            comment_effect(*old(self), *final(self), user_id@, video_id@, text@, ts),
            old(self).wf() ==> final(self).wf(),
    {
        let ghost e0 = *self;
        let id = comment_id(video_id, ts);
        let sentiment = analyze_sentiment(text);
        let comment = Comment {
            id: id.clone(),
            video_id: video_id.clone(),
            user_id: user_id.clone(),
            text: text.clone(),
            timestamp: ts,
            sentiment_score: sentiment,
            likes: 0,
            replies: Vec::new(),
        };
        self.store_comment(comment);
        self.count_comment(video_id);
        let ghost e1 = *self;
        self.update_user_preferences(user_id, video_id, 300_000);
        proof {
            let cid = comment_id_spec(video_id@, ts as int);
            if has_comment(e0.comments@, cid) {
                lemma_comment_index(e0.comments@, cid);
                let i = comment_index(e0.comments@, cid);
                assert(self.comments@[i] == comment);
            } else {
                assert(self.comments@.subrange(0, e0.comments@.len() as int) =~= e0.comments@);
            }
            if e0.wf() {
                lemma_comment_keeps_wf(e0, *self, user_id@, video_id@, text@, ts);
            }
        }
        id
    }

    /// Stores a comment by `user_id` on `video_id` with `text`, made now, and
    /// returns its id.
    pub fn process_comment(&mut self, user_id: &String, video_id: &String, text: &String) -> (r: String)
        ensures
            exists|ts: i64| ts >= 0 && r@ == comment_id_spec(video_id@, ts as int) && #[trigger] comment_effect(*old(self), *final(self), user_id@, video_id@, text@, ts),
            old(self).wf() ==> final(self).wf(),
    {
        let ts = now_unix_seconds();
        self.process_comment_at(user_id, video_id, text, ts)
    }

    /// The user part of `update_user_preferences`.
    fn move_preferences(&mut self, user_id: &String, video_id: &String, adj: i64)
        ensures
            final(self).videos == old(self).videos,
            final(self).comments == old(self).comments,
            final(self).user_video_matrix == old(self).user_video_matrix,
            others_unchanged(old(self).users@, final(self).users@, user_id@),
            has_user(old(self).users@, user_id@) ==> {
                let i = user_index(old(self).users@, user_id@);
                &&& preferences_moved(old(self).users@[i], final(self).users@[i], categories_of(old(self).videos@, video_id@), adj as int)
                &&& final(self).users@[i].watch_history == old(self).users@[i].watch_history
            },
    {
        let ghost us0 = self.users@;
        let vi = find_video(&self.videos, video_id);
        match find_user(&self.users, user_id) {
            Some(u) => {
                match vi {
                    Some(v) => {
                        update_preferences(&mut self.users[u].content_preferences, &self.videos[v].categories, adj);
                        assert(self.users@ == us0.update(u as int, self.users@[u as int]));
                    },
                    None => {
                        assert(categories_of(self.videos@, video_id@) =~= Seq::<String>::empty());
                    },
                }
            },
            None => {},
        }
        assert(others_unchanged(us0, self.users@, user_id@));
    }

    /// Applies a preference adjustment `adj` from `user_id` on `video_id`:
    /// smooths the user's preference for each of the video's categories toward
    /// `adj`, and adds `adj` to the rating. An unknown user keeps no
    /// preferences; an unknown video has no categories; the rating is
    /// updated in either case.
    pub fn update_user_preferences(&mut self, user_id: &String, video_id: &String, adj: i64)
        ensures
            final(self).videos@ == old(self).videos@,
            final(self).comments@ == old(self).comments@,
            preferences_effect(
                old(self).users@,
                final(self).users@,
                old(self).user_video_matrix@,
                final(self).user_video_matrix@,
                categories_of(old(self).videos@, video_id@),
                user_id@,
                video_id@,
                adj as int,
            ),
    {
        self.move_preferences(user_id, video_id, adj);
        self.add_rating(user_id, video_id, adj);
    }
}

} // verus!
