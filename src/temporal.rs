//! The temporal signal: fresh uploads of subscribed channels, the user's
//! hour-of-day affinity, and trending videos.
use vstd::prelude::*;
use crate::fixed::{UNIT, abs};
use crate::clock::{SECS_PER_DAY, now_unix_seconds, hour_of, hour_of_day};
use crate::model::{User, Video, VideoMetrics, find_user, has_user, user_index};
use crate::ranking::{is_top_ranking, scored_view, top_by_score, take_prefix};

verus! {

/// Bonus for a subscribed channel's video by the time between its upload and
/// now, in seconds: 5.0 under a day, then 3.0, 2.0, 1.0 and 0.5 under 3, 7,
/// 14 and 30 days, else nothing.
pub open spec fn recency_bonus(age_secs: int) -> int {
    if age_secs < SECS_PER_DAY {
        5 * UNIT
    } else if age_secs < 3 * SECS_PER_DAY {
        3 * UNIT
    } else if age_secs < 7 * SECS_PER_DAY {
        2 * UNIT
    } else if age_secs < 14 * SECS_PER_DAY {
        UNIT as int
    } else if age_secs < 30 * SECS_PER_DAY {
        UNIT / 2
    } else {
        0
    }
}

/// The affinity recorded for `hour` (the first entry for it), or zero.
pub open spec fn hour_affinity(prefs: Seq<(u8, i64)>, hour: int) -> int
    decreases prefs.len(),
{
    if prefs.len() == 0 {
        0
    } else if prefs[0].0 == hour {
        prefs[0].1 as int
    } else {
        hour_affinity(prefs.skip(1), hour)
    }
}

/// Whether `channels` holds `channel`.
pub open spec fn subscribed(channels: Seq<String>, channel: Seq<char>) -> bool {
    exists|i: int| 0 <= i < channels.len() && #[trigger] channels[i]@ == channel
}

/// A video is trending with more than 1000 views and a like ratio above 0.8.
pub open spec fn is_trending(m: VideoMetrics) -> bool {
    m.views > 1000 && 5 * m.likes > 4 * m.views
}

/// Temporal score of video `v` for user `u` at instant `now`.
pub open spec fn temporal_score(u: User, v: Video, now: int) -> int {
    (if subscribed(u.subscriptions@, v.channel_id@) {
        recency_bonus(abs(now - v.upload_date))
    } else {
        0
    }) + hour_affinity(u.interaction_patterns.time_of_day_preferences@, hour_of(now)) + (if is_trending(v.metrics) {
        3 * UNIT / 2
    } else {
        0
    })
}

/// The candidates of the temporal signal: each video with a positive score,
/// in catalog order.
pub open spec fn temporal_candidates(u: User, videos: Seq<Video>, now: int) -> Seq<(Seq<char>, int)>
    decreases videos.len(),
{
    if videos.len() == 0 {
        Seq::empty()
    } else {
        let rest = temporal_candidates(u, videos.drop_last(), now);
        let v = videos.last();
        let s = temporal_score(u, v, now);
        if s > 0 {
            rest.push((v.id@, s))
        } else {
            rest
        }
    }
}

/// `hour_affinity` on machine values.
pub fn affinity_at(prefs: &Vec<(u8, i64)>, hour: u8) -> (r: i64)
    ensures
        r == hour_affinity(prefs@, hour as int),
{
    let mut i: usize = 0;
    assert(prefs@.skip(0) == prefs@);
    while i < prefs.len()
        invariant
            i <= prefs.len(),
            hour_affinity(prefs@, hour as int) == hour_affinity(prefs@.skip(i as int), hour as int),
        decreases prefs.len() - i,
    {
        let ghost rest = prefs@.skip(i as int);
        assert(rest[0] == prefs@[i as int]);
        if prefs[i].0 == hour {
            return prefs[i].1;
        }
        assert(rest.skip(1) == prefs@.skip(i + 1));
        i += 1;
    }
    0
}

/// `subscribed` on machine values.
pub fn is_subscribed(channels: &Vec<String>, channel: &String) -> (r: bool)
    ensures
        r == subscribed(channels@, channel@),
{
    let mut i: usize = 0;
    while i < channels.len()
        invariant
            i <= channels.len(),
            forall|j: int| 0 <= j < i ==> #[trigger] channels@[j]@ != channel@,
        decreases channels.len() - i,
    {
        if channels[i] == *channel {
            return true;
        }
        i += 1;
    }
    false
}

/// `temporal_score` on machine integers, with `hour` the hour of `now`.
pub fn temporal_score_of(u: &User, v: &Video, now: i64, hour: u8) -> (r: i128)
    requires
        hour == hour_of(now as int),
    ensures
        r == temporal_score(*u, *v, now as int),
{
    let mut score: i128 = 0;
    if is_subscribed(&u.subscriptions, &v.channel_id) {
        let d: i128 = now as i128 - v.upload_date as i128;
        let age: i128 = if d < 0 {
            -d
        } else {
            d
        };
        let day = SECS_PER_DAY as i128;
        score = if age < day {
            5 * UNIT as i128
        } else if age < 3 * day {
            3 * UNIT as i128
        } else if age < 7 * day {
            2 * UNIT as i128
        } else if age < 14 * day {
            UNIT as i128
        } else if age < 30 * day {
            (UNIT / 2) as i128
        } else {
            0
        };
    }
    score = score + affinity_at(&u.interaction_patterns.time_of_day_preferences, hour) as i128;
    let m = &v.metrics;
    if m.views > 1000 && 5 * (m.likes as u128) > 4 * (m.views as u128) {
        score = score + (3 * UNIT / 2) as i128;
    }
    score
}

/// Temporal recommendations at the instant `now`: the best `count` videos
/// with a positive temporal score; empty for an unknown user.
pub fn temporal_recommendations_at(user_id: &String, count: usize, users: &Vec<User>, videos: &Vec<Video>, now: i64) -> (out: Vec<(String, i128)>)
    ensures
        !has_user(users@, user_id@) ==> out@.len() == 0,
        has_user(users@, user_id@) ==> is_top_ranking(
            temporal_candidates(users@[user_index(users@, user_id@)], videos@, now as int),
            scored_view(out@),
            count as int,
        ),
{
    match find_user(users, user_id) {
        None => Vec::new(),
        Some(ui) => {
            let u = &users[ui];
            let hour = hour_of_day(now);
            let mut scored: Vec<(String, i128)> = Vec::new();
            let mut i: usize = 0;
            while i < videos.len()
                invariant
                    i <= videos.len(),
                    hour == hour_of(now as int),
                    scored_view(scored@) == temporal_candidates(*u, videos@.subrange(0, i as int), now as int),
                decreases videos.len() - i,
            {
                let s = temporal_score_of(u, &videos[i], now, hour);
                proof {
                    assert(videos@.subrange(0, i + 1).drop_last() == videos@.subrange(0, i as int));
                }
                if s > 0 {
                    scored.push((videos[i].id.clone(), s));
                }
                i += 1;
            }
            assert(videos@.subrange(0, videos.len() as int) == videos@);
            top_by_score(&scored, count)
        },
    }
}

/// Temporal recommendations now: as `temporal_recommendations_at`, at the
/// instant the clock gave.
pub fn get_temporal_recommendations(user_id: &String, count: usize, users: &Vec<User>, videos: &Vec<Video>) -> (out: Vec<(String, i128)>)
    ensures
        !has_user(users@, user_id@) ==> out@.len() == 0,
        has_user(users@, user_id@) ==> exists|now: i64|
            now >= 0 && is_top_ranking(
                #[trigger] temporal_candidates(users@[user_index(users@, user_id@)], videos@, now as int),
                scored_view(out@),
                count as int,
            ),
{
    let now = now_unix_seconds();
    let out = temporal_recommendations_at(user_id, count, users, videos, now);
    proof {
        if has_user(users@, user_id@) {
            assert(is_top_ranking(
                temporal_candidates(users@[user_index(users@, user_id@)], videos@, now as int),
                scored_view(out@),
                count as int,
            ));
        }
    }
    out
}

/// The fixed list of timely showcase videos, best first.
pub open spec fn temporal_showcase() -> Seq<(Seq<char>, int)> {
    seq![
        ("recent-music-video-1"@, 950000int),
        ("trending-gaming-stream-1"@, 920000int),
        ("morning-news-summary"@, 890000int),
        ("latest-subscription-upload-1"@, 870000int),
        ("fresh-tech-review-1"@, 850000int),
        ("latest-subscription-upload-2"@, 820000int),
        ("trending-sports-highlight"@, 780000int),
        ("fresh-tech-review-2"@, 760000int),
        ("recent-music-video-2"@, 740000int),
        ("latest-subscription-upload-3"@, 710000int),
        ("trending-gaming-stream-2"@, 680000int),
        ("fresh-tech-review-3"@, 650000int),
    ]
}

/// The first `count` entries of the fixed list of timely showcase videos, whoever asks.
pub fn get_dummy_temporal_recommendations(_user_id: &String, count: usize) -> (out: Vec<(String, i128)>)
    ensures
        scored_view(out@) == temporal_showcase().take(if count < 12 { count as int } else { 12 }),
{
    let list: Vec<(String, i128)> = vec![
        (String::from_str("recent-music-video-1"), 950000),
        (String::from_str("trending-gaming-stream-1"), 920000),
        (String::from_str("morning-news-summary"), 890000),
        (String::from_str("latest-subscription-upload-1"), 870000),
        (String::from_str("fresh-tech-review-1"), 850000),
        (String::from_str("latest-subscription-upload-2"), 820000),
        (String::from_str("trending-sports-highlight"), 780000),
        (String::from_str("fresh-tech-review-2"), 760000),
        (String::from_str("recent-music-video-2"), 740000),
        (String::from_str("latest-subscription-upload-3"), 710000),
        (String::from_str("trending-gaming-stream-2"), 680000),
        (String::from_str("fresh-tech-review-3"), 650000),
    ];
    assert(scored_view(list@) =~= temporal_showcase());
    take_prefix(&list, count)
}

} // verus!
