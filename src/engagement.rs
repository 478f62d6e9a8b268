//! The engagement signal: how well a video's engagement profile matches the
//! user's own habits.
use vstd::prelude::*;
use crate::fixed::{UNIT, abs, ratio_spec, div_floor, ratio, abs_i128};
use crate::model::{InteractionPatterns, VideoMetrics, Video, User, find_user, has_user, user_index};
use crate::ranking::{is_top_ranking, scored_view, top_by_score, take_prefix};

verus! {

/// The highest engagement score.
pub const ENGAGEMENT_CAP: i64 = 5_000_000;

/// Engagement score of a video with metrics `m` for a user with habits `p`:
/// 2.0 x watch-percentage closeness, 1.5 x like-ratio closeness, bonuses for
/// comment, rewatch, completion and share behaviour, capped at 5.0.
/// A video without views has comment, like and share ratios of zero.
pub open spec fn engagement_score(p: InteractionPatterns, m: VideoMetrics) -> int {
    let watch = 2 * (UNIT - abs(p.avg_watch_percentage - m.avg_watch_percentage));
    let like = (3 * (UNIT - abs(p.like_to_view_ratio - ratio_spec(m.likes as int, m.views as int)))) / 2;
    let comment = if p.avg_comment_length > 20 && ratio_spec(m.comment_count as int, m.views as int) > UNIT / 10 {
        UNIT as int
    } else {
        0
    };
    let rewatch = if m.rewatch_rate > UNIT / 5 {
        (6 * m.rewatch_rate) / 5
    } else {
        0
    };
    let completion = if m.completion_rate > 7 * UNIT / 10 {
        8 * UNIT / 10
    } else {
        0
    };
    let share = if p.share_frequency > UNIT / 20 && ratio_spec(m.share_count as int, m.views as int) > UNIT / 50 {
        UNIT as int
    } else {
        0
    };
    let total = watch + like + comment + rewatch + completion + share;
    if total > ENGAGEMENT_CAP {
        ENGAGEMENT_CAP as int
    } else {
        total
    }
}

/// The engagement score never exceeds 5.0, whatever the user and the video.
pub proof fn lemma_engagement_capped(p: InteractionPatterns, m: VideoMetrics)
    ensures
        engagement_score(p, m) <= ENGAGEMENT_CAP,
{
}

/// The candidates of the engagement signal among `videos`: each video with
/// a positive score, in catalog order.
pub open spec fn engagement_candidates(p: InteractionPatterns, videos: Seq<Video>) -> Seq<(Seq<char>, int)>
    decreases videos.len(),
{
    if videos.len() == 0 {
        Seq::empty()
    } else {
        let rest = engagement_candidates(p, videos.drop_last());
        let v = videos.last();
        let s = engagement_score(p, v.metrics);
        if s > 0 {
            rest.push((v.id@, s))
        } else {
            rest
        }
    }
}

/// `engagement_score` on machine integers.
pub fn engagement_score_of(p: &InteractionPatterns, m: &VideoMetrics) -> (r: i128)
    ensures
        r == engagement_score(*p, *m),
{
    let unit = UNIT as i128;
    let watch = 2 * (unit - abs_i128(p.avg_watch_percentage as i128 - m.avg_watch_percentage as i128));
    let like_ratio = ratio(m.likes, m.views);
    let like = div_floor(3 * (unit - abs_i128(p.like_to_view_ratio as i128 - like_ratio)), 2);
    let comment_ratio = ratio(m.comment_count, m.views);
    let comment: i128 = if p.avg_comment_length > 20 && comment_ratio > unit / 10 {
        unit
    } else {
        0
    };
    let rewatch: i128 = if m.rewatch_rate > UNIT / 5 {
        div_floor(6 * m.rewatch_rate as i128, 5)
    } else {
        0
    };
    let completion: i128 = if m.completion_rate > 7 * UNIT / 10 {
        (8 * UNIT / 10) as i128
    } else {
        0
    };
    let share_ratio = ratio(m.share_count, m.views);
    let share: i128 = if p.share_frequency > UNIT / 20 && share_ratio > unit / 50 {
        unit
    } else {
        0
    };
    let total = watch + like + comment + rewatch + completion + share;
    if total > ENGAGEMENT_CAP as i128 {
        ENGAGEMENT_CAP as i128
    } else {
        total
    }
}

/// Engagement recommendations for the user `user_id`: the best `count`
/// videos with a positive engagement score; empty for an unknown user.
pub fn get_engagement_recommendations(user_id: &String, count: usize, users: &Vec<User>, videos: &Vec<Video>) -> (out: Vec<(String, i128)>)
    ensures
        !has_user(users@, user_id@) ==> out@.len() == 0,
        has_user(users@, user_id@) ==> is_top_ranking(
            engagement_candidates(users@[user_index(users@, user_id@)].interaction_patterns, videos@),
            scored_view(out@),
            count as int,
        ),
{
    match find_user(users, user_id) {
        None => Vec::new(),
        Some(ui) => {
            let p = &users[ui].interaction_patterns;
            let mut scored: Vec<(String, i128)> = Vec::new();
            let mut i: usize = 0;
            while i < videos.len()
                invariant
                    i <= videos.len(),
                    scored_view(scored@) == engagement_candidates(*p, videos@.subrange(0, i as int)),
                decreases videos.len() - i,
            {
                let s = engagement_score_of(p, &videos[i].metrics);
                proof {
                    assert(videos@.subrange(0, i + 1).drop_last() == videos@.subrange(0, i as int));
                }
                if s > 0 {
                    scored.push((videos[i].id.clone(), s));
                }
                i += 1;
            }
            assert(videos@.subrange(0, videos.len() as int) == videos@);
            top_by_score(&scored, count)
        },
    }
}

/// The fixed list of engagement showcase videos, best first.
pub open spec fn engagement_showcase() -> Seq<(Seq<char>, int)> {
    seq![
        ("high-completion-tutorial"@, 960000int),
        ("popular-discussion-video"@, 920000int),
        ("highly-commented-debate"@, 890000int),
        ("long-form-interview-1"@, 860000int),
        ("high-retention-documentary"@, 840000int),
        ("high-share-viral-content"@, 810000int),
        ("community-discussion-thread"@, 790000int),
        ("long-form-interview-2"@, 760000int),
        ("interactive-livestream-1"@, 730000int),
        ("high-rewatch-tutorial"@, 710000int),
        ("interactive-livestream-2"@, 680000int),
        ("community-discussion-followup"@, 660000int),
    ]
}

/// The first `count` entries of the fixed list of engagement showcase videos, whoever asks.
pub fn get_dummy_engagement_recommendations(_user_id: &String, count: usize) -> (out: Vec<(String, i128)>)
    ensures
        scored_view(out@) == engagement_showcase().take(if count < 12 { count as int } else { 12 }),
{
    let list: Vec<(String, i128)> = vec![
        (String::from_str("high-completion-tutorial"), 960000),
        (String::from_str("popular-discussion-video"), 920000),
        (String::from_str("highly-commented-debate"), 890000),
        (String::from_str("long-form-interview-1"), 860000),
        (String::from_str("high-retention-documentary"), 840000),
        (String::from_str("high-share-viral-content"), 810000),
        (String::from_str("community-discussion-thread"), 790000),
        (String::from_str("long-form-interview-2"), 760000),
        (String::from_str("interactive-livestream-1"), 730000),
        (String::from_str("high-rewatch-tutorial"), 710000),
        (String::from_str("interactive-livestream-2"), 680000),
        (String::from_str("community-discussion-followup"), 660000),
    ];
    assert(scored_view(list@) =~= engagement_showcase());
    take_prefix(&list, count)
}

} // verus!
