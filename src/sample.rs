//! A small sample catalog for demonstrations.
use vstd::prelude::*;
use crate::model::{User, Video, VideoMetrics, InteractionPatterns};
use crate::engine::{RecommendationEngine, unique_users, unique_videos};
use crate::model::{has_user, has_video};
use crate::clock::now_unix_seconds;
use crate::stats::user_ids;
use crate::model::video_ids;

verus! {

fn sample_user(id: &str, channels: Vec<String>, prefs: Vec<(String, i64)>, patterns: InteractionPatterns) -> (u: User)
    ensures
        u.id@ == id@,
{
    User {
        id: String::from_str(id),
        subscriptions: channels,
        watch_history: Vec::new(),
        content_preferences: prefs,
        interaction_patterns: patterns,
    }
}

fn sample_video(
    id: &str,
    title: &str,
    channel: &str,
    duration_ms: u64,
    categories: Vec<String>,
    tags: Vec<String>,
    upload_date: i64,
    metrics: VideoMetrics,
    embedding: Vec<i16>,
) -> (v: Video)
    ensures
        v.id@ == id@,
        v.channel_id@ == channel@,
        v.metrics == metrics,
{
    Video {
        id: String::from_str(id),
        title: String::from_str(title),
        channel_id: String::from_str(channel),
        duration_ms,
        categories,
        tags,
        upload_date,
        metrics,
        embedding,
    }
}

impl RecommendationEngine {
    /// Appends two sample users and three sample videos uploaded now.
    pub fn add_dummy_data(&mut self)
        ensures
            user_ids(final(self).users@) == user_ids(old(self).users@) + seq!["user1"@, "user2"@],
            video_ids(final(self).videos@) == video_ids(old(self).videos@) + seq!["video1"@, "video2"@, "video3"@],
            final(self).videos@[old(self).videos@.len() as int].metrics.views == 1500,
            final(self).videos@[old(self).videos@.len() + 1int].metrics.views == 5000,
            final(self).videos@[old(self).videos@.len() + 2int].metrics.views == 8000,
            final(self).videos@[old(self).videos@.len() as int].channel_id@ == "channel1"@,
            final(self).videos@[old(self).videos@.len() + 1int].channel_id@ == "channel2"@,
            final(self).videos@[old(self).videos@.len() + 2int].channel_id@ == "channel3"@,
            final(self).comments == old(self).comments,
            final(self).user_video_matrix == old(self).user_video_matrix,
            old(self).wf() && !has_user(old(self).users@, "user1"@) && !has_user(old(self).users@, "user2"@) && !has_video(
                old(self).videos@,
                "video1"@,
            ) && !has_video(old(self).videos@, "video2"@) && !has_video(old(self).videos@, "video3"@) ==> final(self).wf(),
    {
        let user1 = sample_user(
            "user1",
            vec![String::from_str("channel1"), String::from_str("channel2")],
            vec![(String::from_str("tech"), 800_000), (String::from_str("gaming"), 600_000)],
            InteractionPatterns {
                avg_watch_percentage: 700_000,
                avg_comment_length: 15,
                time_of_day_preferences: vec![(20, 900_000), (21, 800_000)],
                like_to_view_ratio: 300_000,
                share_frequency: 50_000,
            },
        );
        let user2 = sample_user(
            "user2",
            vec![String::from_str("channel2"), String::from_str("channel3")],
            vec![(String::from_str("music"), 900_000), (String::from_str("comedy"), 700_000)],
            InteractionPatterns {
                avg_watch_percentage: 500_000,
                avg_comment_length: 5,
                time_of_day_preferences: vec![(12, 600_000), (18, 800_000)],
                like_to_view_ratio: 200_000,
                share_frequency: 20_000,
            },
        );
        let ghost u0 = self.users@;
        self.users.push(user1);
        self.users.push(user2);
        assert(user_ids(self.users@) =~= user_ids(u0) + seq!["user1"@, "user2"@]);
        proof {
            reveal_strlit("user1");
            reveal_strlit("user2");
            let us = self.users@;
            let n = u0.len() as int;
            assert(us[n].id@ == "user1"@ && us[n + 1].id@ == "user2"@);
            assert("user1"@ != "user2"@) by {
                assert("user1"@[4] != "user2"@[4]);
            }
            if unique_users(u0) && !has_user(u0, "user1"@) && !has_user(u0, "user2"@) {
                assert forall|i: int, j: int| 0 <= i < j < us.len() implies #[trigger] us[i].id@ != #[trigger] us[j].id@ by {
                    if j < n {
                        assert(us[i] == u0[i] && us[j] == u0[j]);
                    } else if i < n {
                        assert(us[i] == u0[i]);
                    }
                }
            }
        }
        let now = now_unix_seconds();
        let video1 = sample_video(
            "video1",
            "Latest Tech Review",
            "channel1",
            600_000,
            vec![String::from_str("tech"), String::from_str("reviews")],
            vec![String::from_str("technology"), String::from_str("gadgets"), String::from_str("review")],
            now,
            VideoMetrics {
                views: 1500,
                likes: 250,
                dislikes: 15,
                share_count: 30,
                comment_count: 45,
                avg_watch_time_ms: 450_000,
                avg_watch_percentage: 750_000,
                completion_rate: 650_000,
                retention_curve: vec![(0, 1_000_000), (500_000, 800_000), (1_000_000, 600_000)],
                rewatch_rate: 100_000,
            },
            vec![1000, 2000, 3000, 4000, 5000],
        );
        let video2 = sample_video(
            "video2",
            "Gaming Livestream Highlights",
            "channel2",
            1_200_000,
            vec![String::from_str("gaming"), String::from_str("entertainment")],
            vec![String::from_str("gaming"), String::from_str("livestream"), String::from_str("highlights")],
            now,
            VideoMetrics {
                views: 5000,
                likes: 800,
                dislikes: 50,
                share_count: 120,
                comment_count: 200,
                avg_watch_time_ms: 840_000,
                avg_watch_percentage: 700_000,
                completion_rate: 550_000,
                retention_curve: vec![(0, 1_000_000), (500_000, 750_000), (1_000_000, 500_000)],
                rewatch_rate: 150_000,
            },
            vec![5000, 4000, 3000, 2000, 1000],
        );
        let video3 = sample_video(
            "video3",
            "Music Cover Performance",
            "channel3",
            300_000,
            vec![String::from_str("music"), String::from_str("performance")],
            vec![String::from_str("music"), String::from_str("cover"), String::from_str("live")],
            now,
            VideoMetrics {
                views: 8000,
                likes: 1500,
                dislikes: 30,
                share_count: 300,
                comment_count: 180,
                avg_watch_time_ms: 270_000,
                avg_watch_percentage: 900_000,
                completion_rate: 850_000,
                retention_curve: vec![(0, 1_000_000), (500_000, 950_000), (1_000_000, 850_000)],
                rewatch_rate: 400_000,
            },
            vec![2000, 3000, 5000, 3000, 2000],
        );
        let ghost v0 = self.videos@;
        self.videos.push(video1);
        self.videos.push(video2);
        self.videos.push(video3);
        assert(video_ids(self.videos@) =~= video_ids(v0) + seq!["video1"@, "video2"@, "video3"@]);
        proof {
            reveal_strlit("video1");
            reveal_strlit("video2");
            reveal_strlit("video3");
            let vs = self.videos@;
            let n = v0.len() as int;
            assert(vs[n].id@ == "video1"@ && vs[n + 1].id@ == "video2"@ && vs[n + 2].id@ == "video3"@);
            assert("video1"@[5] != "video2"@[5] && "video1"@[5] != "video3"@[5] && "video2"@[5] != "video3"@[5]);
            if unique_videos(v0) && !has_video(v0, "video1"@) && !has_video(v0, "video2"@) && !has_video(v0, "video3"@) {
                assert forall|i: int, j: int| 0 <= i < j < vs.len() implies #[trigger] vs[i].id@ != #[trigger] vs[j].id@ by {
                    if j < n {
                        assert(vs[i] == v0[i] && vs[j] == v0[j]);
                    } else if i < n {
                        assert(vs[i] == v0[i]);
                    }
                }
            }
        }
    }
}

} // verus!
