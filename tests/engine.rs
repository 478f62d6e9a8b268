use video_recommender::ids::decimal_string;
use video_recommender::analytics::AnalyticsEngine;
use video_recommender::engine::RecommendationEngine;
use video_recommender::model::{EngineError, InteractionPatterns, Interaction, User, Video, VideoMetrics, WatchEvent};
use video_recommender::sentiment::{analyze_sentiment, sentiment_of_lowercase};
use video_recommender::similarity::{cosine_similarity, tag_similarity};

fn s(x: &str) -> String {
    x.to_string()
}

fn metrics() -> VideoMetrics {
    VideoMetrics {
        views: 0,
        likes: 0,
        dislikes: 0,
        share_count: 0,
        comment_count: 0,
        avg_watch_time_ms: 0,
        avg_watch_percentage: 0,
        completion_rate: 0,
        retention_curve: Vec::new(),
        rewatch_rate: 0,
    }
}

fn video(id: &str, categories: &[&str]) -> Video {
    Video {
        id: s(id),
        title: s(id),
        channel_id: s("chan"),
        duration_ms: 600_000,
        categories: categories.iter().map(|c| s(c)).collect(),
        tags: Vec::new(),
        upload_date: 0,
        metrics: metrics(),
        embedding: Vec::new(),
    }
}

fn user(id: &str) -> User {
    User {
        id: s(id),
        subscriptions: Vec::new(),
        watch_history: Vec::new(),
        content_preferences: Vec::new(),
        interaction_patterns: InteractionPatterns {
            avg_watch_percentage: 0,
            avg_comment_length: 0,
            time_of_day_preferences: Vec::new(),
            like_to_view_ratio: 0,
            share_frequency: 0,
        },
    }
}

fn engine() -> RecommendationEngine {
    let mut e = RecommendationEngine::new();
    e.users.push(user("u1"));
    e.videos.push(video("v1", &["tech", "music"]));
    e
}

fn rating(e: &RecommendationEngine, u: &str, v: &str) -> Option<i64> {
    e.user_video_matrix.iter().find(|r| r.user_id == u && r.video_id == v).map(|r| r.value)
}

#[test]
fn watch_updates_metrics_and_preferences() {
    let mut e = engine();
    assert_eq!(e.process_watch_at(&s("u1"), &s("v1"), 450_000, 77), Ok(()));
    let m = &e.videos[0].metrics;
    assert_eq!(m.views, 1);
    assert_eq!(m.avg_watch_percentage, 75_000);
    assert_eq!(m.avg_watch_time_ms, 45_000);
    assert_eq!(m.completion_rate, 0);
    assert_eq!(e.users[0].watch_history.len(), 1);
    assert_eq!(e.users[0].watch_history[0].timestamp, 77);
    assert_eq!(e.users[0].watch_history[0].video_duration_ms, 600_000);
    // 0.75 > 0.7: adjustment 0.5, smoothed by 0.05
    assert_eq!(e.users[0].content_preferences, vec![(s("tech"), 25_000), (s("music"), 25_000)]);
    assert_eq!(rating(&e, "u1", "v1"), Some(500_000));
}

#[test]
fn full_watch_counts_completion() {
    let mut e = engine();
    assert_eq!(e.process_watch(&s("u1"), &s("v1"), 600_000), Ok(()));
    assert_eq!(e.videos[0].metrics.completion_rate, 100_000);
    assert!(e.users[0].watch_history[0].timestamp > 0);
}

#[test]
fn repeated_likes_count_twice() {
    let mut e = engine();
    e.process_like(&s("u1"), &s("v1"), true);
    e.process_like(&s("u1"), &s("v1"), true);
    assert_eq!(e.videos[0].metrics.likes, 2);
    assert_eq!(rating(&e, "u1", "v1"), Some(2_000_000));
    e.process_like(&s("u1"), &s("v1"), false);
    assert_eq!(e.videos[0].metrics.dislikes, 1);
    assert_eq!(rating(&e, "u1", "v1"), Some(1_500_000));
}

#[test]
fn like_of_unknown_video_still_rates() {
    let mut e = engine();
    e.process_like(&s("u1"), &s("nowhere"), true);
    assert_eq!(e.videos[0].metrics.likes, 0);
    assert!(e.users[0].content_preferences.is_empty());
    assert_eq!(rating(&e, "u1", "nowhere"), Some(1_000_000));
}

#[test]
fn comment_scenario() {
    let mut e = engine();
    let id = e.process_comment(&s("u1"), &s("v1"), &s("this is great and awesome"));
    assert!(id.starts_with("c-v1-"));
    assert!(id["c-v1-".len()..].chars().all(|c| c.is_ascii_digit()));
    assert_eq!(e.videos[0].metrics.comment_count, 1);
    assert_eq!(e.comments.len(), 1);
    assert_eq!(e.comments[0].sentiment_score, 1_000_000);
    assert_eq!(e.comments[0].id, id);
}

#[test]
fn comment_id_holds_the_timestamp() {
    let mut e = engine();
    let id = e.process_comment_at(&s("u1"), &s("v1"), &s("meh"), 12_345);
    assert_eq!(id, "c-v1-12345");
    let again = e.process_comment_at(&s("u1"), &s("v1"), &s("BAD"), 12_345);
    assert_eq!(again, id);
    assert_eq!(e.comments.len(), 1);
    assert_eq!(e.comments[0].sentiment_score, -1_000_000);
    assert_eq!(e.videos[0].metrics.comment_count, 2);
    assert_eq!(rating(&e, "u1", "v1"), Some(600_000));
}

#[test]
fn sentiment_counts_keywords() {
    assert_eq!(analyze_sentiment(&s("this is great and awesome")), 1_000_000);
    assert_eq!(analyze_sentiment(&s("GREAT")), 1_000_000);
    assert_eq!(analyze_sentiment(&s("nothing to see")), 0);
    assert_eq!(analyze_sentiment(&s("I dislike it")), 0);
    assert_eq!(sentiment_of_lowercase(&s("good good bad terrible boring")), -500_000);
    assert_eq!(sentiment_of_lowercase(&s("good bad terrible")), -333_334);
    assert_eq!(sentiment_of_lowercase(&s("GREAT")), 0);
}

#[test]
fn share_and_subscribe() {
    let mut e = engine();
    e.process_share(&s("u1"), &s("v1"));
    assert_eq!(e.videos[0].metrics.share_count, 1);
    assert_eq!(rating(&e, "u1", "v1"), Some(700_000));
    e.process_subscribe(&s("u1"), &s("chan"));
    e.process_subscribe(&s("u1"), &s("chan"));
    assert_eq!(e.users[0].subscriptions, vec![s("chan")]);
    e.process_subscribe(&s("ghost"), &s("chan"));
    assert_eq!(e.users.len(), 1);
}

#[test]
fn recommendations_from_sample_data() {
    let mut e = RecommendationEngine::new();
    e.add_dummy_data();
    assert_eq!(e.users.len(), 2);
    assert_eq!(e.videos.len(), 3);
    let recs = e.recommend_videos(&s("user1"), 2).unwrap();
    assert!(recs.len() <= 2);
    for v in &recs {
        assert!(e.videos.iter().any(|w| w.id == v.id));
    }
    let none = e.recommend_videos(&s("user1"), 0).unwrap();
    assert!(none.is_empty());
}

#[test]
fn stats_and_chart() {
    let mut e = RecommendationEngine::new();
    e.add_dummy_data();
    let st = e.get_stats();
    assert_eq!(st.user_count, 2);
    assert_eq!(st.video_count, 3);
    assert_eq!(st.total_views, 14_500);
    assert_eq!(st.total_likes, 2_550);
    assert_eq!(st.total_comments, 425);
    assert_eq!(st.users, vec![s("user1"), s("user2")]);
    let ch = e.get_chart_data();
    assert_eq!(ch.likes, 2_550);
    assert_eq!(ch.dislikes, 95);
    assert_eq!(ch.shares, 450);
    assert_eq!(ch.top_categories.len(), 5);
    assert!(ch.top_categories.iter().all(|(_, n)| *n == 1));
}

#[test]
fn jaccard_of_tags() {
    let a = vec![s("x"), s("y"), s("y")];
    let b = vec![s("y"), s("z")];
    assert_eq!(tag_similarity(&a, &b), 333_333);
    assert_eq!(tag_similarity(&a, &a), 1_000_000);
    assert_eq!(tag_similarity(&a, &Vec::new()), 0);
}

#[test]
fn cosine_of_embeddings() {
    assert_eq!(cosine_similarity(&vec![3, 4], &vec![3, 4]), 1_000_000);
    assert_eq!(cosine_similarity(&vec![3, 4], &vec![-3, -4]), -1_000_000);
    assert_eq!(cosine_similarity(&vec![1, 0], &vec![0, 1]), 0);
    assert_eq!(cosine_similarity(&vec![1, 2], &vec![1, 2, 3]), 0);
    assert_eq!(cosine_similarity(&vec![0, 0], &vec![1, 2]), 0);
    assert_eq!(cosine_similarity(&Vec::new(), &Vec::new()), 0);
}

#[test]
fn analytics_on_sample_data() {
    let mut e = RecommendationEngine::new();
    e.add_dummy_data();
    let mut a = AnalyticsEngine::new();
    let mut busy = user("busy");
    for _ in 0..30 {
        busy.watch_history.push(WatchEvent {
            video_id: s("video1"),
            timestamp: 0,
            watch_duration_ms: 0,
            video_duration_ms: 0,
            interactions: vec![Interaction::Comment(s("hi"))],
        });
    }
    busy.content_preferences = vec![(s("tech"), 1)];
    let mut users = e.users.clone();
    users.push(busy);
    a.run_user_segmentation(&users);
    assert_eq!(a.user_segments.casual_viewers, vec![s("user1"), s("user2")]);
    assert_eq!(a.user_segments.niche_enthusiasts, vec![s("busy")]);
    assert!(a.user_segments.engaged_viewers.is_empty());

    let matrix = a.calculate_video_similarity_matrix(&e.videos);
    assert_eq!(matrix.len(), 3);
    assert_eq!(matrix[0].0, "video1");
    assert_eq!(matrix[0].1.len(), 2);
    assert!(matrix[0].1.iter().all(|(id, _)| id != "video1"));

    let insights = a.generate_content_insights(&e.videos);
    assert_eq!(insights.len(), 6);
    assert!(insights.contains(&(s("tech"), 750_000)));
    assert!(insights.contains(&(s("music"), 900_000)));
}

fn comment(text: &str) -> video_recommender::model::Comment {
    video_recommender::model::Comment {
        id: s("c"),
        video_id: s("v"),
        user_id: s("u"),
        text: s(text),
        timestamp: 0,
        sentiment_score: 0,
        likes: 0,
        replies: Vec::new(),
    }
}

#[test]
fn trending_topics_count_words() {
    let a = AnalyticsEngine::new();
    let comments = vec![comment("Rust is GREAT and rust\tis fast"), comment("the  rust  book"), comment("I like Book")];
    let topics = a.extract_trending_topics(&comments);
    assert_eq!(topics.len(), 5);
    assert_eq!(topics[0], "rust");
    assert_eq!(topics[1], "book");
    assert!(topics.contains(&s("great")));
    assert!(!topics.contains(&s("i")));
    assert!(!topics.contains(&s("is")));
    assert!(!topics.contains(&s("the")));
    assert!(a.extract_trending_topics(&Vec::new()).is_empty());
}

#[test]
fn watch_of_unknown_or_empty_video_fails() {
    let mut e = engine();
    assert_eq!(e.process_watch_at(&s("u1"), &s("nowhere"), 1_000, 5), Err(EngineError::NotFound));
    assert!(e.users[0].watch_history.is_empty());
    assert!(e.user_video_matrix.is_empty());
    e.videos[0].duration_ms = 0;
    assert_eq!(e.process_watch_at(&s("u1"), &s("v1"), 1_000, 5), Err(EngineError::Numeric));
    assert_eq!(e.videos[0].metrics.views, 0);
    assert!(e.users[0].watch_history.is_empty());
}

#[test]
fn decimal_text_of_integers() {
    assert_eq!(decimal_string(0), "0");
    assert_eq!(decimal_string(1_700_000_123), "1700000123");
    assert_eq!(decimal_string(-45), "-45");
    assert_eq!(decimal_string(i64::MIN), i64::MIN.to_string());
}
