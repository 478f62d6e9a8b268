use video_recommender::collaborative_filtering::{collaborative_filtering_recommendations, collaborative_filtering_with};
use video_recommender::content_based::{calculate_content_similarity, content_based_recommendations, content_based_recommendations_with};
use video_recommender::engagement::{engagement_score_of, get_dummy_engagement_recommendations, get_engagement_recommendations};
use video_recommender::fixed::{ema, UNIT};
use video_recommender::fusion::{fuse_rankings, SignalLists, CB_WEIGHT, CF_WEIGHT, ENGAGEMENT_WEIGHT, POPULARITY_WEIGHT, TEMPORAL_WEIGHT, WEIGHT_SCALE};
use video_recommender::model::{InteractionPatterns, Rating, User, Video, VideoMetrics};
use video_recommender::popularity_based::{log10_fixed_of, popularity_based_recommendations, popularity_recommendations_at, video_popularity_of};
use video_recommender::ranking::top_by_score;
use video_recommender::temporal::{get_dummy_temporal_recommendations, get_temporal_recommendations, temporal_recommendations_at};

fn s(x: &str) -> String {
    x.to_string()
}

fn metrics(views: u64, likes: u64) -> VideoMetrics {
    VideoMetrics {
        views,
        likes,
        dislikes: 0,
        share_count: 0,
        comment_count: 0,
        avg_watch_time_ms: 0,
        avg_watch_percentage: 0,
        completion_rate: 0,
        retention_curve: Vec::new(),
        rewatch_rate: 0,
    }
}

fn video(id: &str, channel: &str, categories: &[&str], upload: i64, m: VideoMetrics) -> Video {
    Video {
        id: s(id),
        title: s(id),
        channel_id: s(channel),
        duration_ms: 600_000,
        categories: categories.iter().map(|c| s(c)).collect(),
        tags: Vec::new(),
        upload_date: upload,
        metrics: m,
        embedding: Vec::new(),
    }
}

fn patterns() -> InteractionPatterns {
    InteractionPatterns {
        avg_watch_percentage: 700_000,
        avg_comment_length: 30,
        time_of_day_preferences: Vec::new(),
        like_to_view_ratio: 300_000,
        share_frequency: 100_000,
    }
}

fn user(id: &str, subscriptions: &[&str], prefs: &[(&str, i64)]) -> User {
    User {
        id: s(id),
        subscriptions: subscriptions.iter().map(|c| s(c)).collect(),
        watch_history: Vec::new(),
        content_preferences: prefs.iter().map(|(c, w)| (s(c), *w)).collect(),
        interaction_patterns: patterns(),
    }
}

#[test]
fn fusion_weights_sum_to_one() {
    assert_eq!(CF_WEIGHT + CB_WEIGHT + POPULARITY_WEIGHT + TEMPORAL_WEIGHT + ENGAGEMENT_WEIGHT, WEIGHT_SCALE);
}

#[test]
fn ema_of_watch_fraction() {
    assert_eq!(ema(0, 750_000), 75_000);
    assert_eq!(ema(1_000, 1_000), 1_000);
    let r = ema(0, 100);
    assert!(0 < r && r < 100);
    let r = ema(100, -100);
    assert!(-100 < r && r < 100);
}

#[test]
fn engagement_score_is_capped() {
    let mut m = metrics(100, 100);
    m.avg_watch_percentage = 700_000;
    m.comment_count = 100;
    m.share_count = 100;
    m.rewatch_rate = 900_000;
    m.completion_rate = 900_000;
    let mut p = patterns();
    p.like_to_view_ratio = 1_000_000;
    let score = engagement_score_of(&p, &m);
    assert_eq!(score, 5 * UNIT as i128);
}

#[test]
fn engagement_with_zero_views_is_finite() {
    let m = metrics(0, 0);
    let p = patterns();
    // watch closeness 2 x (1 - 0.7), like closeness 1.5 x (1 - 0.3)
    let score = engagement_score_of(&p, &m);
    assert_eq!(score, 600_000 + 1_050_000);
}

#[test]
fn log10_is_exact_on_powers_of_ten() {
    assert_eq!(log10_fixed_of(0), 0);
    assert_eq!(log10_fixed_of(1), 0);
    assert_eq!(log10_fixed_of(10), UNIT as i128);
    assert_eq!(log10_fixed_of(1000), 3 * UNIT as i128);
    assert_eq!(log10_fixed_of(55), 1_737_614);
    assert_eq!(log10_fixed_of(5000), 3_698_848);
    assert_eq!(log10_fixed_of(u64::MAX), 19_263_304);
}

#[test]
fn popularity_grows_with_views() {
    let now: i64 = 100 * 86_400;
    let small = video("a", "c", &[], 0, metrics(100, 10));
    let large = video("b", "c", &[], 0, metrics(10_000, 1_000));
    let ps = video_popularity_of(&small, now);
    let pl = video_popularity_of(&large, now);
    assert!(ps <= pl);
    // log10(100) = 2, like ratio 0.1, age 100 days: (1.2 + 0.04) x 1.3
    assert_eq!(ps, 1_612_000);
}

#[test]
fn popularity_cold_start_pool() {
    let views: Vec<u64> = vec![10_000; 10];
    let ratios: Vec<u64> = vec![600_000; 10];
    let out = popularity_recommendations_at(3, &Vec::new(), 0, &views, &ratios);
    assert_eq!(out.len(), 3);
    for (id, score) in &out {
        assert!(id.starts_with("trending_"));
        assert_eq!(*score, 2_640_000);
    }
    let random = popularity_based_recommendations(20, &Vec::new());
    assert_eq!(random.len(), 10);
}

#[test]
fn top_by_score_ranks_and_dedups() {
    let items = vec![(s("a"), 1), (s("b"), 5), (s("a"), 7), (s("c"), 3)];
    let out = top_by_score(&items, 2);
    assert_eq!(out, vec![(s("a"), 7), (s("b"), 5)]);
    let all = top_by_score(&items, 10);
    assert_eq!(all.len(), 3);
}

#[test]
fn unknown_user_fallbacks() {
    let users = vec![user("u1", &[], &[])];
    let videos = vec![video("v1", "c", &["tech"], 0, metrics(10, 1))];
    let matrix: Vec<Rating> = Vec::new();
    let cf = collaborative_filtering_recommendations(&s("ghost"), 20, &matrix);
    assert_eq!(cf.len(), 15);
    for (id, score) in &cf {
        assert!(id.starts_with("video_cf_"));
        assert!(300_000 <= *score && *score < 600_000);
    }
    let cb = content_based_recommendations(&s("ghost"), 20, &users, &videos);
    assert_eq!(cb.len(), 10);
    for (id, score) in &cb {
        assert!(id.starts_with("video_cb_"));
        assert!(200_000 <= *score && *score < 700_000);
    }
    assert!(get_temporal_recommendations(&s("ghost"), 20, &users, &videos).is_empty());
    assert!(get_engagement_recommendations(&s("ghost"), 20, &users, &videos).is_empty());
}

#[test]
fn collaborative_donors_skip_rated_videos() {
    let matrix = vec![Rating { user_id: s("u1"), video_id: s("video_cf_1"), value: 1 }];
    let picks: Vec<u64> = (0..25).map(|k| (k % 2) as u64).collect();
    let jitters: Vec<u64> = vec![1_000_000; 25];
    let pool: Vec<u64> = vec![0; 15];
    let out = collaborative_filtering_with(&s("u1"), 10, &matrix, &picks, &jitters, &pool);
    assert_eq!(out, vec![(s("video_cf_2"), 850_000)]);
}

#[test]
fn content_scores_use_preferences_and_recency() {
    let users = vec![user("u1", &[], &[("tech", 800_000)])];
    let now: i64 = 100 * 86_400;
    let videos = vec![
        video("old", "c", &["tech"], 0, metrics(0, 0)),
        video("new", "c", &["music"], now, metrics(0, 0)),
    ];
    let jitters = vec![vec![1_000_000], vec![1_000_000]];
    let baselines = vec![150_000, 150_000];
    let pool = vec![0; 10];
    let out = content_based_recommendations_with(&s("u1"), 5, &users, &videos, now, &jitters, &baselines, &pool);
    // "new" has no preference: baseline 0.15 plus the full boost 0.2
    assert_eq!(out, vec![(s("old"), 800_000), (s("new"), 350_000)]);
}

#[test]
fn content_similarity_averages_matches() {
    let prefs = vec![(s("tech"), 800_000), (s("music"), 400_000)];
    let cats = vec![s("tech"), s("music"), s("news")];
    assert_eq!(calculate_content_similarity(&prefs, &cats, &Vec::new()), 600_000);
    assert_eq!(calculate_content_similarity(&prefs, &vec![s("news")], &Vec::new()), 0);
}

#[test]
fn temporal_tiers_and_trending() {
    let now: i64 = 1_000 * 86_400 + 20 * 3600;
    let mut u = user("u1", &["chan"], &[]);
    u.interaction_patterns.time_of_day_preferences = vec![(20, 250_000)];
    let users = vec![u];
    let videos = vec![
        video("fresh", "chan", &[], now - 3600, metrics(0, 0)),
        video("week", "chan", &[], now - 10 * 86_400, metrics(0, 0)),
        video("hot", "other", &[], 0, metrics(2000, 1900)),
    ];
    let out = temporal_recommendations_at(&s("u1"), 5, &users, &videos, now);
    assert_eq!(out, vec![(s("fresh"), 5_250_000), (s("hot"), 1_750_000), (s("week"), 1_250_000)]);
}

#[test]
fn showcase_lists() {
    let e = get_dummy_engagement_recommendations(&s("x"), 3);
    assert_eq!(e.len(), 3);
    assert_eq!(e[0], (s("high-completion-tutorial"), 960_000));
    let t = get_dummy_temporal_recommendations(&s("x"), 50);
    assert_eq!(t.len(), 12);
    assert_eq!(t[11], (s("fresh-tech-review-3"), 650_000));
}

#[test]
fn fusion_weights_scores() {
    let l = SignalLists {
        collaborative: vec![(s("a"), 1_000_000)],
        content: vec![(s("b"), 1_000_000)],
        popularity: vec![(s("a"), 1_000_000)],
        temporal: Vec::new(),
        engagement: vec![(s("b"), 2_000_000)],
    };
    let out = fuse_rankings(&l, 5).unwrap();
    assert_eq!(out, vec![(s("b"), 55_000_000), (s("a"), 50_000_000)]);
    let bad = SignalLists {
        collaborative: vec![(s("a"), i128::MAX)],
        content: Vec::new(),
        popularity: Vec::new(),
        temporal: Vec::new(),
        engagement: Vec::new(),
    };
    assert!(fuse_rankings(&bad, 5).is_err());
}
