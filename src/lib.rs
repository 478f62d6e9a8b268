//! A video recommender: per-signal scoring, weighted fusion of ranked lists,
//! and the event pipeline that updates the behavioural model.
//!
//! All quantities that are fractional by nature (ratios, preferences, scores)
//! are fixed-point integers: `fixed::UNIT` stands for 1.0.

pub mod fixed;
pub mod clock;
pub mod random;
pub mod ids;
pub mod model;
pub mod ranking;

pub mod collaborative_filtering;
pub mod content_based;
pub mod popularity_based;
pub mod temporal;
pub mod engagement;
pub mod fusion;

pub mod sentiment;
pub mod engine;
pub mod sample;
pub mod stats;

pub mod similarity;
pub mod analytics;
pub mod topics;
