//! Commit-history and effort-estimation engine.
//!
//! The crate ingests plain records describing a repository (its commit
//! history and the text of its source files) and derives line/language
//! metrics, an effort estimate with work-session bucketing, contributor
//! and temporal aggregates, and a tiered value table.  All quantities are
//! exact integers: effort is measured in units of 1/30000 hour, money in
//! cents, and shares in basis points, so every result is reproducible.
pub mod analyzer;
pub mod commit;
pub mod contribution;
pub mod dates;
pub mod gitstats;
pub mod lang;
pub mod metrics;
pub mod output;
pub mod patterns;
pub mod strutil;
pub mod summary;
pub mod time_estimator;
pub mod ui;
pub mod value_calculator;
