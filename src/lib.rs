//! Search core for job listings and tutorial videos: query normalization,
//! text classification, record filtering and merging, and a time-bounded cache.

pub mod foreign;
pub mod text;
pub mod cache;
pub mod query;
pub mod classify;
pub mod jobs;
pub mod recency;
pub mod search;
pub mod videos;
