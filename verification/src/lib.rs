//! Edge API library: the aggregation engine behind a small personal-site API.
//!
//! The heart of the crate is the Hacker News top-story aggregation pipeline:
//! a cache-aside candidate-ID lookup, per-item cache-aside story resolution,
//! a recency filter, ranking by score, and truncation to the top twenty,
//! together with the text codecs used for the cache blobs.  Around it stand
//! the small pure computations of the other endpoints: bearer-token parsing,
//! LeetCode profile folding, resume file-URL construction, AI output cleanup,
//! and the Tensara query-URL builder.

pub mod ai;
pub mod auth;
pub mod cache;
pub mod codec;
pub mod engine;
pub mod lc;
pub mod rank;
pub mod resume;
pub mod story;
pub mod tensara;
