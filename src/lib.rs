//! A news-digest pipeline: fresh and deduplicated feed items, keyword and
//! classifier filtering, article enrichment and chunked summarisation.
pub mod classifier;
pub mod dedup;
pub mod enrich;
pub mod feed;
pub mod keywords;
pub mod summary;
pub mod text;
pub mod types;
