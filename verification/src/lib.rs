//! Movie search over the IMDb dumps: the rules of ingestion, indexing, query
//! planning, ranking, caching and of the answers that are built from TMDB.
pub mod text;
pub mod lists;
pub mod ranking;
pub mod moment;
pub mod json;
pub mod poster;
pub mod ingestion;
pub mod config;
pub mod index;
pub mod search;
pub mod downloader;
pub mod scheduler;
pub mod api;
