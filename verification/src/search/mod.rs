//! How queries are read, what is searched for, and how the hits are ranked.
pub mod distance;
pub mod quality;
pub mod plan;
pub mod hits;
