//! What is shown about movies, series and persons.
pub mod model;
pub mod crew;
pub mod fields;
pub mod movie;
pub mod person;
pub mod request;
pub mod images;
pub mod feeds;
pub mod series;
pub mod size;
pub mod files;
pub mod cache;
pub mod resolve;
pub mod service;
pub mod lookup;
