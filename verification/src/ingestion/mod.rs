//! What is taken from the rows of the IMDb dumps.
pub mod temp_store;
pub mod batch;
pub mod rows;
