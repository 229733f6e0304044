//! The documents of the index.
pub mod document;
pub mod tokenizer;
pub mod fields;
pub mod values;
pub mod schema;
pub mod generation;
