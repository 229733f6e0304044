//! What is known of a movie in the index.
use crate::text::{text_opt, texts};
use vstd::prelude::*;

verus! {

/// What is known of a movie, a series or an episode. The rating is held as the 64-bit key that
/// `tantivy::f64_to_u64` gives it.
#[derive(Debug, Clone)]
pub struct MovieDoc {
    pub tconst: String,
    pub title_ru: Option<String>,
    pub title_orig: String,
    pub title_primary: String,
    pub russian_titles: Vec<String>,
    pub year: Option<u32>,
    pub title_type: String,
    pub rating: Option<u64>,
    pub num_votes: u32,
    pub genres: Vec<String>,
    pub runtime_minutes: Option<u32>,
}

/// What a [`MovieDoc`] holds.
pub struct MovieView {
    pub tconst: Seq<char>,
    pub title_ru: Option<Seq<char>>,
    pub title_orig: Seq<char>,
    pub title_primary: Seq<char>,
    pub russian_titles: Seq<Seq<char>>,
    pub year: Option<u32>,
    pub title_type: Seq<char>,
    pub rating: Option<u64>,
    pub num_votes: u32,
    pub genres: Seq<Seq<char>>,
    pub runtime_minutes: Option<u32>,
}

impl View for MovieDoc {
    type V = MovieView;

    open spec fn view(&self) -> MovieView {
        MovieView {
            tconst: self.tconst@,
            title_ru: text_opt(self.title_ru),
            title_orig: self.title_orig@,
            title_primary: self.title_primary@,
            russian_titles: texts(self.russian_titles@),
            year: self.year,
            title_type: self.title_type@,
            rating: self.rating,
            num_votes: self.num_votes,
            genres: texts(self.genres@),
            runtime_minutes: self.runtime_minutes,
        }
    }
}

} // verus!
