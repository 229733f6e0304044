//! The answers that are given about movies, series and persons.
//!
//! A rating is held as the 64-bit key that `tantivy::f64_to_u64` gives it.
use crate::lists::views;
use crate::text::{text_opt, texts};
use vstd::prelude::*;

verus! {

/// One of the cast of a movie or a series.
#[derive(Debug, Clone)]
pub struct CastMember {
    pub id: u64,
    pub name: String,
    pub character: Option<String>,
    pub profile_path: Option<String>,
    pub order: Option<u32>,
}

/// What a [`CastMember`] holds.
pub struct CastView {
    pub id: u64,
    pub name: Seq<char>,
    pub character: Option<Seq<char>>,
    pub profile_path: Option<Seq<char>>,
    pub order: Option<u32>,
}

impl View for CastMember {
    type V = CastView;

    open spec fn view(&self) -> CastView {
        CastView {
            id: self.id,
            name: self.name@,
            character: text_opt(self.character),
            profile_path: text_opt(self.profile_path),
            order: self.order,
        }
    }
}

/// One of the crew of a movie or a series.
#[derive(Debug, Clone)]
pub struct CrewMember {
    pub id: u64,
    pub name: String,
    pub job: String,
    pub department: Option<String>,
    pub profile_path: Option<String>,
}

/// What a [`CrewMember`] holds.
pub struct CrewView {
    pub id: u64,
    pub name: Seq<char>,
    pub job: Seq<char>,
    pub department: Option<Seq<char>>,
    pub profile_path: Option<Seq<char>>,
}

impl View for CrewMember {
    type V = CrewView;

    open spec fn view(&self) -> CrewView {
        CrewView {
            id: self.id,
            name: self.name@,
            job: self.job@,
            department: text_opt(self.department),
            profile_path: text_opt(self.profile_path),
        }
    }
}

/// A video about a movie or a series.
#[derive(Debug, Clone)]
pub struct VideoItem {
    pub id: String,
    pub name: String,
    pub key: String,
    pub site: String,
    pub video_type: String,
    pub official: bool,
    pub published_at: Option<String>,
}

/// What a [`VideoItem`] holds.
pub struct VideoView {
    pub id: Seq<char>,
    pub name: Seq<char>,
    pub key: Seq<char>,
    pub site: Seq<char>,
    pub video_type: Seq<char>,
    pub official: bool,
    pub published_at: Option<Seq<char>>,
}

impl View for VideoItem {
    type V = VideoView;

    open spec fn view(&self) -> VideoView {
        VideoView {
            id: self.id@,
            name: self.name@,
            key: self.key@,
            site: self.site@,
            video_type: self.video_type@,
            official: self.official,
            published_at: text_opt(self.published_at),
        }
    }
}

/// The metadata of a movie or a series.
#[derive(Debug, Clone)]
pub struct MovieMetadataResponse {
    pub tconst: String,
    pub tmdb_id: u64,
    pub title: String,
    pub original_title: String,
    pub overview: Option<String>,
    pub premiered: Option<String>,
    pub year: Option<u32>,
    pub rating: Option<u64>,
    pub genres: Vec<String>,
    pub poster_path: Option<String>,
    pub backdrop_path: Option<String>,
    pub logo_path: Option<String>,
    pub cast: Vec<CastMember>,
    pub crew: Vec<CrewMember>,
    pub videos: Vec<VideoItem>,
}

/// What a [`MovieMetadataResponse`] holds.
pub struct MovieMetadataView {
    pub tconst: Seq<char>,
    pub tmdb_id: u64,
    pub title: Seq<char>,
    pub original_title: Seq<char>,
    pub overview: Option<Seq<char>>,
    pub premiered: Option<Seq<char>>,
    pub year: Option<u32>,
    pub rating: Option<u64>,
    pub genres: Seq<Seq<char>>,
    pub poster_path: Option<Seq<char>>,
    pub backdrop_path: Option<Seq<char>>,
    pub logo_path: Option<Seq<char>>,
    pub cast: Seq<CastView>,
    pub crew: Seq<CrewView>,
    pub videos: Seq<VideoView>,
}

impl View for MovieMetadataResponse {
    type V = MovieMetadataView;

    open spec fn view(&self) -> MovieMetadataView {
        MovieMetadataView {
            tconst: self.tconst@,
            tmdb_id: self.tmdb_id,
            title: self.title@,
            original_title: self.original_title@,
            overview: text_opt(self.overview),
            premiered: text_opt(self.premiered),
            year: self.year,
            rating: self.rating,
            genres: texts(self.genres@),
            poster_path: text_opt(self.poster_path),
            backdrop_path: text_opt(self.backdrop_path),
            logo_path: text_opt(self.logo_path),
            cast: views(self.cast@),
            crew: views(self.crew@),
            videos: views(self.videos@),
        }
    }
}

/// A movie or series that a person took part in.
#[derive(Debug, Clone)]
pub struct PersonCreditItem {
    pub id: u64,
    pub media_type: String,
    pub title: String,
    pub original_title: Option<String>,
    pub character: Option<String>,
    pub job: Option<String>,
    pub department: Option<String>,
    pub release_date: Option<String>,
    pub year: Option<u32>,
    pub vote_average: Option<u64>,
    pub vote_count: u64,
    pub poster_path: Option<String>,
    pub backdrop_path: Option<String>,
}

/// What a [`PersonCreditItem`] holds.
pub struct PersonCreditView {
    pub id: u64,
    pub media_type: Seq<char>,
    pub title: Seq<char>,
    pub original_title: Option<Seq<char>>,
    pub character: Option<Seq<char>>,
    pub job: Option<Seq<char>>,
    pub department: Option<Seq<char>>,
    pub release_date: Option<Seq<char>>,
    pub year: Option<u32>,
    pub vote_average: Option<u64>,
    pub vote_count: u64,
    pub poster_path: Option<Seq<char>>,
    pub backdrop_path: Option<Seq<char>>,
}

impl View for PersonCreditItem {
    type V = PersonCreditView;

    open spec fn view(&self) -> PersonCreditView {
        PersonCreditView {
            id: self.id,
            media_type: self.media_type@,
            title: self.title@,
            original_title: text_opt(self.original_title),
            character: text_opt(self.character),
            job: text_opt(self.job),
            department: text_opt(self.department),
            release_date: text_opt(self.release_date),
            year: self.year,
            vote_average: self.vote_average,
            vote_count: self.vote_count,
            poster_path: text_opt(self.poster_path),
            backdrop_path: text_opt(self.backdrop_path),
        }
    }
}

/// The details of a person.
#[derive(Debug, Clone)]
pub struct PersonDetailsResponse {
    pub id: u64,
    pub name: String,
    pub biography: Option<String>,
    pub birthday: Option<String>,
    pub deathday: Option<String>,
    pub place_of_birth: Option<String>,
    pub known_for_department: Option<String>,
    pub profile_path: Option<String>,
    pub imdb_id: Option<String>,
    pub cast: Vec<PersonCreditItem>,
    pub crew: Vec<PersonCreditItem>,
}

/// What a [`PersonDetailsResponse`] holds.
pub struct PersonDetailsView {
    pub id: u64,
    pub name: Seq<char>,
    pub biography: Option<Seq<char>>,
    pub birthday: Option<Seq<char>>,
    pub deathday: Option<Seq<char>>,
    pub place_of_birth: Option<Seq<char>>,
    pub known_for_department: Option<Seq<char>>,
    pub profile_path: Option<Seq<char>>,
    pub imdb_id: Option<Seq<char>>,
    pub cast: Seq<PersonCreditView>,
    pub crew: Seq<PersonCreditView>,
}

impl View for PersonDetailsResponse {
    type V = PersonDetailsView;

    open spec fn view(&self) -> PersonDetailsView {
        PersonDetailsView {
            id: self.id,
            name: self.name@,
            biography: text_opt(self.biography),
            birthday: text_opt(self.birthday),
            deathday: text_opt(self.deathday),
            place_of_birth: text_opt(self.place_of_birth),
            known_for_department: text_opt(self.known_for_department),
            profile_path: text_opt(self.profile_path),
            imdb_id: text_opt(self.imdb_id),
            cast: views(self.cast@),
            crew: views(self.crew@),
        }
    }
}

/// A movie or series on a shelf.
#[derive(Debug, Clone)]
pub struct FeedItem {
    pub id: u64,
    pub media_type: String,
    pub title: String,
    pub original_title: Option<String>,
    pub year: Option<u32>,
    pub rating: Option<u64>,
    pub vote_count: u64,
    pub poster_path: Option<String>,
    pub backdrop_path: Option<String>,
    pub overview: Option<String>,
}

/// What a [`FeedItem`] holds.
pub struct FeedItemView {
    pub id: u64,
    pub media_type: Seq<char>,
    pub title: Seq<char>,
    pub original_title: Option<Seq<char>>,
    pub year: Option<u32>,
    pub rating: Option<u64>,
    pub vote_count: u64,
    pub poster_path: Option<Seq<char>>,
    pub backdrop_path: Option<Seq<char>>,
    pub overview: Option<Seq<char>>,
}

impl View for FeedItem {
    type V = FeedItemView;

    open spec fn view(&self) -> FeedItemView {
        FeedItemView {
            id: self.id,
            media_type: self.media_type@,
            title: self.title@,
            original_title: text_opt(self.original_title),
            year: self.year,
            rating: self.rating,
            vote_count: self.vote_count,
            poster_path: text_opt(self.poster_path),
            backdrop_path: text_opt(self.backdrop_path),
            overview: text_opt(self.overview),
        }
    }
}

/// A shelf of movies and series.
#[derive(Debug, Clone)]
pub struct FeedShelf {
    pub id: String,
    pub title: String,
    pub icon: String,
    pub items: Vec<FeedItem>,
    pub page: Option<u32>,
    pub total_pages: Option<u32>,
    pub total_results: Option<u64>,
}

/// What a [`FeedShelf`] holds.
pub struct FeedShelfView {
    pub id: Seq<char>,
    pub title: Seq<char>,
    pub icon: Seq<char>,
    pub items: Seq<FeedItemView>,
    pub page: Option<u32>,
    pub total_pages: Option<u32>,
    pub total_results: Option<u64>,
}

impl View for FeedShelf {
    type V = FeedShelfView;

    open spec fn view(&self) -> FeedShelfView {
        FeedShelfView {
            id: self.id@,
            title: self.title@,
            icon: self.icon@,
            items: views(self.items@),
            page: self.page,
            total_pages: self.total_pages,
            total_results: self.total_results,
        }
    }
}

/// An episode of a series.
#[derive(Debug, Clone)]
pub struct EpisodeMetadataItem {
    pub season_number: u32,
    pub episode_number: u32,
    pub name: String,
    pub overview: Option<String>,
    pub air_date: Option<String>,
    pub still_path: Option<String>,
}

/// A season of a series.
#[derive(Debug, Clone)]
pub struct SeriesSeasonItem {
    pub season_number: u32,
    pub name: String,
    pub episode_count: u32,
    pub air_date: Option<String>,
    pub poster_path: Option<String>,
}

/// A series and its seasons.
#[derive(Debug, Clone)]
pub struct SeriesSeasonsResponse {
    pub tconst: String,
    pub tmdb_id: u64,
    pub name: String,
    pub original_name: String,
    pub overview: Option<String>,
    pub premiered: Option<String>,
    pub rating: Option<u64>,
    pub genres: Vec<String>,
    pub studio: Option<String>,
    pub status: Option<String>,
    pub poster_path: Option<String>,
    pub backdrop_path: Option<String>,
    pub logo_path: Option<String>,
    pub number_of_seasons: u32,
    pub number_of_episodes: u32,
    pub seasons: Vec<SeriesSeasonItem>,
}

} // verus!
