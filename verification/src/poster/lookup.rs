//! How an answer about a movie, a series, a person or a shelf is found, step by step.
//!
//! A lookup begins with what is remembered. Where that is not enough, it says what TMDB is to be
//! asked, and goes on with the answers.
use crate::index::document::MovieDoc;
use crate::json::{document, parse_json, Json, JsonError};
use crate::lists::views;
use crate::moment::Moment;
use crate::poster::cache::{
    law_last_stored_stays_first, law_stored_is_found, lookup, CacheValue,
};
use crate::poster::feeds::{
    home_shelf, home_shelf_of, home_shelves, shelf_address, shelf_id, shelf_page, shelf_page_address,
    shelf_page_of, Shelf,
};
use crate::poster::fields::real_text;
use crate::poster::images::{
    choose_poster, chosen_poster, posters_opt, FoundMedia, MediaItem, PosterItem,
};
use crate::poster::model::{
    EpisodeMetadataItem, FeedShelf, MovieMetadataResponse, PersonDetailsResponse,
    SeriesSeasonsResponse,
};
use crate::poster::movie::{movie_metadata, movie_metadata_of, needs_english_overview};
use crate::poster::person::{needs_english_biography, person_details, person_details_of};
use crate::poster::request::{
    english_url, find_url, has_key, key_is_set, law_addresses_tell_ids_apart, media_url,
    media_word, person_english_url, person_url, season_url, series_url,
};
use crate::poster::resolve::{resolve_media, resolved_doc};
use crate::poster::series::{
    is_series_of, numbered_seasons, ordered_episodes, season_reader, series_episodes,
    series_seasons, TvDetails,
};
use crate::poster::service::{
    is_fresh, page_key, resolved_key, PosterService, Slot, FEEDS_TTL_SECS, SHELF_PAGE_TTL_SECS,
};
use crate::text::{decimal, text_opt, texts};
use vstd::prelude::*;

verus! {

/// How a lookup begins.
pub enum Start<'a, T> {
    /// The answer is known.
    Known(&'a T),
    /// There is nobody to ask.
    Refused,
    /// TMDB is to be asked here.
    Ask(String),
}

/// Where the media with an IMDb id are found.
pub open spec fn find_address(tconst: Seq<char>) -> Seq<char> {
    "https://api.themoviedb.org/3/find/"@ + tconst + "?external_source=imdb_id&language=ru-RU"@
}

/// The document in a body that may be missing.
pub open spec fn document_opt(body: Option<&[u8]>) -> Option<crate::json::JsonTree> {
    match body {
        Some(bytes) => document(bytes@),
        None => None,
    }
}

fn parse_opt(body: Option<&[u8]>) -> (r: Option<Json>)
    ensures
        match r {
            Some(json) => document_opt(body) == Some(json@),
            None => document_opt(body) is None,
        },
{
    match body {
        Some(bytes) => match parse_json(bytes) {
            Ok(json) => Some(json),
            Err(_) => None,
        },
        None => None,
    }
}

// ---------------------------------------------------------------------------
// Movies
// ---------------------------------------------------------------------------

impl PosterService {
    /// Begins to look for the metadata of a movie or a series.
    pub fn begin_movie<'a>(&'a mut self, tconst: &str) -> (r: Start<'a, MovieMetadataResponse>)
        ensures
            final(self).after_lookup(*old(self), Slot::Movies, tconst@),
            old(self).wf() ==> final(self).wf(),
            match r {
                Start::Known(movie) => lookup(old(self).entries(Slot::Movies), tconst@) == Some(
                    CacheValue::Movie(*movie),
                ),
                Start::Refused => {
                    &&& !(lookup(old(self).entries(Slot::Movies), tconst@) matches Some(
                        CacheValue::Movie(_),
                    ))
                    &&& !key_is_set(old(self).configured().api_key@)
                },
                Start::Ask(url) => {
                    &&& !(lookup(old(self).entries(Slot::Movies), tconst@) matches Some(
                        CacheValue::Movie(_),
                    ))
                    &&& key_is_set(old(self).configured().api_key@)
                    &&& url@ == find_address(tconst@)
                },
            },
    {
        let can_ask = has_key(self.config().api_key.as_str());
        match self.cached_movie(tconst) {
            Some(movie) => Start::Known(movie),
            None => if can_ask {
                Start::Ask(find_url(tconst))
            } else {
                Start::Refused
            },
        }
    }

    /// Reads the details of a movie or a series. Where there is no overview in them, the English
    /// one is to be asked for at the address that comes with them.
    pub fn read_movie_details(media: &FoundMedia, body: &[u8]) -> (r: Result<
        (Json, Option<String>),
        JsonError,
    >)
        ensures
            match r {
                Ok((json, english)) => {
                    &&& document(body@) == Some(json@)
                    &&& text_opt(english) == (if real_text(json@, "overview"@) is None {
                        Some(
                            "https://api.themoviedb.org/3/"@ + media_word(media.is_tv) + "/"@
                                + decimal(media.id as nat) + "?language=en-US"@,
                        )
                    } else {
                        None
                    })
                },
                Err(e) => document(body@) is None && e == JsonError::Malformed,
            },
    {
        match parse_json(body) {
            Ok(json) => {
                let english = if needs_english_overview(&json) {
                    Some(english_url(media.is_tv, media.id))
                } else {
                    None
                };
                Ok((json, english))
            },
            Err(e) => Err(e),
        }
    }

    /// Ends the lookup of a movie or a series, and remembers what was found. `english` is the
    /// body of the answer in English, if it was asked for and came.
    pub fn finish_movie<'a>(
        &'a mut self,
        tconst: &str,
        media: &FoundMedia,
        details: &Json,
        english: Option<&[u8]>,
    ) -> (r: &'a MovieMetadataResponse)
        ensures
            r@ == movie_metadata_of(
                tconst@,
                media.id,
                media.is_tv,
                details@,
                document_opt(english),
            ),
            final(self).after_put(*old(self), Slot::Movies, tconst@, CacheValue::Movie(*r)),
            old(self).wf() ==> final(self).wf(),
    {
        let other = parse_opt(english);
        let movie = match &other {
            Some(json) => movie_metadata(tconst, media.id, media.is_tv, details, Some(json)),
            None => movie_metadata(tconst, media.id, media.is_tv, details, None),
        };
        proof {
            law_last_stored_stays_first(
                self.entries(Slot::Movies),
                self.capacity(Slot::Movies),
                tconst@,
                CacheValue::Movie(movie),
            );
        }
        self.remember_movie(tconst, movie);
        self.cached_movie(tconst).unwrap()
    }
}

// ---------------------------------------------------------------------------
// Persons
// ---------------------------------------------------------------------------

impl PosterService {
    /// Begins to look for the details of a person.
    pub fn begin_person<'a>(&'a mut self, person_id: u64) -> (r: Start<'a, PersonDetailsResponse>)
        ensures
            final(self).after_lookup(*old(self), Slot::Persons, decimal(person_id as nat)),
            old(self).wf() ==> final(self).wf(),
            match r {
                Start::Known(person) => lookup(
                    old(self).entries(Slot::Persons),
                    decimal(person_id as nat),
                ) == Some(CacheValue::Person(*person)),
                Start::Refused => {
                    &&& !(lookup(
                        old(self).entries(Slot::Persons),
                        decimal(person_id as nat),
                    ) matches Some(CacheValue::Person(_)))
                    &&& !key_is_set(old(self).configured().api_key@)
                },
                Start::Ask(url) => {
                    &&& !(lookup(
                        old(self).entries(Slot::Persons),
                        decimal(person_id as nat),
                    ) matches Some(CacheValue::Person(_)))
                    &&& key_is_set(old(self).configured().api_key@)
                    &&& url@ == "https://api.themoviedb.org/3/person/"@ + decimal(person_id as nat)
                        + "?language=ru-RU&append_to_response=combined_credits,external_ids"@
                },
            },
    {
        let can_ask = has_key(self.config().api_key.as_str());
        match self.cached_person(person_id) {
            Some(person) => Start::Known(person),
            None => if can_ask {
                Start::Ask(person_url(person_id))
            } else {
                Start::Refused
            },
        }
    }

    /// Reads the document of a person. Where there is no biography in it, the English one is to be
    /// asked for at the address that comes with it.
    pub fn read_person(person_id: u64, body: &[u8]) -> (r: Result<(Json, Option<String>), JsonError>)
        ensures
            match r {
                Ok((json, english)) => {
                    &&& document(body@) == Some(json@)
                    &&& text_opt(english) == (if real_text(json@, "biography"@) is None {
                        Some(
                            "https://api.themoviedb.org/3/person/"@ + decimal(person_id as nat)
                                + "?language=en-US"@,
                        )
                    } else {
                        None
                    })
                },
                Err(e) => document(body@) is None && e == JsonError::Malformed,
            },
    {
        match parse_json(body) {
            Ok(json) => {
                let english = if needs_english_biography(&json) {
                    Some(person_english_url(person_id))
                } else {
                    None
                };
                Ok((json, english))
            },
            Err(e) => Err(e),
        }
    }

    /// Ends the lookup of a person, and remembers what was found. `english` is the body of the
    /// answer in English, if it was asked for and came.
    pub fn finish_person<'a>(
        &'a mut self,
        person_id: u64,
        person: &Json,
        english: Option<&[u8]>,
    ) -> (r: &'a PersonDetailsResponse)
        ensures
            r@ == person_details_of(person_id, person@, document_opt(english)),
            final(self).after_put(
                *old(self),
                Slot::Persons,
                decimal(person_id as nat),
                CacheValue::Person(*r),
            ),
            old(self).wf() ==> final(self).wf(),
    {
        let other = parse_opt(english);
        let details = match &other {
            Some(json) => person_details(person_id, person, Some(json)),
            None => person_details(person_id, person, None),
        };
        proof {
            law_last_stored_stays_first(
                self.entries(Slot::Persons),
                self.capacity(Slot::Persons),
                decimal(person_id as nat),
                CacheValue::Person(details),
            );
        }
        self.remember_person(person_id, details);
        self.cached_person(person_id).unwrap()
    }
}

// ---------------------------------------------------------------------------
// Media known by their TMDB id
// ---------------------------------------------------------------------------

impl PosterService {
    /// Begins to look for the document of media that are known by their TMDB id.
    pub fn begin_resolve<'a>(&'a mut self, media_type: &str, tmdb_id: u64) -> (r: Start<
        'a,
        MovieDoc,
    >)
        ensures
            final(self).after_lookup(
                *old(self),
                Slot::Resolved,
                resolved_key(media_type@, tmdb_id),
            ),
            old(self).wf() ==> final(self).wf(),
            match r {
                Start::Known(doc) => lookup(
                    old(self).entries(Slot::Resolved),
                    resolved_key(media_type@, tmdb_id),
                ) == Some(CacheValue::Resolved(*doc)),
                Start::Refused => false,
                Start::Ask(url) => {
                    &&& !(lookup(
                        old(self).entries(Slot::Resolved),
                        resolved_key(media_type@, tmdb_id),
                    ) matches Some(CacheValue::Resolved(_)))
                    &&& url@ == "https://api.themoviedb.org/3/"@ + media_type@ + "/"@ + decimal(
                        tmdb_id as nat,
                    ) + "?language=ru-RU&append_to_response=external_ids"@
                },
            },
    {
        match self.cached_resolved(media_type, tmdb_id) {
            Some(doc) => Start::Known(doc),
            None => Start::Ask(media_url(media_type, tmdb_id)),
        }
    }

    /// Ends the lookup of media that are known by their TMDB id, and remembers what was found.
    pub fn finish_resolve<'a>(&'a mut self, media_type: &str, tmdb_id: u64, body: &[u8]) -> (r:
        Result<&'a MovieDoc, JsonError>)
        ensures
            old(self).wf() ==> final(self).wf(),
            match r {
                Ok(doc) => {
                    &&& document(body@) matches Some(details) && doc@ == resolved_doc(
                        media_type@,
                        tmdb_id,
                        details,
                    )
                    &&& final(self).after_put(
                        *old(self),
                        Slot::Resolved,
                        resolved_key(media_type@, tmdb_id),
                        CacheValue::Resolved(*doc),
                    )
                },
                Err(e) => {
                    &&& document(body@) is None
                    &&& e == JsonError::Malformed
                    &&& *final(self) == *old(self)
                },
            },
    {
        match parse_json(body) {
            Ok(details) => {
                let doc = resolve_media(media_type, tmdb_id, &details);
                proof {
                    law_last_stored_stays_first(
                        self.entries(Slot::Resolved),
                        self.capacity(Slot::Resolved),
                        resolved_key(media_type@, tmdb_id),
                        CacheValue::Resolved(doc),
                    );
                }
                self.remember_resolved(media_type, tmdb_id, doc);
                Ok(self.cached_resolved(media_type, tmdb_id).unwrap())
            },
            Err(e) => Err(e),
        }
    }
}

// ---------------------------------------------------------------------------
// Series
// ---------------------------------------------------------------------------

impl PosterService {
    /// Begins to look for the seasons of a series.
    pub fn begin_seasons<'a>(&'a mut self, tconst: &str) -> (r: Start<'a, SeriesSeasonsResponse>)
        ensures
            final(self).after_lookup(*old(self), Slot::Seasons, tconst@),
            old(self).wf() ==> final(self).wf(),
            match r {
                Start::Known(seasons) => lookup(old(self).entries(Slot::Seasons), tconst@) == Some(
                    CacheValue::Seasons(*seasons),
                ),
                Start::Refused => {
                    &&& !(lookup(old(self).entries(Slot::Seasons), tconst@) matches Some(
                        CacheValue::Seasons(_),
                    ))
                    &&& !key_is_set(old(self).configured().api_key@)
                },
                Start::Ask(url) => {
                    &&& !(lookup(old(self).entries(Slot::Seasons), tconst@) matches Some(
                        CacheValue::Seasons(_),
                    ))
                    &&& key_is_set(old(self).configured().api_key@)
                    &&& url@ == find_address(tconst@)
                },
            },
    {
        let can_ask = has_key(self.config().api_key.as_str());
        match self.cached_seasons(tconst) {
            Some(seasons) => Start::Known(seasons),
            None => if can_ask {
                Start::Ask(find_url(tconst))
            } else {
                Start::Refused
            },
        }
    }

    /// Goes on with the series that were found: the details of the first are to be asked for.
    pub fn ask_series_details(series: &Vec<MediaItem>) -> (r: Option<String>)
        ensures
            text_opt(r) == (if series@.len() > 0 {
                Some(
                    "https://api.themoviedb.org/3/tv/"@ + decimal(series@[0].id as nat)
                        + "?language=ru-RU&append_to_response=images&include_image_language=ru,en,null"@,
                )
            } else {
                None
            }),
    {
        if series.len() > 0 {
            Some(series_url(series[0].id))
        } else {
            None
        }
    }

    /// Ends the lookup of the seasons of a series, and remembers what was found.
    pub fn finish_seasons<'a>(&'a mut self, tconst: &str, details: TvDetails) -> (r:
        &'a SeriesSeasonsResponse)
        ensures
            is_series_of(*r, tconst@, details),
            final(self).after_put(*old(self), Slot::Seasons, tconst@, CacheValue::Seasons(*r)),
            old(self).wf() ==> final(self).wf(),
    {
        let seasons = series_seasons(tconst, details);
        proof {
            law_last_stored_stays_first(
                self.entries(Slot::Seasons),
                self.capacity(Slot::Seasons),
                tconst@,
                CacheValue::Seasons(seasons),
            );
        }
        self.remember_seasons(tconst, seasons);
        self.cached_seasons(tconst).unwrap()
    }

    /// Where the episodes of a series are asked for: one address for each season but the specials.
    pub fn ask_episodes(seasons: &SeriesSeasonsResponse) -> (r: Vec<String>)
        ensures
            texts(r@) == season_addresses(
                seasons.tmdb_id,
                seasons.seasons@.filter_map(season_reader()),
            ),
    {
        let numbers = numbered_seasons(&seasons.seasons);
        let ghost all = season_addresses(seasons.tmdb_id, numbers@);
        let mut out: Vec<String> = Vec::new();
        for i in 0..numbers.len()
            invariant
                all == season_addresses(seasons.tmdb_id, numbers@),
                texts(out@) =~= all.take(i as int),
        {
            let url = season_url(seasons.tmdb_id, numbers[i]);
            proof {
                assert(texts(out@.push(url)) =~= texts(out@).push(url@));
            }
            out.push(url);
        }
        proof {
            assert(all.take(all.len() as int) =~= all);
        }
        out
    }

    /// Ends the lookup of the episodes of a series, and remembers what was found. A season whose
    /// episodes did not come has none.
    pub fn finish_episodes<'a>(
        &'a mut self,
        tconst: &str,
        seasons: Vec<Vec<EpisodeMetadataItem>>,
    ) -> (r: &'a Vec<EpisodeMetadataItem>)
        ensures
            r@ == ordered_episodes(seasons@),
            final(self).after_put(*old(self), Slot::Episodes, tconst@, CacheValue::Episodes(*r)),
            old(self).wf() ==> final(self).wf(),
    {
        let episodes = series_episodes(seasons);
        proof {
            law_last_stored_stays_first(
                self.entries(Slot::Episodes),
                self.capacity(Slot::Episodes),
                tconst@,
                CacheValue::Episodes(episodes),
            );
        }
        self.remember_episodes(tconst, episodes);
        self.cached_episodes(tconst).unwrap()
    }
}

/// Where the episodes of some seasons are.
pub open spec fn season_addresses(tmdb_id: u64, numbers: Seq<u32>) -> Seq<Seq<char>> {
    Seq::new(
        numbers.len(),
        |i: int|
            "https://api.themoviedb.org/3/tv/"@ + decimal(tmdb_id as nat) + "/season/"@ + decimal(
                numbers[i] as nat,
            ) + "?language=ru-RU"@,
    )
}

// ---------------------------------------------------------------------------
// Shelves
// ---------------------------------------------------------------------------

/// How the lookup of the home page begins.
pub enum FeedsStart<'a> {
    /// The shelves are known.
    Known(&'a Vec<FeedShelf>),
    /// There is nobody to ask: there are no shelves.
    Refused,
    /// TMDB is to be asked here, once for each shelf.
    Ask(Vec<String>),
}

/// Where the shelves of the home page are, given the date of the day.
pub open spec fn home_addresses(today: Seq<char>) -> Seq<Seq<char>> {
    Seq::new(home_shelves().len(), |i: int| shelf_address(home_shelves()[i], today))
}

/// The shelves of the home page, given the bodies of the answers.
pub open spec fn home_page_of(bodies: Seq<Option<Vec<u8>>>) -> Seq<
    crate::poster::model::FeedShelfView,
> {
    Seq::new(
        home_shelves().len(),
        |i: int|
            home_shelf_of(
                home_shelves()[i],
                match bodies[i] {
                    Some(bytes) => document(bytes@),
                    None => None,
                },
            ),
    )
}

impl PosterService {
    /// Begins to look for the shelves of the home page. `now` is by the clock of the service, and
    /// `today` by the calendar.
    pub fn begin_feeds<'a>(&'a self, now: u64, today: Moment) -> (r: FeedsStart<'a>)
        requires
            today.has_date(),
        ensures
            match r {
                FeedsStart::Known(shelves) => self.kept_feeds() matches Some((at, kept)) && is_fresh(
                    at,
                    now,
                    FEEDS_TTL_SECS as nat,
                ) && kept == *shelves,
                FeedsStart::Refused => {
                    &&& !(self.kept_feeds() matches Some((at, _)) && is_fresh(
                        at,
                        now,
                        FEEDS_TTL_SECS as nat,
                    ))
                    &&& !key_is_set(self.configured().api_key@)
                },
                FeedsStart::Ask(urls) => {
                    &&& !(self.kept_feeds() matches Some((at, _)) && is_fresh(
                        at,
                        now,
                        FEEDS_TTL_SECS as nat,
                    ))
                    &&& key_is_set(self.configured().api_key@)
                    &&& texts(urls@) == home_addresses(today.date())
                },
            },
    {
        match self.cached_feeds(now) {
            Some(shelves) => FeedsStart::Known(shelves),
            None => {
                if !has_key(self.config().api_key.as_str()) {
                    return FeedsStart::Refused;
                }
                let date = today.to_date();
                let shelves = Shelf::home();
                let ghost all = home_addresses(today.date());
                let mut urls: Vec<String> = Vec::new();
                for i in 0..shelves.len()
                    invariant
                        shelves@ == home_shelves(),
                        date@ == today.date(),
                        all == home_addresses(today.date()),
                        texts(urls@) =~= all.take(i as int),
                {
                    let url = shelves[i].url(date.as_str());
                    proof {
                        assert(texts(urls@.push(url)) =~= texts(urls@).push(url@));
                    }
                    urls.push(url);
                }
                proof {
                    assert(all.take(all.len() as int) =~= all);
                }
                FeedsStart::Ask(urls)
            },
        }
    }

    /// Ends the lookup of the home page, and remembers what was found. A shelf whose answer did not
    /// come, or could not be read, is empty.
    pub fn finish_feeds<'a>(&'a mut self, now: u64, bodies: &Vec<Option<Vec<u8>>>) -> (r:
        &'a Vec<FeedShelf>)
        requires
            bodies@.len() == home_shelves().len(),
        ensures
            views(r@) == home_page_of(bodies@),
            final(self).kept_feeds() == Some((now, *r)),
            final(self).configured() == old(self).configured(),
            forall|s: Slot|
                #[trigger] final(self).entries(s) == old(self).entries(s) && final(self).capacity(
                    s,
                ) == old(self).capacity(s),
            old(self).wf() ==> final(self).wf(),
    {
        let shelves = Shelf::home();
        let ghost all = home_page_of(bodies@);
        let mut page: Vec<FeedShelf> = Vec::new();
        for i in 0..shelves.len()
            invariant
                shelves@ == home_shelves(),
                bodies@.len() == home_shelves().len(),
                all == home_page_of(bodies@),
                views(page@) =~= all.take(i as int),
        {
            let body = match &bodies[i] {
                Some(bytes) => Some(bytes.as_slice()),
                None => None,
            };
            let answer = parse_opt(body);
            let shelf = match &answer {
                Some(json) => home_shelf(shelves[i], Some(json)),
                None => home_shelf(shelves[i], None),
            };
            proof {
                assert(all[i as int] == shelf@);
                assert(views(page@.push(shelf)) =~= views(page@).push(shelf@));
            }
            page.push(shelf);
        }
        proof {
            assert(all.take(all.len() as int) =~= all);
        }
        self.remember_feeds(now, page);
        self.last_feeds().unwrap()
    }

    /// Begins to look for a page of a shelf. A shelf that there is not is refused too. `now` is by
    /// the clock of the service, and `today` by the calendar.
    pub fn begin_shelf_page<'a>(
        &'a mut self,
        shelf_name: &str,
        page: u32,
        now: u64,
        today: Moment,
    ) -> (r: Start<'a, FeedShelf>)
        requires
            today.has_date(),
        ensures
            final(self).after_lookup(*old(self), Slot::ShelfPages, page_key(shelf_name@, page)),
            old(self).wf() ==> final(self).wf(),
            ({
                let known = match lookup(
                    old(self).entries(Slot::ShelfPages),
                    page_key(shelf_name@, page),
                ) {
                    Some(CacheValue::Page(at, shelf)) => if is_fresh(
                        at,
                        now,
                        SHELF_PAGE_TTL_SECS as nat,
                    ) {
                        Some(shelf)
                    } else {
                        None
                    },
                    _ => None,
                };
                match r {
                    Start::Known(shelf) => known == Some(*shelf),
                    Start::Refused => known is None && (!key_is_set(
                        old(self).configured().api_key@,
                    ) || forall|shelf: Shelf| #[trigger] shelf_id(shelf) != shelf_name@),
                    Start::Ask(url) => {
                        &&& known is None
                        &&& key_is_set(old(self).configured().api_key@)
                        &&& exists|shelf: Shelf| #[trigger]
                            shelf_id(shelf) == shelf_name@ && url@ == shelf_page_address(
                                shelf,
                                today.date(),
                                page,
                            )
                    },
                }
            }),
    {
        let can_ask = has_key(self.config().api_key.as_str());
        match self.cached_shelf_page(shelf_name, page, now) {
            Some(shelf) => Start::Known(shelf),
            None => {
                if !can_ask {
                    return Start::Refused;
                }
                match Shelf::with_id(shelf_name) {
                    Some(shelf) => Start::Ask(shelf.page_url(today.to_date().as_str(), page)),
                    None => Start::Refused,
                }
            },
        }
    }

    /// Ends the lookup of a page of a shelf, and remembers what was found.
    pub fn finish_shelf_page<'a>(&'a mut self, shelf: Shelf, page: u32, now: u64, body: &[u8]) -> (r:
        Result<&'a FeedShelf, JsonError>)
        ensures
            old(self).wf() ==> final(self).wf(),
            match r {
                Ok(found) => {
                    &&& document(body@) matches Some(answer) && found@ == shelf_page_of(
                        shelf,
                        page,
                        answer,
                    )
                    &&& final(self).after_put(
                        *old(self),
                        Slot::ShelfPages,
                        page_key(shelf_id(shelf), page),
                        CacheValue::Page(now, *found),
                    )
                },
                Err(e) => {
                    &&& document(body@) is None
                    &&& e == JsonError::Malformed
                    &&& *final(self) == *old(self)
                },
            },
    {
        match parse_json(body) {
            Ok(answer) => {
                let found = shelf_page(shelf, page, &answer);
                proof {
                    law_last_stored_stays_first(
                        self.entries(Slot::ShelfPages),
                        self.capacity(Slot::ShelfPages),
                        page_key(shelf_id(shelf), page),
                        CacheValue::Page(now, found),
                    );
                }
                self.remember_shelf_page(shelf.id(), page, now, found);
                Ok(self.cached_shelf_page(shelf.id(), page, now).unwrap())
            },
            Err(e) => Err(e),
        }
    }
}

// ---------------------------------------------------------------------------
// Posters
// ---------------------------------------------------------------------------

impl PosterService {
    /// Begins to look for where a poster is.
    pub fn begin_poster_path<'a>(&'a mut self, tconst: &str) -> (r: Start<'a, Option<String>>)
        ensures
            final(self).after_lookup(*old(self), Slot::PosterPaths, tconst@),
            old(self).wf() ==> final(self).wf(),
            match r {
                Start::Known(path) => lookup(old(self).entries(Slot::PosterPaths), tconst@) == Some(
                    CacheValue::PosterPath(*path),
                ),
                Start::Refused => false,
                Start::Ask(url) => {
                    &&& !(lookup(old(self).entries(Slot::PosterPaths), tconst@) matches Some(
                        CacheValue::PosterPath(_),
                    ))
                    &&& url@ == find_address(tconst@)
                },
            },
    {
        match self.cached_poster_path(tconst) {
            Some(path) => Start::Known(path),
            None => Start::Ask(find_url(tconst)),
        }
    }

    /// Ends the lookup of where a poster is, and remembers what was found. Where no media were
    /// found there is none; `posters` is missing where they could not be asked for.
    pub fn finish_poster_path<'a>(
        &'a mut self,
        tconst: &str,
        media: Option<&FoundMedia>,
        posters: Option<&Vec<PosterItem>>,
    ) -> (r: &'a Option<String>)
        ensures
            text_opt(*r) == (match media {
                Some(found) => chosen_poster(posters_opt(posters), text_opt(found.poster_path)),
                None => None,
            }),
            final(self).after_put(*old(self), Slot::PosterPaths, tconst@, CacheValue::PosterPath(*r)),
            old(self).wf() ==> final(self).wf(),
    {
        let path = match media {
            Some(found) => {
                let known = match &found.poster_path {
                    Some(s) => Some(s.as_str()),
                    None => None,
                };
                choose_poster(posters, known)
            },
            None => None,
        };
        proof {
            law_last_stored_stays_first(
                self.entries(Slot::PosterPaths),
                self.capacity(Slot::PosterPaths),
                tconst@,
                CacheValue::PosterPath(path),
            );
        }
        self.remember_poster_path(tconst, path);
        self.cached_poster_path(tconst).unwrap()
    }
}

// ---------------------------------------------------------------------------
// Laws
// ---------------------------------------------------------------------------

/// What a lookup found is known when the same is looked for again.
pub proof fn law_what_was_found_is_known(
    before: PosterService,
    after: PosterService,
    slot: Slot,
    key: Seq<char>,
    value: CacheValue,
)
    requires
        after.after_put(before, slot, key, value),
    ensures
        lookup(after.entries(slot), key) == Some(value),
{
    law_stored_is_found(before.entries(slot), before.capacity(slot), key, value);
}

/// Media are looked for under their IMDb id, and the answer is in Russian: different ids are at
/// different places.
pub proof fn law_media_are_looked_for_by_id(tconst: Seq<char>, other: Seq<char>)
    ensures
        find_address(tconst) == "https://api.themoviedb.org/3/find/"@ + tconst
            + "?external_source=imdb_id&language=ru-RU"@,
        find_address(tconst) == find_address(other) ==> tconst == other,
{
    if find_address(tconst) == find_address(other) {
        let start = "https://api.themoviedb.org/3/find/"@.len() as int;
        let end = "?external_source=imdb_id&language=ru-RU"@.len() as int;
        let a = find_address(tconst);
        let b = find_address(other);
        assert(a.len() == start + tconst.len() + end);
        assert(b.len() == start + other.len() + end);
        assert(a.subrange(start, a.len() - end) =~= tconst);
        assert(b.subrange(start, b.len() - end) =~= other);
    }
}

/// Each season is asked for by its number, in the order of the seasons: the episodes of different
/// seasons are at different places.
pub proof fn law_seasons_are_asked_for_by_number(tmdb_id: u64, numbers: Seq<u32>, i: int, j: int)
    requires
        0 <= i < numbers.len(),
        0 <= j < numbers.len(),
    ensures
        season_addresses(tmdb_id, numbers).len() == numbers.len(),
        season_addresses(tmdb_id, numbers)[i] == "https://api.themoviedb.org/3/tv/"@ + decimal(
            tmdb_id as nat,
        ) + "/season/"@ + decimal(numbers[i] as nat) + "?language=ru-RU"@,
        season_addresses(tmdb_id, numbers)[i] == season_addresses(tmdb_id, numbers)[j]
            ==> numbers[i] == numbers[j],
{
    law_addresses_tell_ids_apart(
        "https://api.themoviedb.org/3/tv/"@ + decimal(tmdb_id as nat) + "/season/"@,
        numbers[i] as u64,
        numbers[j] as u64,
        "?language=ru-RU"@,
    );
}

/// The home page has an address and a shelf for each of its shelves, in their order; a shelf whose
/// answer did not come is empty.
pub proof fn law_each_shelf_has_its_place(
    today: Seq<char>,
    bodies: Seq<Option<Vec<u8>>>,
    i: int,
)
    requires
        0 <= i < home_shelves().len(),
    ensures
        home_addresses(today).len() == 4,
        home_page_of(bodies).len() == 4,
        home_addresses(today)[i] == shelf_address(home_shelves()[i], today),
        home_page_of(bodies)[i].id == shelf_id(home_shelves()[i]),
        bodies[i] is None ==> home_page_of(bodies)[i] == home_shelf_of(home_shelves()[i], None),
        bodies[i] is Some ==> home_page_of(bodies)[i] == home_shelf_of(
            home_shelves()[i],
            document(bodies[i].unwrap()@),
        ),
{
}

} // verus!
