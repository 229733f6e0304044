//! What the service of posters and metadata remembers, and what it does next.
use crate::config::TmdbConfig;
use crate::index::document::MovieDoc;
use crate::ingestion::temp_store::{parse_tconst_id, tconst_number};
use crate::poster::cache::{
    keys_differ, lookup, stored, touched, Cache, CacheValue, ImagePaths,
};
use crate::poster::files::{
    poster_file, poster_file_name, poster_shard, shard_of, PLACEHOLDER_HEAD, PLACEHOLDER_TAIL,
};
use crate::poster::model::{
    EpisodeMetadataItem, FeedShelf, MovieMetadataResponse, PersonDetailsResponse,
    SeriesSeasonsResponse,
};
use crate::poster::request::{has_key, key_is_set};
use crate::text::{
    decimal, format_decimal, is_digit, law_decimal_is_digits, law_decimal_is_injective,
};
use vstd::prelude::*;

verus! {

/// How many entries each cache holds.
pub const CACHE_CAPACITY: usize = 10_000;

/// For how many seconds the shelves of the home page are kept.
pub const FEEDS_TTL_SECS: u64 = 7200;

/// For how many seconds a page of a shelf is kept.
pub const SHELF_PAGE_TTL_SECS: u64 = 3600;

/// The caches of the service.
#[derive(Debug, Clone, Copy, PartialEq, Eq, Structural)]
pub enum Slot {
    Missing,
    Seasons,
    Episodes,
    Movies,
    Persons,
    Resolved,
    ShelfPages,
    PosterPaths,
    ImagePaths,
}

/// What the service remembers. Times are in nanoseconds, on a clock that does not go back.
pub struct PosterService {
    config: TmdbConfig,
    missing: Cache,
    seasons: Cache,
    episodes: Cache,
    movies: Cache,
    persons: Cache,
    resolved: Cache,
    shelf_pages: Cache,
    poster_paths: Cache,
    image_paths: Cache,
    feeds: Option<(u64, Vec<FeedShelf>)>,
}

/// What is to be done about a poster that is asked for.
#[derive(Debug, Clone, Copy, PartialEq, Eq, Structural)]
pub enum PosterStep {
    /// It is on disk.
    Serve,
    /// There is none to be had now.
    Refuse,
    /// It is to be fetched.
    Fetch,
}

/// The place of a poster below the directory of the cache.
#[derive(Debug, Clone)]
pub struct PosterPlace {
    pub shard: String,
    pub file_name: String,
}

/// Whether something of a time is not older than allowed. What is of a later time is new.
pub open spec fn is_fresh(at: u64, now: u64, ttl_secs: nat) -> bool {
    let age = if now <= at {
        0
    } else {
        now - at
    };
    age < ttl_secs * 1_000_000_000
}

fn fresh(at: u64, now: u64, ttl_secs: u128) -> (r: bool)
    requires
        ttl_secs <= u64::MAX * 3600,
    ensures
        r == is_fresh(at, now, ttl_secs as nat),
{
    let age: u64 = if now <= at {
        0
    } else {
        now - at
    };
    (age as u128) < ttl_secs * 1_000_000_000
}

/// The key of media that are known by their TMDB id.
pub open spec fn resolved_key(media_type: Seq<char>, tmdb_id: u64) -> Seq<char> {
    media_type + ":"@ + decimal(tmdb_id as nat)
}

/// The key of a page of a shelf.
pub open spec fn page_key(shelf_id: Seq<char>, page: u32) -> Seq<char> {
    shelf_id + ":"@ + decimal(page as nat)
}

fn colon_key(first: &str, second: u64) -> (r: String)
    ensures
        r@ == first@ + ":"@ + decimal(second as nat),
{
    let mut key = first.to_owned();
    key.append(":");
    key.append(format_decimal(second).as_str());
    key
}

impl PosterService {
    /// The entries of a cache, the last used first.
    pub closed spec fn entries(self, slot: Slot) -> Seq<(Seq<char>, CacheValue)> {
        self.cache(slot).entries()
    }

    /// How many entries a cache is made for.
    pub closed spec fn capacity(self, slot: Slot) -> nat {
        self.cache(slot).capacity()
    }

    /// The shelves of the home page, and when they were fetched.
    pub closed spec fn kept_feeds(self) -> Option<(u64, Vec<FeedShelf>)> {
        self.feeds
    }

    /// How the service is configured.
    pub closed spec fn configured(self) -> TmdbConfig {
        self.config
    }

    closed spec fn cache(self, slot: Slot) -> Cache {
        match slot {
            Slot::Missing => self.missing,
            Slot::Seasons => self.seasons,
            Slot::Episodes => self.episodes,
            Slot::Movies => self.movies,
            Slot::Persons => self.persons,
            Slot::Resolved => self.resolved,
            Slot::ShelfPages => self.shelf_pages,
            Slot::PosterPaths => self.poster_paths,
            Slot::ImagePaths => self.image_paths,
        }
    }

    /// Whether every cache is as large as it is made to be, and holds one entry for a key.
    pub closed spec fn wf(self) -> bool {
        &&& self.missing.wf() && self.missing.capacity() == CACHE_CAPACITY
        &&& self.seasons.wf() && self.seasons.capacity() == CACHE_CAPACITY
        &&& self.episodes.wf() && self.episodes.capacity() == CACHE_CAPACITY
        &&& self.movies.wf() && self.movies.capacity() == CACHE_CAPACITY
        &&& self.persons.wf() && self.persons.capacity() == CACHE_CAPACITY
        &&& self.resolved.wf() && self.resolved.capacity() == CACHE_CAPACITY
        &&& self.shelf_pages.wf() && self.shelf_pages.capacity() == CACHE_CAPACITY
        &&& self.poster_paths.wf() && self.poster_paths.capacity() == CACHE_CAPACITY
        &&& self.image_paths.wf() && self.image_paths.capacity() == CACHE_CAPACITY
    }

    /// No cache of a service holds more entries than it is made for, or two under one key.
    pub proof fn law_caches_are_bounded(self, slot: Slot)
        requires
            self.wf(),
        ensures
            self.capacity(slot) == CACHE_CAPACITY,
            self.entries(slot).len() <= CACHE_CAPACITY,
            keys_differ(self.entries(slot)),
    {
    }

    /// Whether a service differs from another in one cache at most.
    pub open spec fn same_but(self, other: PosterService, slot: Slot) -> bool {
        &&& forall|s: Slot| s != slot ==> #[trigger] self.entries(s) == other.entries(s)
        &&& forall|s: Slot| #[trigger] self.capacity(s) == other.capacity(s)
        &&& self.kept_feeds() == other.kept_feeds()
        &&& self.configured() == other.configured()
    }

    /// Whether a service is another after a key was looked up in a cache.
    pub open spec fn after_lookup(self, other: PosterService, slot: Slot, key: Seq<char>) -> bool {
        &&& self.entries(slot) == touched(other.entries(slot), key)
        &&& self.same_but(other, slot)
    }

    /// Whether a service is another after a value was put into a cache.
    pub open spec fn after_put(
        self,
        other: PosterService,
        slot: Slot,
        key: Seq<char>,
        value: CacheValue,
    ) -> bool {
        &&& self.entries(slot) == stored(other.entries(slot), other.capacity(slot), key, value)
        &&& self.same_but(other, slot)
    }

    /// A service that remembers nothing.
    pub fn new(config: TmdbConfig) -> (r: PosterService)
        ensures
            r.wf(),
            r.configured() == config,
            r.kept_feeds() is None,
            forall|slot: Slot| #[trigger] r.entries(slot).len() == 0,
    {
        PosterService {
            config,
            missing: Cache::new(CACHE_CAPACITY),
            seasons: Cache::new(CACHE_CAPACITY),
            episodes: Cache::new(CACHE_CAPACITY),
            movies: Cache::new(CACHE_CAPACITY),
            persons: Cache::new(CACHE_CAPACITY),
            resolved: Cache::new(CACHE_CAPACITY),
            shelf_pages: Cache::new(CACHE_CAPACITY),
            poster_paths: Cache::new(CACHE_CAPACITY),
            image_paths: Cache::new(CACHE_CAPACITY),
            feeds: None,
        }
    }

    /// How the service is configured.
    pub fn config(&self) -> (r: &TmdbConfig)
        ensures
            *r == self.configured(),
    {
        &self.config
    }

    fn recall<'a>(&'a mut self, slot: Slot, key: &str) -> (r: Option<&'a CacheValue>)
        ensures
            r == (match lookup(old(self).entries(slot), key@) {
                Some(value) => Some(&value),
                None => None,
            }),
            final(self).after_lookup(*old(self), slot, key@),
            old(self).wf() ==> final(self).wf(),
    {
        match slot {
            Slot::Missing => self.missing.get(key),
            Slot::Seasons => self.seasons.get(key),
            Slot::Episodes => self.episodes.get(key),
            Slot::Movies => self.movies.get(key),
            Slot::Persons => self.persons.get(key),
            Slot::Resolved => self.resolved.get(key),
            Slot::ShelfPages => self.shelf_pages.get(key),
            Slot::PosterPaths => self.poster_paths.get(key),
            Slot::ImagePaths => self.image_paths.get(key),
        }
    }

    fn remember(&mut self, slot: Slot, key: String, value: CacheValue)
        ensures
            final(self).after_put(*old(self), slot, key@, value),
            old(self).wf() ==> final(self).wf(),
    {
        match slot {
            Slot::Missing => self.missing.put(key, value),
            Slot::Seasons => self.seasons.put(key, value),
            Slot::Episodes => self.episodes.put(key, value),
            Slot::Movies => self.movies.put(key, value),
            Slot::Persons => self.persons.put(key, value),
            Slot::Resolved => self.resolved.put(key, value),
            Slot::ShelfPages => self.shelf_pages.put(key, value),
            Slot::PosterPaths => self.poster_paths.put(key, value),
            Slot::ImagePaths => self.image_paths.put(key, value),
        }
    }
}

impl PosterService {
    // -----------------------------------------------------------------------
    // Posters
    // -----------------------------------------------------------------------

    /// The place of a poster below the directory of the cache.
    pub fn get_poster_path(&self, tconst: &str, size: &str) -> (r: PosterPlace)
        ensures
            r.shard@ == shard_of(tconst@),
            r.file_name@ == poster_file_name(tconst@, size@),
    {
        PosterPlace { shard: poster_shard(tconst), file_name: poster_file(tconst, size) }
    }

    /// Whether it was found not long ago that there is no poster.
    pub open spec fn known_missing(self, tconst: Seq<char>, now: u64) -> bool {
        match tconst_number(tconst) {
            Some(id) => match lookup(self.entries(Slot::Missing), decimal(id)) {
                Some(CacheValue::Missing(at)) => is_fresh(
                    at,
                    now,
                    (self.configured().negative_cache_hours * 3600) as nat,
                ),
                _ => false,
            },
            None => false,
        }
    }

    /// What is to be done about a poster that is asked for.
    pub open spec fn poster_step(self, tconst: Seq<char>, on_disk: bool, now: u64) -> PosterStep {
        if on_disk {
            PosterStep::Serve
        } else if self.known_missing(tconst, now) || !key_is_set(self.configured().api_key@) {
            PosterStep::Refuse
        } else {
            PosterStep::Fetch
        }
    }

    /// What is to be done about a poster that is asked for. It is served from disk; else it is
    /// fetched, unless it is known to be missing or there is no key to fetch it with.
    pub fn next_poster_step(&mut self, tconst: &str, on_disk: bool, now: u64) -> (r: PosterStep)
        ensures
            r == old(self).poster_step(tconst@, on_disk, now),
            match tconst_number(tconst@) {
                Some(id) => if on_disk {
                    *final(self) == *old(self)
                } else {
                    final(self).after_lookup(*old(self), Slot::Missing, decimal(id))
                },
                None => *final(self) == *old(self),
            },
            old(self).wf() ==> final(self).wf(),
    {
        if on_disk {
            return PosterStep::Serve;
        }
        match parse_tconst_id(tconst) {
            Some(id) => {
                let hours: u64 = self.config.negative_cache_hours;
                let key = format_decimal(id as u64);
                let is_missing = match self.recall(Slot::Missing, key.as_str()) {
                    Some(CacheValue::Missing(at)) => fresh(*at, now, hours as u128 * 3600),
                    _ => false,
                };
                if is_missing {
                    return PosterStep::Refuse;
                }
            },
            None => {},
        }
        if has_key(self.config.api_key.as_str()) {
            PosterStep::Fetch
        } else {
            PosterStep::Refuse
        }
    }

    /// Remembers that there is no poster.
    pub fn record_missing(&mut self, tconst: &str, now: u64)
        ensures
            match tconst_number(tconst@) {
                Some(id) => final(self).after_put(
                    *old(self),
                    Slot::Missing,
                    decimal(id),
                    CacheValue::Missing(now),
                ),
                None => *final(self) == *old(self),
            },
            old(self).wf() ==> final(self).wf(),
    {
        match parse_tconst_id(tconst) {
            Some(id) => {
                self.remember(
                    Slot::Missing,
                    format_decimal(id as u64),
                    CacheValue::Missing(now),
                );
            },
            None => {},
        }
    }

    /// Where the poster is, if that was found out.
    pub fn cached_poster_path<'a>(&'a mut self, tconst: &str) -> (r: Option<&'a Option<String>>)
        ensures
            r == (match lookup(old(self).entries(Slot::PosterPaths), tconst@) {
                Some(CacheValue::PosterPath(path)) => Some(&path),
                _ => None,
            }),
            final(self).after_lookup(*old(self), Slot::PosterPaths, tconst@),
            old(self).wf() ==> final(self).wf(),
    {
        match self.recall(Slot::PosterPaths, tconst) {
            Some(CacheValue::PosterPath(path)) => Some(path),
            _ => None,
        }
    }

    /// Remembers where the poster is, or that there is none.
    pub fn remember_poster_path(&mut self, tconst: &str, path: Option<String>)
        ensures
            final(self).after_put(
                *old(self),
                Slot::PosterPaths,
                tconst@,
                CacheValue::PosterPath(path),
            ),
            old(self).wf() ==> final(self).wf(),
    {
        self.remember(Slot::PosterPaths, tconst.to_owned(), CacheValue::PosterPath(path));
    }

    /// Where the poster and the backdrop are, if that is remembered.
    pub fn get_cached_paths<'a>(&'a mut self, tconst: &str) -> (r: Option<&'a ImagePaths>)
        ensures
            r == (match lookup(old(self).entries(Slot::ImagePaths), tconst@) {
                Some(CacheValue::Paths(paths)) => Some(&paths),
                _ => None,
            }),
            final(self).after_lookup(*old(self), Slot::ImagePaths, tconst@),
            old(self).wf() ==> final(self).wf(),
    {
        match self.recall(Slot::ImagePaths, tconst) {
            Some(CacheValue::Paths(paths)) => Some(paths),
            _ => None,
        }
    }

    /// Remembers where the poster and the backdrop are.
    pub fn save_paths_to_cache(
        &mut self,
        tconst: &str,
        poster: Option<String>,
        backdrop: Option<String>,
    )
        ensures
            final(self).after_put(
                *old(self),
                Slot::ImagePaths,
                tconst@,
                CacheValue::Paths(ImagePaths { poster, backdrop }),
            ),
            old(self).wf() ==> final(self).wf(),
    {
        self.remember(
            Slot::ImagePaths,
            tconst.to_owned(),
            CacheValue::Paths(ImagePaths { poster, backdrop }),
        );
    }

    /// The picture that is shown where there is no poster.
    pub fn render_svg_placeholder(tconst: &str) -> (r: String)
        ensures
            r@ == PLACEHOLDER_HEAD@ + tconst@ + PLACEHOLDER_TAIL@,
    {
        crate::poster::files::render_svg_placeholder(tconst)
    }

    // -----------------------------------------------------------------------
    // Metadata
    // -----------------------------------------------------------------------

    /// The seasons of a series, if they are remembered.
    pub fn cached_seasons<'a>(&'a mut self, tconst: &str) -> (r: Option<&'a SeriesSeasonsResponse>)
        ensures
            r == (match lookup(old(self).entries(Slot::Seasons), tconst@) {
                Some(CacheValue::Seasons(seasons)) => Some(&seasons),
                _ => None,
            }),
            final(self).after_lookup(*old(self), Slot::Seasons, tconst@),
            old(self).wf() ==> final(self).wf(),
    {
        match self.recall(Slot::Seasons, tconst) {
            Some(CacheValue::Seasons(seasons)) => Some(seasons),
            _ => None,
        }
    }

    /// Remembers the seasons of a series.
    pub fn remember_seasons(&mut self, tconst: &str, seasons: SeriesSeasonsResponse)
        ensures
            final(self).after_put(
                *old(self),
                Slot::Seasons,
                tconst@,
                CacheValue::Seasons(seasons),
            ),
            old(self).wf() ==> final(self).wf(),
    {
        self.remember(Slot::Seasons, tconst.to_owned(), CacheValue::Seasons(seasons));
    }

    /// The episodes of a series, if they are remembered.
    pub fn cached_episodes<'a>(&'a mut self, tconst: &str) -> (r: Option<
        &'a Vec<EpisodeMetadataItem>,
    >)
        ensures
            r == (match lookup(old(self).entries(Slot::Episodes), tconst@) {
                Some(CacheValue::Episodes(episodes)) => Some(&episodes),
                _ => None,
            }),
            final(self).after_lookup(*old(self), Slot::Episodes, tconst@),
            old(self).wf() ==> final(self).wf(),
    {
        match self.recall(Slot::Episodes, tconst) {
            Some(CacheValue::Episodes(episodes)) => Some(episodes),
            _ => None,
        }
    }

    /// Remembers the episodes of a series.
    pub fn remember_episodes(&mut self, tconst: &str, episodes: Vec<EpisodeMetadataItem>)
        ensures
            final(self).after_put(
                *old(self),
                Slot::Episodes,
                tconst@,
                CacheValue::Episodes(episodes),
            ),
            old(self).wf() ==> final(self).wf(),
    {
        self.remember(Slot::Episodes, tconst.to_owned(), CacheValue::Episodes(episodes));
    }

    /// The metadata of a movie or a series, if they are remembered.
    pub fn cached_movie<'a>(&'a mut self, tconst: &str) -> (r: Option<&'a MovieMetadataResponse>)
        ensures
            r == (match lookup(old(self).entries(Slot::Movies), tconst@) {
                Some(CacheValue::Movie(movie)) => Some(&movie),
                _ => None,
            }),
            final(self).after_lookup(*old(self), Slot::Movies, tconst@),
            old(self).wf() ==> final(self).wf(),
    {
        match self.recall(Slot::Movies, tconst) {
            Some(CacheValue::Movie(movie)) => Some(movie),
            _ => None,
        }
    }

    /// Remembers the metadata of a movie or a series.
    pub fn remember_movie(&mut self, tconst: &str, movie: MovieMetadataResponse)
        ensures
            final(self).after_put(*old(self), Slot::Movies, tconst@, CacheValue::Movie(movie)),
            old(self).wf() ==> final(self).wf(),
    {
        self.remember(Slot::Movies, tconst.to_owned(), CacheValue::Movie(movie));
    }

    /// The details of a person, if they are remembered.
    pub fn cached_person<'a>(&'a mut self, person_id: u64) -> (r: Option<&'a PersonDetailsResponse>)
        ensures
            r == (match lookup(old(self).entries(Slot::Persons), decimal(person_id as nat)) {
                Some(CacheValue::Person(person)) => Some(&person),
                _ => None,
            }),
            final(self).after_lookup(*old(self), Slot::Persons, decimal(person_id as nat)),
            old(self).wf() ==> final(self).wf(),
    {
        let key = format_decimal(person_id);
        match self.recall(Slot::Persons, key.as_str()) {
            Some(CacheValue::Person(person)) => Some(person),
            _ => None,
        }
    }

    /// Remembers the details of a person.
    pub fn remember_person(&mut self, person_id: u64, person: PersonDetailsResponse)
        ensures
            final(self).after_put(
                *old(self),
                Slot::Persons,
                decimal(person_id as nat),
                CacheValue::Person(person),
            ),
            old(self).wf() ==> final(self).wf(),
    {
        self.remember(Slot::Persons, format_decimal(person_id), CacheValue::Person(person));
    }

    /// The document of media that are known by their TMDB id, if it is remembered.
    pub fn cached_resolved<'a>(&'a mut self, media_type: &str, tmdb_id: u64) -> (r: Option<
        &'a MovieDoc,
    >)
        ensures
            r == (match lookup(
                old(self).entries(Slot::Resolved),
                resolved_key(media_type@, tmdb_id),
            ) {
                Some(CacheValue::Resolved(doc)) => Some(&doc),
                _ => None,
            }),
            final(self).after_lookup(
                *old(self),
                Slot::Resolved,
                resolved_key(media_type@, tmdb_id),
            ),
            old(self).wf() ==> final(self).wf(),
    {
        let key = colon_key(media_type, tmdb_id);
        match self.recall(Slot::Resolved, key.as_str()) {
            Some(CacheValue::Resolved(doc)) => Some(doc),
            _ => None,
        }
    }

    /// Remembers the document of media that are known by their TMDB id.
    pub fn remember_resolved(&mut self, media_type: &str, tmdb_id: u64, doc: MovieDoc)
        ensures
            final(self).after_put(
                *old(self),
                Slot::Resolved,
                resolved_key(media_type@, tmdb_id),
                CacheValue::Resolved(doc),
            ),
            old(self).wf() ==> final(self).wf(),
    {
        self.remember(Slot::Resolved, colon_key(media_type, tmdb_id), CacheValue::Resolved(doc));
    }

    // -----------------------------------------------------------------------
    // Shelves
    // -----------------------------------------------------------------------

    /// The shelves of the home page, if they were fetched not long ago.
    pub fn cached_feeds<'a>(&'a self, now: u64) -> (r: Option<&'a Vec<FeedShelf>>)
        ensures
            r == (match self.kept_feeds() {
                Some((at, shelves)) => if is_fresh(at, now, FEEDS_TTL_SECS as nat) {
                    Some(&shelves)
                } else {
                    None
                },
                None => None,
            }),
            self.kept_feeds() matches Some((at, _)) && at <= now && now - at < 7_200_000_000_000
                ==> r is Some,
            self.kept_feeds() matches Some((at, _)) && now >= at + 7_200_000_000_000 ==> r is None,
    {
        match &self.feeds {
            Some((at, shelves)) => if fresh(*at, now, FEEDS_TTL_SECS as u128) {
                Some(shelves)
            } else {
                None
            },
            None => None,
        }
    }

    /// The shelves of the home page that were fetched last.
    pub fn last_feeds<'a>(&'a self) -> (r: Option<&'a Vec<FeedShelf>>)
        ensures
            r == (match self.kept_feeds() {
                Some((_, shelves)) => Some(&shelves),
                None => None,
            }),
    {
        match &self.feeds {
            Some((_, shelves)) => Some(shelves),
            None => None,
        }
    }

    /// Remembers the shelves of the home page.
    pub fn remember_feeds(&mut self, now: u64, shelves: Vec<FeedShelf>)
        ensures
            final(self).kept_feeds() == Some((now, shelves)),
            final(self).configured() == old(self).configured(),
            forall|s: Slot|
                #[trigger] final(self).entries(s) == old(self).entries(s) && final(self).capacity(
                    s,
                ) == old(self).capacity(s),
            old(self).wf() ==> final(self).wf(),
    {
        self.feeds = Some((now, shelves));
    }

    /// A page of a shelf, if it was fetched not long ago.
    pub fn cached_shelf_page<'a>(&'a mut self, shelf_id: &str, page: u32, now: u64) -> (r: Option<
        &'a FeedShelf,
    >)
        ensures
            r == (match lookup(old(self).entries(Slot::ShelfPages), page_key(shelf_id@, page)) {
                Some(CacheValue::Page(at, shelf)) => if is_fresh(
                    at,
                    now,
                    SHELF_PAGE_TTL_SECS as nat,
                ) {
                    Some(&shelf)
                } else {
                    None
                },
                _ => None,
            }),
            lookup(old(self).entries(Slot::ShelfPages), page_key(shelf_id@, page)) matches Some(
                CacheValue::Page(at, _),
            ) && at <= now && now - at < 3_600_000_000_000 ==> r is Some,
            lookup(old(self).entries(Slot::ShelfPages), page_key(shelf_id@, page)) matches Some(
                CacheValue::Page(at, _),
            ) && now >= at + 3_600_000_000_000 ==> r is None,
            final(self).after_lookup(*old(self), Slot::ShelfPages, page_key(shelf_id@, page)),
            old(self).wf() ==> final(self).wf(),
    {
        let key = colon_key(shelf_id, page as u64);
        match self.recall(Slot::ShelfPages, key.as_str()) {
            Some(CacheValue::Page(at, shelf)) => if fresh(*at, now, SHELF_PAGE_TTL_SECS as u128) {
                Some(shelf)
            } else {
                None
            },
            _ => None,
        }
    }

    /// Remembers a page of a shelf.
    pub fn remember_shelf_page(&mut self, shelf_id: &str, page: u32, now: u64, shelf: FeedShelf)
        ensures
            final(self).after_put(
                *old(self),
                Slot::ShelfPages,
                page_key(shelf_id@, page),
                CacheValue::Page(now, shelf),
            ),
            old(self).wf() ==> final(self).wf(),
    {
        self.remember(
            Slot::ShelfPages,
            colon_key(shelf_id, page as u64),
            CacheValue::Page(now, shelf),
        );
    }
}

proof fn lemma_colon_keys(a: Seq<char>, i: nat, b: Seq<char>, j: nat)
    requires
        a + ":"@ + decimal(i) == b + ":"@ + decimal(j),
        decimal(i).len() <= decimal(j).len(),
    ensures
        a == b,
        i == j,
{
    reveal_strlit(":");
    let first = a + ":"@ + decimal(i);
    let second = b + ":"@ + decimal(j);
    assert(first.len() == a.len() + 1 + decimal(i).len());
    assert(second.len() == b.len() + 1 + decimal(j).len());
    if decimal(i).len() < decimal(j).len() {
        assert(first[a.len() as int] == ':');
        law_decimal_is_digits(j);
        assert(second[a.len() as int] == decimal(j)[a.len() - b.len() - 1]);
        assert(is_digit(decimal(j)[a.len() - b.len() - 1]));
    } else {
        assert(a =~= first.take(a.len() as int));
        assert(b =~= second.take(b.len() as int));
        assert(decimal(i) =~= first.skip(a.len() as int + 1));
        assert(decimal(j) =~= second.skip(b.len() as int + 1));
        law_decimal_is_injective(i, j);
    }
}

/// Different media have different keys, and so have different pages of shelves.
pub proof fn law_keys_tell_apart(a: Seq<char>, i: u64, b: Seq<char>, j: u64, p: u32, q: u32)
    ensures
        resolved_key(a, i) == resolved_key(b, j) ==> a == b && i == j,
        page_key(a, p) == page_key(b, q) ==> a == b && p == q,
        decimal(i as nat) == decimal(j as nat) ==> i == j,
{
    if resolved_key(a, i) == resolved_key(b, j) {
        if decimal(i as nat).len() <= decimal(j as nat).len() {
            lemma_colon_keys(a, i as nat, b, j as nat);
        } else {
            lemma_colon_keys(b, j as nat, a, i as nat);
        }
    }
    if page_key(a, p) == page_key(b, q) {
        if decimal(p as nat).len() <= decimal(q as nat).len() {
            lemma_colon_keys(a, p as nat, b, q as nat);
        } else {
            lemma_colon_keys(b, q as nat, a, p as nat);
        }
    }
    if decimal(i as nat) == decimal(j as nat) {
        law_decimal_is_injective(i as nat, j as nat);
    }
}

/// Once it was found that there is no poster, it is known to be missing for as many hours as
/// are configured, and not longer.
pub proof fn law_missing_is_refused(
    before: PosterService,
    after: PosterService,
    tconst: Seq<char>,
    id: nat,
    at: u64,
    now: u64,
)
    requires
        tconst_number(tconst) == Some(id),
        after.after_put(before, Slot::Missing, decimal(id), CacheValue::Missing(at)),
    ensures
        after.known_missing(tconst, now) == is_fresh(
            at,
            now,
            (before.configured().negative_cache_hours * 3600) as nat,
        ),
{
    crate::poster::cache::law_stored_is_found(
        before.entries(Slot::Missing),
        before.capacity(Slot::Missing),
        decimal(id),
        CacheValue::Missing(at),
    );
}

/// What was found at a time is kept for as many seconds as are given, and not longer: the home page for
/// two hours, a page of a shelf for one.
pub proof fn law_things_are_kept_for_a_time(at: u64, later: u64, secs: nat)
    requires
        at + later <= u64::MAX,
    ensures
        is_fresh(at, (at + later) as u64, secs) == (later < secs * 1_000_000_000),
        secs > 0 ==> is_fresh((at + later) as u64, at, secs),
        FEEDS_TTL_SECS == 2 * 60 * 60,
        SHELF_PAGE_TTL_SECS == 60 * 60,
        CACHE_CAPACITY == 10_000,
{
}

/// A poster on disk is served, whatever else is known. One that is not is fetched, unless there is no
/// key or it is known to be missing.
pub proof fn law_posters_are_served_first(
    service: PosterService,
    tconst: Seq<char>,
    now: u64,
)
    ensures
        service.poster_step(tconst, true, now) == PosterStep::Serve,
        !key_is_set(service.configured().api_key@) ==> service.poster_step(tconst, false, now)
            == PosterStep::Refuse,
        service.known_missing(tconst, now) ==> service.poster_step(tconst, false, now)
            == PosterStep::Refuse,
        key_is_set(service.configured().api_key@) && !service.known_missing(tconst, now)
            ==> service.poster_step(tconst, false, now) == PosterStep::Fetch,
{
}

/// Once it was found that there is no poster, it is not fetched again for as many hours as are
/// configured; then, where there is a key, it is. An id without a number is never known to be missing.
pub proof fn law_missing_posters_are_not_fetched_again(
    before: PosterService,
    after: PosterService,
    tconst: Seq<char>,
    id: nat,
    at: u64,
    later: u64,
)
    requires
        tconst_number(tconst) == Some(id),
        after.after_put(before, Slot::Missing, decimal(id), CacheValue::Missing(at)),
        at + later <= u64::MAX,
    ensures
        later < before.configured().negative_cache_hours * 3_600_000_000_000 ==> after.poster_step(
            tconst,
            false,
            (at + later) as u64,
        ) == PosterStep::Refuse,
        later >= before.configured().negative_cache_hours * 3_600_000_000_000 && key_is_set(
            before.configured().api_key@,
        ) ==> after.poster_step(tconst, false, (at + later) as u64) == PosterStep::Fetch,
        forall|other: Seq<char>|
            tconst_number(other) is None ==> !(#[trigger] after.known_missing(
                other,
                (at + later) as u64,
            )),
{
    law_missing_is_refused(before, after, tconst, id, at, (at + later) as u64);
}

/// The keys of media and of pages are made of what tells them apart, with a colon between.
pub proof fn law_keys_are_made_of_their_parts(media_type: Seq<char>, tmdb_id: u64, page: u32)
    ensures
        resolved_key(media_type, tmdb_id) == media_type + ":"@ + decimal(tmdb_id as nat),
        page_key(media_type, page) == resolved_key(media_type, page as u64),
{
}

} // verus!
