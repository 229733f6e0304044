//! The configuration of the service.
//!
//! The weights of the ranking are held as the 64-bit keys that `tantivy::f64_to_u64` gives them.
use crate::text::{is_blank, law_whitespace_is_cut_off, text_opt, trim, trimmed, whitespace};
use vstd::prelude::*;

verus! {

/// All that is configured.
#[derive(Debug, Clone)]
pub struct Config {
    pub server: ServerConfig,
    pub storage: StorageConfig,
    pub imdb: ImdbConfig,
    pub indexing: IndexingConfig,
    pub search: SearchConfig,
    pub tmdb: TmdbConfig,
}

/// How TMDB is asked, and how posters are kept.
#[derive(Debug, Clone)]
pub struct TmdbConfig {
    pub api_key: String,
    pub default_size: String,
    pub cache_dir: String,
    pub cache_ttl_days: u64,
    pub negative_cache_hours: u64,
}

/// Where the service listens.
#[derive(Debug, Clone)]
pub struct ServerConfig {
    pub host: String,
    pub port: u16,
}

/// Where the data is kept.
#[derive(Debug, Clone)]
pub struct StorageConfig {
    pub data_dir: String,
}

/// Where the dumps come from, and when they are looked at.
#[derive(Debug, Clone)]
pub struct ImdbConfig {
    pub base_url: String,
    pub auto_update: bool,
    pub check_interval_hours: u64,
}

/// Which titles are noise.
#[derive(Debug, Clone, Copy)]
pub struct NoiseFilterConfig {
    pub enabled: bool,
    pub min_votes: u32,
    pub filter_empty_titles: bool,
    pub filter_zero_votes_no_year: bool,
}

/// How the index is built.
#[derive(Debug, Clone)]
pub struct IndexingConfig {
    pub writer_memory_budget_mb: usize,
    pub batch_size: usize,
    /// The types of title that are indexed. Where it is empty, all are.
    pub allowed_title_types: Vec<String>,
    pub noise_filter: NoiseFilterConfig,
}

/// How many hits are shown, and what counts in their ranking.
#[derive(Debug, Clone, Copy)]
pub struct SearchConfig {
    pub default_limit: usize,
    pub max_limit: usize,
    pub popularity_boost_weight: u64,
    pub rating_boost_weight: u64,
}

impl TmdbConfig {
    /// The defaults, with the key that the environment gives, if it gives one.
    pub fn with_key(env_key: Option<String>) -> (r: TmdbConfig)
        ensures
            r.api_key@ == (match env_key {
                Some(key) => key@,
                None => Seq::empty(),
            }),
            r.default_size@ == "w185"@,
            r.cache_dir@ == "./data/posters"@,
            r.cache_ttl_days == 30,
            r.negative_cache_hours == 24,
    {
        TmdbConfig {
            api_key: match env_key {
                Some(key) => key,
                None => String::new(),
            },
            default_size: "w185".to_owned(),
            cache_dir: "./data/posters".to_owned(),
            cache_ttl_days: 30,
            negative_cache_hours: 24,
        }
    }

    /// Takes the key that the environment gives where the configuration has none.
    pub fn fill_key(&mut self, env_key: Option<String>)
        ensures
            final(self).api_key@ == filled(old(self).api_key@, text_opt(env_key)),
            final(self).default_size == old(self).default_size,
            final(self).cache_dir == old(self).cache_dir,
            final(self).cache_ttl_days == old(self).cache_ttl_days,
            final(self).negative_cache_hours == old(self).negative_cache_hours,
    {
        match env_key {
            Some(key) => {
                if self.api_key.as_str().is_empty() {
                    self.api_key = key;
                }
            },
            None => {},
        }
    }
}

impl Config {
    /// The defaults, with the key that the environment gives, if it gives one.
    pub fn with_key(env_key: Option<String>) -> (r: Config)
        ensures
            r.server.host@ == "0.0.0.0"@,
            r.server.port == 8090,
            r.storage.data_dir@ == "./data"@,
            r.imdb.base_url@ == "https://datasets.imdbws.com"@,
            r.imdb.auto_update,
            r.imdb.check_interval_hours == 24,
            r.indexing.writer_memory_budget_mb == 50,
            r.indexing.batch_size == 10_000,
            r.indexing.allowed_title_types@.len() == 0,
            r.indexing.noise_filter.enabled,
            r.indexing.noise_filter.min_votes == 0,
            r.indexing.noise_filter.filter_empty_titles,
            r.indexing.noise_filter.filter_zero_votes_no_year,
            r.search.default_limit == 20,
            r.search.max_limit == 100,
            r.search.popularity_boost_weight == 0xBFF8_0000_0000_0000u64,
            r.search.rating_boost_weight == 0xBFE0_0000_0000_0000u64,
            r.tmdb.api_key@ == (match env_key {
                Some(key) => key@,
                None => Seq::empty(),
            }),
            r.tmdb.default_size@ == "w185"@,
            r.tmdb.cache_dir@ == "./data/posters"@,
            r.tmdb.cache_ttl_days == 30,
            r.tmdb.negative_cache_hours == 24,
    {
        Config {
            server: ServerConfig { host: "0.0.0.0".to_owned(), port: 8090 },
            storage: StorageConfig { data_dir: "./data".to_owned() },
            imdb: ImdbConfig {
                base_url: "https://datasets.imdbws.com".to_owned(),
                auto_update: true,
                check_interval_hours: 24,
            },
            indexing: IndexingConfig {
                writer_memory_budget_mb: 50,
                batch_size: 10_000,
                allowed_title_types: Vec::new(),
                noise_filter: NoiseFilterConfig {
                    enabled: true,
                    min_votes: 0,
                    filter_empty_titles: true,
                    filter_zero_votes_no_year: true,
                },
            },
            search: SearchConfig {
                default_limit: 20,
                max_limit: 100,
                popularity_boost_weight: 0xBFF8_0000_0000_0000,
                rating_boost_weight: 0xBFE0_0000_0000_0000,
            },
            tmdb: TmdbConfig::with_key(env_key),
        }
    }

    /// Takes what the environment gives in place of what the configuration has, where there is
    /// more to it than whitespace. The key is taken without the whitespace round it.
    pub fn override_with(
        &mut self,
        data_dir: Option<String>,
        cache_dir: Option<String>,
        api_key: Option<String>,
    )
        ensures
            final(self).storage.data_dir@ == given_or(text_opt(data_dir), old(self).storage.data_dir@),
            final(self).tmdb.cache_dir@ == given_or(text_opt(cache_dir), old(self).tmdb.cache_dir@),
            final(self).tmdb.api_key@ == trimmed_or(text_opt(api_key), old(self).tmdb.api_key@),
            final(self).tmdb.default_size == old(self).tmdb.default_size,
            final(self).tmdb.cache_ttl_days == old(self).tmdb.cache_ttl_days,
            final(self).tmdb.negative_cache_hours == old(self).tmdb.negative_cache_hours,
            final(self).server == old(self).server,
            final(self).imdb == old(self).imdb,
            final(self).indexing == old(self).indexing,
            final(self).search == old(self).search,
    {
        match data_dir {
            Some(dir) => {
                if !is_blank(dir.as_str()) {
                    self.storage.data_dir = dir;
                }
            },
            None => {},
        }
        match cache_dir {
            Some(dir) => {
                if !is_blank(dir.as_str()) {
                    self.tmdb.cache_dir = dir;
                }
            },
            None => {},
        }
        match api_key {
            Some(key) => {
                if !is_blank(key.as_str()) {
                    self.tmdb.api_key = trim(key.as_str());
                }
            },
            None => {},
        }
    }
}

/// What is there, if it is not empty, else what is given.
pub open spec fn filled(there: Seq<char>, given: Option<Seq<char>>) -> Seq<char> {
    match given {
        Some(s) => if there.len() == 0 {
            s
        } else {
            there
        },
        None => there,
    }
}

/// What is given, if there is more to it than whitespace, else what was there.
pub open spec fn given_or(given: Option<Seq<char>>, there: Seq<char>) -> Seq<char> {
    match given {
        Some(s) => if trimmed(s).len() > 0 {
            s
        } else {
            there
        },
        None => there,
    }
}

/// What is given without the whitespace round it, if there is more to it, else what was there.
pub open spec fn trimmed_or(given: Option<Seq<char>>, there: Seq<char>) -> Seq<char> {
    match given {
        Some(s) => if trimmed(s).len() > 0 {
            trimmed(s)
        } else {
            there
        },
        None => there,
    }
}

impl SearchConfig {
    /// How many hits are shown: at least one, and at most as many as are allowed.
    pub fn effective_limit(&self, asked: Option<usize>) -> (r: usize)
        requires
            self.max_limit >= 1,
        ensures
            ({
                let wanted = match asked {
                    Some(n) => n,
                    None => self.default_limit,
                };
                r == (if wanted < 1 {
                    1
                } else if wanted > self.max_limit {
                    self.max_limit
                } else {
                    wanted
                })
            }),
            1 <= r <= self.max_limit,
            asked matches Some(n) && 1 <= n <= self.max_limit ==> r == asked.unwrap(),
            asked is None && 1 <= self.default_limit <= self.max_limit ==> r == self.default_limit,
            asked matches Some(n) && n > self.max_limit ==> r == self.max_limit,
            asked == Some(0usize) ==> r == 1,
    {
        let wanted: usize = match asked {
            Some(n) => n,
            None => self.default_limit,
        };
        if wanted < 1 {
            1
        } else if wanted > self.max_limit {
            self.max_limit
        } else {
            wanted
        }
    }
}

/// What the environment gives counts where there is more to it than whitespace: the key without the
/// whitespace round it, the directories as they are. Otherwise what is configured stays.
pub proof fn law_the_environment_comes_first(
    before: Seq<char>,
    given: Seq<char>,
    behind: Seq<char>,
    there: Seq<char>,
)
    requires
        forall|i: int| 0 <= i < before.len() ==> whitespace(#[trigger] before[i]),
        forall|i: int| 0 <= i < behind.len() ==> whitespace(#[trigger] behind[i]),
        given.len() > 0 ==> !whitespace(given[0]) && !whitespace(given.last()),
    ensures
        given.len() > 0 ==> given_or(Some(before + given + behind), there) == before + given + behind,
        given.len() > 0 ==> trimmed_or(Some(before + given + behind), there) == given,
        given.len() == 0 ==> given_or(Some(before + given + behind), there) == there,
        given.len() == 0 ==> trimmed_or(Some(before + given + behind), there) == there,
        given_or(None, there) == there,
        trimmed_or(None, there) == there,
{
    law_whitespace_is_cut_off(before, given, behind);
}

/// A key that is configured stays, whatever the environment gives; where there is none, the one that
/// the environment gives is taken.
pub proof fn law_a_configured_key_stays(there: Seq<char>, given: Seq<char>)
    ensures
        there.len() > 0 ==> filled(there, Some(given)) == there,
        filled(there, None) == there,
        filled(Seq::empty(), Some(given)) == given,
{
}

} // verus!
