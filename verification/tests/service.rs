use imdb_indexer::api::{
    failed_reply, missing_reply, poster_id, search_params, search_response, status_response,
    update_reply, PosterReply, SearchQuery, ShelfPageQuery, Topic, UpdateQuery, SERVICE, VERSION,
};
use imdb_indexer::config::{Config, ImdbConfig, TmdbConfig};
use imdb_indexer::downloader::DownloaderState;
use imdb_indexer::moment::Moment;
use imdb_indexer::poster::files::poster_file_metadata;
use imdb_indexer::scheduler::{SchedulerStep, UpdateScheduler};

#[test]
fn the_defaults_of_the_configuration() {
    let config = Config::with_key(None);
    assert_eq!((config.server.host.as_str(), config.server.port), ("0.0.0.0", 8090));
    assert_eq!(config.storage.data_dir, "./data");
    assert_eq!(config.imdb.base_url, "https://datasets.imdbws.com");
    assert!(config.imdb.auto_update);
    assert_eq!(config.imdb.check_interval_hours, 24);
    assert_eq!(config.indexing.writer_memory_budget_mb, 50);
    assert_eq!(config.indexing.batch_size, 10_000);
    assert!(config.indexing.allowed_title_types.is_empty());
    assert!(config.indexing.noise_filter.enabled);
    assert_eq!((config.search.default_limit, config.search.max_limit), (20, 100));
    assert_eq!(tantivy::u64_to_f64(config.search.popularity_boost_weight), 1.5);
    assert_eq!(tantivy::u64_to_f64(config.search.rating_boost_weight), 0.5);
    assert_eq!(config.tmdb.api_key, "");
    assert_eq!(config.tmdb.default_size, "w185");
    assert_eq!(config.tmdb.cache_dir, "./data/posters");
    assert_eq!((config.tmdb.cache_ttl_days, config.tmdb.negative_cache_hours), (30, 24));
    assert_eq!(Config::with_key(Some("k".to_string())).tmdb.api_key, "k");
}

#[test]
fn the_environment_overrides_the_configuration() {
    let mut config = Config::with_key(Some("old".to_string()));
    config.override_with(Some("  ".to_string()), Some("/posters".to_string()), Some(" new ".to_string()));
    assert_eq!(config.storage.data_dir, "./data");
    assert_eq!(config.tmdb.cache_dir, "/posters");
    assert_eq!(config.tmdb.api_key, "new");
    config.override_with(Some("/data ".to_string()), None, Some(" ".to_string()));
    assert_eq!(config.storage.data_dir, "/data ");
    assert_eq!(config.tmdb.api_key, "new");
}

#[test]
fn a_missing_key_is_filled_in() {
    let mut tmdb = TmdbConfig::with_key(None);
    tmdb.fill_key(None);
    assert_eq!(tmdb.api_key, "");
    tmdb.fill_key(Some("a".to_string()));
    assert_eq!(tmdb.api_key, "a");
    tmdb.fill_key(Some("b".to_string()));
    assert_eq!(tmdb.api_key, "a");
}

#[test]
fn limits_are_clamped() {
    let search = Config::with_key(None).search;
    assert_eq!(search.effective_limit(None), 20);
    assert_eq!(search.effective_limit(Some(0)), 1);
    assert_eq!(search.effective_limit(Some(50)), 50);
    assert_eq!(search.effective_limit(Some(1000)), 100);
}

#[test]
fn searches_take_their_weights_from_the_configuration() {
    let search = Config::with_key(None).search;
    let query = SearchQuery {
        q: "fight club".to_string(),
        limit: Some(500),
        title_type: Some("movie".to_string()),
        year_from: Some(1990),
        year_to: None,
        min_votes: Some(5),
    };
    let params = search_params(query, &search);
    assert_eq!(params.query, "fight club");
    assert_eq!(params.limit, 100);
    assert_eq!(params.title_type.as_deref(), Some("movie"));
    assert_eq!((params.year_from, params.year_to, params.min_votes), (Some(1990), None, Some(5)));
    assert_eq!(params.popularity_boost_weight, search.popularity_boost_weight);
    assert_eq!(params.rating_boost_weight, search.rating_boost_weight);
}

#[test]
fn answers_say_what_they_are() {
    let found = search_response("x".to_string(), 1500, Vec::new());
    assert_eq!((found.query.as_str(), found.total_hits, found.took_nanos), ("x", 0, 1500));
    let status = status_response(true, 12, DownloaderState::empty());
    assert_eq!(status.status, "ready");
    assert_eq!((status.service.as_str(), status.version.as_str()), (SERVICE, VERSION));
    assert_eq!(VERSION, "1.0.0");
    assert!(status.is_indexing);
    assert_eq!(status.total_documents, 12);
}

#[test]
fn one_update_at_a_time() {
    let (busy, answer) = update_reply(true);
    assert_eq!((busy, answer.status.as_str()), (409, "busy"));
    assert_eq!(answer.message, "Indexing pipeline is already running in background");
    let (started, answer) = update_reply(false);
    assert_eq!((started, answer.status.as_str()), (202, "started"));
    assert_eq!(answer.message, "IMDb dump download and indexing started in background");
    assert!(UpdateQuery { force: Some(true) }.is_forced());
    assert!(!UpdateQuery { force: None }.is_forced());
}

#[test]
fn pages_begin_with_one() {
    assert_eq!(ShelfPageQuery { page: None }.number(), 1);
    assert_eq!(ShelfPageQuery { page: Some(0) }.number(), 1);
    assert_eq!(ShelfPageQuery { page: Some(7) }.number(), 7);
}

#[test]
fn posters_may_be_asked_for_like_files() {
    assert_eq!(poster_id("tt0111161.jpg"), "tt0111161");
    assert_eq!(poster_id("tt0111161.jpg.jpg"), "tt0111161");
    assert_eq!(poster_id("tt0111161"), "tt0111161");
    assert_eq!(poster_id(".jpg"), "");
    assert_eq!(poster_id("jpg"), "jpg");
}

#[test]
fn poster_replies() {
    let moment = Moment { secs: 1, nanos: 0 };
    let meta = poster_file_metadata("a.jpg", true, 255, moment).unwrap();
    let tag = format!(" {} ", meta.etag);
    assert_eq!(PosterReply::choose_for(Some(&meta), Some(&tag)), PosterReply::NotModified);
    assert_eq!(PosterReply::choose_for(Some(&meta), Some("W/\"0-0\"")), PosterReply::Image);
    assert_eq!(PosterReply::choose_for(Some(&meta), None), PosterReply::Image);
    assert_eq!(PosterReply::choose_for(None, Some(&tag)), PosterReply::Placeholder);
    assert_eq!(PosterReply::NotModified.status(), 304);
    assert_eq!(PosterReply::Image.status(), 200);
    assert_eq!(PosterReply::Placeholder.status(), 200);
    assert_eq!(PosterReply::Image.cache_control(), "public, max-age=2592000, immutable");
    assert_eq!(PosterReply::Placeholder.cache_control(), "no-cache, no-store, must-revalidate");
    assert_eq!(PosterReply::Image.content_type(), Some("image/jpeg"));
    assert_eq!(PosterReply::Placeholder.content_type(), Some("image/svg+xml; charset=utf-8"));
    assert_eq!(PosterReply::NotModified.content_type(), None);
}

#[test]
fn errors_are_explained() {
    let reply = missing_reply(Topic::Seasons, "tt1");
    assert_eq!((reply.status, reply.error.as_str()), (404, "Series not found on TMDB"));
    assert_eq!(missing_reply(Topic::Episodes, "").error, "Episodes not found on TMDB");
    assert_eq!(missing_reply(Topic::Movie, "").error, "Movie not found on TMDB");
    assert_eq!(missing_reply(Topic::Person, "").error, "Person not found on TMDB");
    assert_eq!(missing_reply(Topic::Media, "").error, "Media not found on TMDB");
    assert_eq!(missing_reply(Topic::ShelfPage, "abc").error, "Shelf 'abc' not found");
    let reply = failed_reply(Topic::Movie, "timeout");
    assert_eq!((reply.status, reply.error.as_str()), (500, "Failed to fetch movie metadata: timeout"));
    assert_eq!(failed_reply(Topic::Feeds, "x").error, "Failed to fetch home feeds: x");
    assert_eq!(failed_reply(Topic::Seasons, "x").error, "Failed to fetch seasons: x");
    assert_eq!(failed_reply(Topic::Episodes, "x").error, "Failed to fetch episodes: x");
    assert_eq!(failed_reply(Topic::Person, "x").error, "Failed to fetch person details: x");
    assert_eq!(failed_reply(Topic::Media, "x").error, "Failed to resolve TMDB media: x");
    assert_eq!(failed_reply(Topic::ShelfPage, "x").error, "Failed to fetch shelf page: x");
}

#[test]
fn the_scheduler_plans_and_decides() {
    let mut imdb = ImdbConfig {
        base_url: String::new(),
        auto_update: true,
        check_interval_hours: 24,
    };
    assert_eq!(UpdateScheduler::plan(&imdb).unwrap().interval_secs, 86_400);
    imdb.check_interval_hours = 0;
    assert_eq!(UpdateScheduler::plan(&imdb).unwrap().interval_secs, 3600);
    imdb.auto_update = false;
    assert!(UpdateScheduler::plan(&imdb).is_none());
    assert_eq!(UpdateScheduler::step(Some(true), false), SchedulerStep::Index);
    assert_eq!(UpdateScheduler::step(Some(true), true), SchedulerStep::Skip);
    assert_eq!(UpdateScheduler::step(Some(false), false), SchedulerStep::Wait);
    assert_eq!(UpdateScheduler::step(None, false), SchedulerStep::Wait);
}

#[test]
fn moments_are_written_as_dates() {
    let moment = Moment { secs: 784_111_777, nanos: 1 };
    assert!(moment.can_be_written());
    assert_eq!(moment.to_rfc2822(), "Sun, 6 Nov 1994 08:49:37 +0000");
    assert_eq!(moment.nanos_since_epoch(), 784_111_777_000_000_001);
    assert_eq!(Moment { secs: -1, nanos: 5 }.nanos_since_epoch(), 0);
    assert!(!Moment { secs: 253_402_300_800, nanos: 0 }.can_be_written());
    assert!(Moment { secs: 253_402_300_799, nanos: 999_999_999 }.can_be_written());
    assert_eq!(
        Moment { secs: 253_402_300_799, nanos: 999_999_999 }.to_rfc2822(),
        "Fri, 31 Dec 9999 23:59:59 +0000"
    );
    assert!(Moment { secs: -62_167_219_200, nanos: 0 }.to_rfc2822().contains("0000 00:00:00"));
    assert!(!Moment { secs: -62_167_219_201, nanos: 0 }.can_be_written());
    assert!(!Moment { secs: 0, nanos: 1_000_000_000 }.can_be_written());
    assert_eq!(moment.to_date(), "1994-11-06");
    assert_eq!(Moment { secs: -1, nanos: 0 }.to_date(), "1969-12-31");
    assert!(Moment { secs: 8_210_266_876_799, nanos: 0 }.is_dated());
    assert_eq!(Moment { secs: 8_210_266_876_799, nanos: 0 }.to_date(), "+262142-12-31");
    assert!(!Moment { secs: 8_210_266_876_800, nanos: 0 }.is_dated());
    assert_eq!(Moment { secs: -8_334_601_228_800, nanos: 0 }.to_date(), "-262143-01-01");
    assert!(!Moment { secs: -8_334_601_228_801, nanos: 0 }.is_dated());
    assert!(!Moment { secs: 0, nanos: 1_000_000_000 }.is_dated());
}
