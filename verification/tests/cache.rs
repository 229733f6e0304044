use imdb_indexer::config::TmdbConfig;
use imdb_indexer::json::JsonError;
use imdb_indexer::moment::Moment;
use imdb_indexer::poster::cache::{Cache, CacheValue};
use imdb_indexer::poster::feeds::Shelf;
use imdb_indexer::poster::files::{
    flight_key, is_not_modified, poster_file_metadata, poster_shard,
};
use imdb_indexer::poster::images::{FoundMedia, MediaItem, PosterItem};
use imdb_indexer::poster::lookup::{FeedsStart, Start};
use imdb_indexer::poster::model::EpisodeMetadataItem;
use imdb_indexer::poster::series::TvDetails;
use imdb_indexer::poster::service::{PosterService, PosterStep};

const HOUR: u64 = 3_600_000_000_000;

/// The first of May 2024, shortly before midnight.
const TODAY: Moment = Moment { secs: 1_714_607_999, nanos: 0 };

fn service(key: &str) -> PosterService {
    PosterService::new(TmdbConfig::with_key(Some(key.to_string())))
}

fn path_in(value: Option<&CacheValue>) -> Option<String> {
    match value {
        Some(CacheValue::PosterPath(path)) => path.clone(),
        _ => None,
    }
}

fn path(text: &str) -> CacheValue {
    CacheValue::PosterPath(Some(text.to_string()))
}

#[test]
fn caches_forget_what_was_not_used_for_longest() {
    let mut cache = Cache::new(2);
    cache.put("a".to_string(), path("1"));
    cache.put("b".to_string(), path("2"));
    assert_eq!(path_in(cache.get("a")).as_deref(), Some("1"));
    cache.put("c".to_string(), path("3"));
    assert!(cache.get("b").is_none());
    assert_eq!(path_in(cache.get("a")).as_deref(), Some("1"));
    assert_eq!(path_in(cache.get("c")).as_deref(), Some("3"));
    cache.put("a".to_string(), path("4"));
    assert_eq!(path_in(cache.get("a")).as_deref(), Some("4"));
    assert_eq!(path_in(cache.get("c")).as_deref(), Some("3"));
}

#[test]
fn posters_have_places() {
    let keeper = service("k");
    let place = keeper.get_poster_path("tt0111161", "w185");
    assert_eq!((place.shard.as_str(), place.file_name.as_str()), ("61", "tt0111161_w185.jpg"));
    assert_eq!(poster_shard("tt0000005"), "05");
    assert_eq!(poster_shard("tmdb-5"), "00");
    assert_eq!(flight_key("tt1", "w92"), "tt1_w92");
    assert_eq!(keeper.config().default_size, "w185");
}

#[test]
fn files_have_tags() {
    let moment = Moment { secs: 1_700_000_000, nanos: 123_456_789 };
    let meta = poster_file_metadata("/p/61/tt0111161_w185.jpg", true, 20_480, moment).unwrap();
    assert_eq!(meta.etag, format!("W/\"{:x}-{:x}\"", 1_700_000_000_123_456_789u128, 20_480));
    assert_eq!(meta.path, "/p/61/tt0111161_w185.jpg");
    assert_eq!((meta.size, meta.modified), (20_480, moment));
    assert!(poster_file_metadata("x", true, 0, moment).is_none());
    assert!(poster_file_metadata("x", false, 10, moment).is_none());
    assert!(is_not_modified(Some(&meta.etag), &meta.etag));
    assert!(!is_not_modified(None, &meta.etag));
}

#[test]
fn the_placeholder_names_the_movie() {
    let svg = PosterService::render_svg_placeholder("tt0111161");
    assert!(svg.starts_with("<svg xmlns=\"http://www.w3.org/2000/svg\" viewBox=\"0 0 300 450\""));
    assert!(svg.contains(">tt0111161</text>"));
    assert!(svg.contains("Нет постера"));
    assert!(svg.ends_with("</svg>"));
}

#[test]
fn missing_posters_are_not_fetched_again() {
    let mut keeper = service("key");
    assert_eq!(keeper.next_poster_step("tt1", true, 0), PosterStep::Serve);
    assert_eq!(keeper.next_poster_step("tt1", false, 0), PosterStep::Fetch);
    keeper.record_missing("tt1", 5);
    assert_eq!(keeper.next_poster_step("tt1", false, 5), PosterStep::Refuse);
    assert_eq!(keeper.next_poster_step("tt1", false, 24 * HOUR + 4), PosterStep::Refuse);
    assert_eq!(keeper.next_poster_step("tt1", false, 24 * HOUR + 5), PosterStep::Fetch);
    assert_eq!(keeper.next_poster_step("tt1", false, 0), PosterStep::Refuse);
    assert_eq!(keeper.next_poster_step("tt2", false, 5), PosterStep::Fetch);
    keeper.record_missing("tmdb-1", 5);
    assert_eq!(keeper.next_poster_step("tmdb-1", false, 5), PosterStep::Fetch);
    assert_eq!(service(" ").next_poster_step("tt1", false, 0), PosterStep::Refuse);
}

#[test]
fn paths_are_remembered() {
    let mut keeper = service("");
    assert!(keeper.get_cached_paths("tt1375666").is_none());
    keeper.save_paths_to_cache(
        "tt1375666",
        Some("/piQXcdOGgv1O9HQ07pI0tnjkGJw.jpg".to_string()),
        Some("/ii8QGacT3MXESqBckQlyrATY0lT.jpg".to_string()),
    );
    let cached = keeper.get_cached_paths("tt1375666").unwrap();
    assert_eq!(cached.poster.as_deref(), Some("/piQXcdOGgv1O9HQ07pI0tnjkGJw.jpg"));
    assert_eq!(cached.backdrop.as_deref(), Some("/ii8QGacT3MXESqBckQlyrATY0lT.jpg"));
}

#[test]
fn the_poster_of_a_movie_is_found_once() {
    let mut keeper = service("key");
    match keeper.begin_poster_path("tt1") {
        Start::Ask(url) => assert!(url.contains("/find/tt1?")),
        _ => panic!("nothing is known yet"),
    }
    let media = FoundMedia { id: 1, is_tv: false, poster_path: Some("/known.jpg".to_string()) };
    let posters = vec![PosterItem {
        file_path: "/ru.jpg".to_string(),
        iso_639_1: Some("ru".to_string()),
        vote: 1,
    }];
    let found = keeper.finish_poster_path("tt1", Some(&media), Some(&posters)).clone();
    assert_eq!(found.as_deref(), Some("/ru.jpg"));
    assert!(matches!(keeper.begin_poster_path("tt1"), Start::Known(Some(p)) if p == "/ru.jpg"));
    assert!(keeper.finish_poster_path("tt2", None, None).is_none());
    assert!(matches!(keeper.begin_poster_path("tt2"), Start::Known(None)));
}

#[test]
fn a_movie_is_looked_up_once() {
    let mut keeper = service("key");
    assert!(matches!(keeper.begin_movie("tt1"), Start::Ask(_)));
    let media = FoundMedia { id: 603, is_tv: false, poster_path: None };
    let (details, english) =
        PosterService::read_movie_details(&media, "{\"title\":\"Матрица\"}".as_bytes()).unwrap();
    assert_eq!(english.as_deref(), Some("https://api.themoviedb.org/3/movie/603?language=en-US"));
    let body = br#"{"overview":"A hacker."}"#;
    let movie = keeper.finish_movie("tt1", &media, &details, Some(body)).clone();
    assert_eq!((movie.title.as_str(), movie.overview.as_deref()), ("Матрица", Some("A hacker.")));
    match keeper.begin_movie("tt1") {
        Start::Known(known) => assert_eq!(known.title, "Матрица"),
        _ => panic!("it was found"),
    }
    let broken = keeper.finish_movie("tt2", &media, &details, Some(b"{")).clone();
    assert_eq!(broken.overview, None);
    assert_eq!(PosterService::read_movie_details(&media, b"[").err(), Some(JsonError::Malformed));
    assert!(matches!(service("").begin_movie("tt1"), Start::Refused));
}

#[test]
fn a_person_is_looked_up_once() {
    let mut keeper = service("key");
    assert!(matches!(keeper.begin_person(6384), Start::Ask(_)));
    let (person, english) =
        PosterService::read_person(6384, r#"{"name":"Киану","biography":"Актёр"}"#.as_bytes()).unwrap();
    assert_eq!(english, None);
    assert_eq!(keeper.finish_person(6384, &person, None).name, "Киану");
    assert!(matches!(keeper.begin_person(6384), Start::Known(p) if p.name == "Киану"));
    assert!(matches!(keeper.begin_person(6385), Start::Ask(_)));
    assert!(matches!(service(" ").begin_person(6384), Start::Refused));
}

#[test]
fn media_are_resolved_once() {
    let mut keeper = service("");
    assert!(matches!(keeper.begin_resolve("tv", 1), Start::Ask(_)));
    assert_eq!(keeper.finish_resolve("tv", 1, b"x").err(), Some(JsonError::Malformed));
    assert!(matches!(keeper.begin_resolve("tv", 1), Start::Ask(_)));
    let doc = keeper.finish_resolve("tv", 1, br#"{"name":"x"}"#).unwrap().clone();
    assert_eq!((doc.tconst.as_str(), doc.title_type.as_str()), ("tmdb-1", "tvSeries"));
    assert!(matches!(keeper.begin_resolve("tv", 1), Start::Known(_)));
    assert!(matches!(keeper.begin_resolve("movie", 1), Start::Ask(_)));
}

#[test]
fn a_series_is_looked_up_once() {
    let mut keeper = service("key");
    assert!(matches!(keeper.begin_seasons("tt1"), Start::Ask(_)));
    let found = vec![MediaItem { id: 7, poster_path: None }];
    assert_eq!(
        PosterService::ask_series_details(&found).as_deref(),
        Some("https://api.themoviedb.org/3/tv/7?language=ru-RU&append_to_response=images&include_image_language=ru,en,null")
    );
    assert_eq!(PosterService::ask_series_details(&Vec::new()), None);
    let details = TvDetails {
        id: 7,
        name: "x".to_string(),
        original_name: "x".to_string(),
        overview: None,
        first_air_date: None,
        vote_average: None,
        backdrop_path: None,
        poster_path: None,
        number_of_seasons: 0,
        number_of_episodes: 0,
        genres: Vec::new(),
        networks: Vec::new(),
        status: None,
        seasons: vec![imdb_indexer::poster::model::SeriesSeasonItem {
            season_number: 2,
            name: String::new(),
            episode_count: 1,
            air_date: None,
            poster_path: None,
        }],
        images: None,
    };
    let seasons = keeper.finish_seasons("tt1", details).clone();
    assert_eq!(
        PosterService::ask_episodes(&seasons),
        vec!["https://api.themoviedb.org/3/tv/7/season/2?language=ru-RU".to_string()]
    );
    assert!(matches!(keeper.begin_seasons("tt1"), Start::Known(_)));
    assert!(keeper.cached_episodes("tt1").is_none());
    let episodes = vec![vec![EpisodeMetadataItem {
        season_number: 2,
        episode_number: 1,
        name: "e".to_string(),
        overview: None,
        air_date: None,
        still_path: None,
    }]];
    assert_eq!(keeper.finish_episodes("tt1", episodes).len(), 1);
    assert_eq!(keeper.cached_episodes("tt1").unwrap()[0].name, "e");
}

#[test]
fn the_home_page_is_kept_for_two_hours() {
    let mut keeper = service("key");
    match keeper.begin_feeds(0, TODAY) {
        FeedsStart::Ask(urls) => {
            assert_eq!(urls.len(), 4);
            assert!(urls[1].contains("&release_date.lte=2024-05-01&"));
        }
        _ => panic!("nothing is known yet"),
    }
    let bodies = vec![
        Some(r#"{"results":[{"id":1,"title":"А"}]}"#.as_bytes().to_vec()),
        None,
        Some(b"broken".to_vec()),
        Some(b"{}".to_vec()),
    ];
    let shelves = keeper.finish_feeds(10, &bodies).clone();
    let sizes: Vec<usize> = shelves.iter().map(|s| s.items.len()).collect();
    assert_eq!(sizes, vec![1, 0, 0, 0]);
    assert_eq!(shelves[3].id, "top_rated");
    assert!(matches!(keeper.begin_feeds(10 + 2 * HOUR - 1, TODAY), FeedsStart::Known(_)));
    assert!(matches!(keeper.begin_feeds(10 + 2 * HOUR, TODAY), FeedsStart::Ask(_)));
    assert!(matches!(service("").begin_feeds(0, TODAY), FeedsStart::Refused));
}

#[test]
fn pages_of_shelves_are_kept_for_an_hour() {
    let mut keeper = service("key");
    match keeper.begin_shelf_page("trending", 2, 0, TODAY) {
        Start::Ask(url) => assert!(url.ends_with("&page=2")),
        _ => panic!("nothing is known yet"),
    }
    match keeper.begin_shelf_page("digital", 7, 0, TODAY) {
        Start::Ask(url) => assert!(url.contains("&release_date.lte=2024-05-01&") && url.ends_with("&page=7")),
        _ => panic!("nothing is known yet"),
    }
    assert!(matches!(keeper.begin_shelf_page("nope", 2, 0, TODAY), Start::Refused));
    assert_eq!(
        keeper.finish_shelf_page(Shelf::Trending, 2, 0, b"").err(),
        Some(JsonError::Malformed)
    );
    let page = keeper.finish_shelf_page(Shelf::Trending, 2, 100, b"{}").unwrap().clone();
    assert_eq!((page.id.as_str(), page.page), ("trending", Some(2)));
    assert!(matches!(keeper.begin_shelf_page("trending", 2, 100 + HOUR - 1, TODAY), Start::Known(_)));
    assert!(matches!(keeper.begin_shelf_page("trending", 2, 100 + HOUR, TODAY), Start::Ask(_)));
    assert!(matches!(keeper.begin_shelf_page("trending", 3, 100, TODAY), Start::Ask(_)));
    assert!(matches!(service("").begin_shelf_page("trending", 2, 0, TODAY), Start::Refused));
}
