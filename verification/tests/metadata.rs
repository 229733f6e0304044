use imdb_indexer::json::{parse_json, Json};
use imdb_indexer::poster::crew::extract_crew;
use imdb_indexer::poster::feeds::{
    home_shelf, parse_tmdb_results_to_feed_items, shelf_page, Shelf,
};
use imdb_indexer::poster::images::{choose_poster, pick_media, MediaItem, PosterItem};
use imdb_indexer::poster::model::{EpisodeMetadataItem, SeriesSeasonItem};
use imdb_indexer::poster::movie::{movie_metadata, needs_english_overview};
use imdb_indexer::poster::person::{needs_english_biography, person_details};
use imdb_indexer::poster::request::{
    authorize, details_url, english_url, find_url, has_key, image_url, images_url, media_url,
    person_english_url, person_url, season_url, series_url, Authorization,
};
use imdb_indexer::poster::resolve::resolve_media;
use imdb_indexer::poster::series::{
    numbered_seasons, series_episodes, series_seasons, ImageItem, SeriesImages, TvDetails,
};

fn json(text: &str) -> Json {
    parse_json(text.as_bytes()).unwrap()
}

const DETAILS: &str = r#"{
  "title": "Матрица", "original_title": "The Matrix", "overview": " ",
  "release_date": "1999-03-31", "vote_average": 8.2,
  "poster_path": "/p.jpg", "backdrop_path": "/b.jpg",
  "genres": [{"name": "боевик"}, {"id": 1}, {"name": "фантастика"}],
  "images": {"logos": [
    {"iso_639_1": "de", "file_path": "/de.png"},
    {"iso_639_1": "en", "file_path": "/en.png"},
    {"iso_639_1": "ru", "file_path": "/ru.png"}]},
  "credits": {
    "cast": [
      {"id": 6384, "name": "Киану Ривз", "character": "Neo", "order": 0, "profile_path": "/k.jpg"},
      {"id": 1, "character": "nobody"},
      {"name": "Кто-то", "order": 4294967296}],
    "crew": [
      {"id": 9, "name": "Джоэл Сильвер", "job": "Producer", "department": "Production"},
      {"id": 9340, "name": "Лана Вачовски", "job": "director", "department": "Directing"},
      {"id": 9340, "name": "Лана Вачовски", "job": "director"},
      {"id": 9340, "name": "Лана Вачовски", "job": "Executive Producer"},
      {"id": 7, "job": "Writer"},
      {"id": 8, "name": "Билл Поуп", "job": "Director of Photography"}]},
  "videos": {"results": [
    {"id": "a", "key": "k1", "site": "YouTube", "type": "Teaser", "official": true, "iso_639_1": "en", "name": "A"},
    {"id": "b", "key": "k2", "site": "youtube", "iso_639_1": "en"},
    {"id": "c", "key": "k3", "site": "YouTube", "type": "Teaser", "iso_639_1": "ru"},
    {"id": "d", "key": "k4", "site": "Vimeo", "type": "Trailer"},
    {"id": "e", "key": "", "site": "YouTube", "type": "Trailer"},
    {"id": "f", "key": "k6", "site": "YouTube", "type": "Trailer", "official": true, "published_at": "2020"}]}
}"#;

#[test]
fn the_metadata_of_a_movie() {
    let details = json(DETAILS);
    assert!(needs_english_overview(&details));
    let english = json(r#"{"overview": "A hacker."}"#);
    let movie = movie_metadata("tt0133093", 603, false, &details, Some(&english));
    assert_eq!((movie.tconst.as_str(), movie.tmdb_id), ("tt0133093", 603));
    assert_eq!((movie.title.as_str(), movie.original_title.as_str()), ("Матрица", "The Matrix"));
    assert_eq!(movie.overview.as_deref(), Some("A hacker."));
    assert_eq!(movie.premiered.as_deref(), Some("1999-03-31"));
    assert_eq!(movie.year, Some(1999));
    assert_eq!(movie.rating, Some(tantivy::f64_to_u64(8.2)));
    assert_eq!(movie.genres, vec!["боевик".to_string(), "фантастика".to_string()]);
    assert_eq!(movie.poster_path.as_deref(), Some("/p.jpg"));
    assert_eq!(movie.backdrop_path.as_deref(), Some("/b.jpg"));
    assert_eq!(movie.logo_path.as_deref(), Some("/ru.png"));

    assert_eq!(movie.cast.len(), 2);
    assert_eq!((movie.cast[0].id, movie.cast[0].order), (6384, Some(0)));
    assert_eq!(movie.cast[0].character.as_deref(), Some("Neo"));
    assert_eq!((movie.cast[1].id, movie.cast[1].order), (0, Some(0)));

    let crew: Vec<(&str, &str)> =
        movie.crew.iter().map(|c| (c.name.as_str(), c.job.as_str())).collect();
    assert_eq!(
        crew,
        vec![
            ("Лана Вачовски", "director"),
            ("Лана Вачовски", "Executive Producer"),
            ("Джоэл Сильвер", "Producer"),
            ("Билл Поуп", "Director of Photography"),
        ]
    );
    let videos: Vec<&str> = movie.videos.iter().map(|v| v.id.as_str()).collect();
    assert_eq!(videos, vec!["c", "f", "b", "a"]);
    assert_eq!(movie.videos[2].video_type, "Trailer");
    assert_eq!(movie.videos[1].published_at.as_deref(), Some("2020"));
}

#[test]
fn an_overview_in_russian_is_kept() {
    let details = json(r#"{"overview": "Хакер.", "name": "Сериал", "first_air_date": "soon"}"#);
    assert!(!needs_english_overview(&details));
    let english = json(r#"{"overview": "A hacker."}"#);
    let movie = movie_metadata("tt1", 1, true, &details, Some(&english));
    assert_eq!(movie.overview.as_deref(), Some("Хакер."));
    assert_eq!(movie.title, "Сериал");
    assert_eq!(movie.original_title, "");
    assert_eq!(movie.year, None);
    assert!(movie.logo_path.is_none() && movie.crew.is_empty() && movie.videos.is_empty());
    let bare = movie_metadata("tt1", 1, true, &json(r#"{"overview": ""}"#), None);
    assert_eq!(bare.overview, None);
}

#[test]
fn no_more_than_fifteen_of_the_cast_are_looked_at() {
    let people: Vec<String> = (0..20).map(|i| format!("{{\"name\":\"p{}\"}}", i)).collect();
    let details = json(&format!("{{\"credits\":{{\"cast\":[{}]}}}}", people.join(",")));
    assert_eq!(movie_metadata("tt1", 1, false, &details, None).cast.len(), 15);
}

#[test]
fn the_crew_of_a_series() {
    let details = json(
        r#"{
      "created_by": [{"id": 1, "name": "Винс", "profile_path": "/v.jpg"}, {"id": 1, "name": "Винс"}, {"id": 5}],
      "aggregate_credits": {"crew": [
        {"id": 2, "name": "Мишель", "jobs": [{"job": "Director", "episode_count": 10}, {"job": "writer", "episode_count": 2}]},
        {"id": 3, "name": "Адам", "jobs": [{"job": "DIRECTOR", "episode_count": 9}]},
        {"id": 4, "name": "Колин", "jobs": [{"job": "Director", "episode_count": 11}]},
        {"id": 6, "name": "Райан", "jobs": [{"job": "Director"}]},
        {"id": 7, "name": "Брайан", "jobs": [{"job": "Director", "episode_count": 3}]},
        {"id": 8, "name": "Питер", "jobs": [{"job": "Screenplay", "episode_count": 7}, {"job": "Editor"}]}]},
      "credits": {"crew": [
        {"id": 1, "name": "Винс", "job": "Executive Producer"},
        {"id": 9, "name": "Марк", "job": "Executive Producer", "department": "Production"},
        {"id": 2, "name": "Мишель", "job": "Producer"}]}
    }"#,
    );
    let shown = |is_tv: bool| -> Vec<(u64, String)> {
        extract_crew(is_tv, &details).into_iter().map(|c| (c.id, c.job)).collect()
    };
    let expected: Vec<(u64, String)> = [
        (1, "Creator"),
        (4, "Director"),
        (2, "Director"),
        (3, "Director"),
        (7, "Director"),
        (8, "Writer"),
        (2, "Writer"),
        (9, "Executive Producer"),
        (2, "Producer"),
    ]
    .iter()
    .map(|(id, job)| (*id, job.to_string()))
    .collect();
    assert_eq!(shown(true), expected);
    assert_eq!(shown(false).len(), 3);
    let crew = extract_crew(true, &details);
    assert_eq!(crew[0].department.as_deref(), Some("Writing"));
    assert_eq!(crew[0].profile_path.as_deref(), Some("/v.jpg"));
    assert_eq!(crew[1].department.as_deref(), Some("Directing"));
}

#[test]
fn the_crew_stops_growing() {
    let people: Vec<String> = (0..40)
        .map(|i| format!("{{\"id\":{},\"name\":\"p{}\",\"job\":\"Producer\"}}", i, i))
        .collect();
    let details = json(&format!("{{\"credits\":{{\"crew\":[{}]}}}}", people.join(",")));
    assert_eq!(extract_crew(false, &details).len(), 24);
}

#[test]
fn the_details_of_a_person() {
    let person = json(
        r#"{"name": "Киану", "biography": "", "birthday": "1964-09-02", "external_ids": {"imdb_id": "nm0000206"},
        "combined_credits": {
          "cast": [
            {"id": 603, "title": "Матрица", "character": "Neo", "job": "x", "release_date": "1999-03-31", "vote_average": 8, "vote_count": 100},
            {"title": "без id"}],
          "crew": [{"id": 2, "media_type": "tv", "name": "Сериал", "original_name": "Series", "job": "Producer", "department": "Production", "character": "y"}]}}"#,
    );
    assert!(needs_english_biography(&person));
    let english = json(r#"{"biography": "Actor."}"#);
    let details = person_details(6384, &person, Some(&english));
    assert_eq!((details.id, details.name.as_str()), (6384, "Киану"));
    assert_eq!(details.biography.as_deref(), Some("Actor."));
    assert_eq!(details.birthday.as_deref(), Some("1964-09-02"));
    assert_eq!(details.deathday, None);
    assert_eq!(details.imdb_id.as_deref(), Some("nm0000206"));
    assert_eq!(details.cast.len(), 1);
    let credit = &details.cast[0];
    assert_eq!((credit.id, credit.media_type.as_str(), credit.title.as_str()), (603, "movie", "Матрица"));
    assert_eq!((credit.character.as_deref(), credit.job.as_deref()), (Some("Neo"), None));
    assert_eq!((credit.year, credit.vote_count), (Some(1999), 100));
    assert_eq!(credit.vote_average, Some(tantivy::f64_to_u64(8.0)));
    let credit = &details.crew[0];
    assert_eq!((credit.media_type.as_str(), credit.title.as_str()), ("tv", "Сериал"));
    assert_eq!(credit.original_title.as_deref(), Some("Series"));
    assert_eq!((credit.character.as_deref(), credit.job.as_deref()), (None, Some("Producer")));
    assert_eq!(credit.department.as_deref(), Some("Production"));
}

#[test]
fn the_items_of_a_shelf() {
    let answer = json(
        r#"{"page": 3, "total_pages": 500, "total_results": 10000, "results": [
          {"id": 1, "title": "А", "release_date": "2024-01-01", "vote_average": 7.5, "vote_count": 9, "overview": "о"},
          {"id": 2, "title": ""},
          {"title": "без id"},
          {"id": 3, "name": "Б", "media_type": "person", "overview": " "}]}"#,
    );
    let items = parse_tmdb_results_to_feed_items(&answer, "tv");
    assert_eq!(items.len(), 2);
    assert_eq!((items[0].id, items[0].media_type.as_str(), items[0].year), (1, "tv", Some(2024)));
    assert_eq!(items[0].rating, Some(tantivy::f64_to_u64(7.5)));
    assert_eq!((items[1].title.as_str(), items[1].media_type.as_str()), ("Б", "person"));
    assert_eq!((items[1].vote_count, items[1].overview.as_deref()), (0, None));

    let page = shelf_page(Shelf::Digital, 7, &answer);
    assert_eq!((page.id.as_str(), page.icon.as_str()), ("digital", "film"));
    assert_eq!(page.title, "Свежие цифровые релизы");
    assert_eq!((page.page, page.total_pages, page.total_results), (Some(3), Some(500), Some(10000)));
    assert_eq!(page.items[0].media_type, "movie");
    assert_eq!(shelf_page(Shelf::Digital, 7, &json("{}")).page, Some(7));

    let home = home_shelf(Shelf::PopularSeries, Some(&answer));
    assert_eq!((home.page, home.total_pages, home.items.len()), (Some(1), None, 2));
    assert_eq!(home.items[0].media_type, "tv");
    assert!(home_shelf(Shelf::TopRated, None).items.is_empty());
}

#[test]
fn shelves_have_ids_and_addresses() {
    let ids: Vec<&str> = Shelf::home().into_iter().map(|s| s.id()).collect();
    assert_eq!(ids, vec!["trending", "digital", "popular_series", "top_rated"]);
    for shelf in Shelf::home() {
        assert_eq!(Shelf::with_id(shelf.id()), Some(shelf));
        assert_eq!(shelf.page_url("2024-05-01", 2), format!("{}&page=2", shelf.url("2024-05-01")));
    }
    assert_eq!(Shelf::with_id("nope"), None);
    assert_eq!(Shelf::Trending.title(), "В тренде на этой неделе");
    assert_eq!(Shelf::PopularSeries.title(), "Популярные сериалы");
    assert_eq!(Shelf::TopRated.title(), "Шедевры всех времён");
    assert_eq!(
        Shelf::Digital.url("2024-05-01"),
        "https://api.themoviedb.org/3/discover/movie?language=ru-RU&sort_by=primary_release_date.desc&release_date.lte=2024-05-01&with_release_type=4%7C5&vote_count.gte=30"
    );
    assert_eq!(Shelf::TopRated.icon(), "star");
    assert_eq!(
        Shelf::TopRated.page_url("x", 12),
        "https://api.themoviedb.org/3/movie/top_rated?language=ru-RU&vote_count.gte=1000&page=12"
    );
}

#[test]
fn media_known_by_their_tmdb_id() {
    let details = json(
        r#"{"external_ids": {"imdb_id": "tt0903747"}, "name": "Во все тяжкие", "original_name": "Breaking Bad",
        "first_air_date": "2008-01-20", "vote_average": 8.9, "vote_count": 4294967297, "runtime": 47, "genres": [{"name": "драма"}]}"#,
    );
    let doc = resolve_media("tv", 1396, &details);
    assert_eq!((doc.tconst.as_str(), doc.title_type.as_str()), ("tt0903747", "tvSeries"));
    assert_eq!(doc.title_ru.as_deref(), Some("Во все тяжкие"));
    assert_eq!((doc.title_orig.as_str(), doc.title_primary.as_str()), ("Breaking Bad", "Во все тяжкие"));
    assert_eq!(doc.russian_titles, vec!["Во все тяжкие".to_string()]);
    assert_eq!((doc.year, doc.num_votes, doc.runtime_minutes), (Some(2008), 1, Some(47)));
    assert_eq!(doc.genres, vec!["драма".to_string()]);
    let bare = resolve_media("movie", 603, &json(r#"{"original_title": "The Matrix"}"#));
    assert_eq!((bare.tconst.as_str(), bare.title_type.as_str()), ("tmdb-603", "movie"));
    assert_eq!((bare.title_ru, bare.title_primary.as_str()), (None, "The Matrix"));
    assert!(bare.russian_titles.is_empty());
}

fn image(path: &str, language: Option<&str>) -> ImageItem {
    ImageItem { file_path: path.to_string(), iso_639_1: language.map(|s| s.to_string()) }
}

fn series(images: Option<SeriesImages>, backdrop: Option<&str>) -> TvDetails {
    TvDetails {
        id: 1396,
        name: "Во все тяжкие".to_string(),
        original_name: "Breaking Bad".to_string(),
        overview: None,
        first_air_date: Some("2008-01-20".to_string()),
        vote_average: Some(tantivy::f64_to_u64(8.5)),
        backdrop_path: backdrop.map(|s| s.to_string()),
        poster_path: None,
        number_of_seasons: 5,
        number_of_episodes: 62,
        genres: vec!["драма".to_string()],
        networks: vec!["AMC".to_string(), "Netflix".to_string()],
        status: Some("Ended".to_string()),
        seasons: [0u32, 1, 2]
            .iter()
            .map(|n| SeriesSeasonItem {
                season_number: *n,
                name: format!("Сезон {}", n),
                episode_count: 7,
                air_date: None,
                poster_path: None,
            })
            .collect(),
        images,
    }
}

#[test]
fn the_seasons_of_a_series() {
    let images = SeriesImages {
        logos: vec![image("/x.png", None), image("/en.png", Some("en"))],
        backdrops: vec![image("/first.jpg", None)],
    };
    let shown = series_seasons("tt0903747", series(Some(images.clone()), None));
    assert_eq!((shown.tconst.as_str(), shown.tmdb_id), ("tt0903747", 1396));
    assert_eq!(shown.studio.as_deref(), Some("AMC"));
    assert_eq!(shown.logo_path.as_deref(), Some("/en.png"));
    assert_eq!(shown.backdrop_path.as_deref(), Some("/first.jpg"));
    assert_eq!(shown.premiered.as_deref(), Some("2008-01-20"));
    assert_eq!(shown.rating, Some(tantivy::f64_to_u64(8.5)));
    assert_eq!(shown.seasons.len(), 3);
    assert_eq!(numbered_seasons(&shown.seasons), vec![1, 2]);
    let known = series_seasons("tt1", series(Some(images), Some("/b.jpg")));
    assert_eq!(known.backdrop_path.as_deref(), Some("/b.jpg"));
    let bare = series_seasons("tt1", series(None, None));
    assert_eq!((bare.logo_path, bare.backdrop_path), (None, None));
    let russian = SeriesImages {
        logos: vec![image("/en.png", Some("en")), image("/ru.png", Some("ru"))],
        backdrops: Vec::new(),
    };
    assert_eq!(series_seasons("tt1", series(Some(russian), None)).logo_path.as_deref(), Some("/ru.png"));
}

fn episode(season: u32, number: u32, name: &str) -> EpisodeMetadataItem {
    EpisodeMetadataItem {
        season_number: season,
        episode_number: number,
        name: name.to_string(),
        overview: None,
        air_date: None,
        still_path: None,
    }
}

#[test]
fn episodes_are_ordered() {
    let seasons = vec![
        vec![episode(2, 1, "c"), episode(2, 2, "d")],
        Vec::new(),
        vec![episode(1, 2, "b"), episode(1, 1, "a"), episode(1, 2, "b2")],
    ];
    let names: Vec<String> = series_episodes(seasons).into_iter().map(|e| e.name).collect();
    assert_eq!(names, vec!["a", "b", "b2", "c", "d"]);
}

#[test]
fn movies_are_taken_before_series() {
    let movie = MediaItem { id: 1, poster_path: Some("/m.jpg".to_string()) };
    let show = MediaItem { id: 2, poster_path: None };
    let found = pick_media(&vec![movie.clone()], &vec![show.clone()]).unwrap();
    assert_eq!((found.id, found.is_tv, found.poster_path.as_deref()), (1, false, Some("/m.jpg")));
    let found = pick_media(&Vec::new(), &vec![show]).unwrap();
    assert_eq!((found.id, found.is_tv), (2, true));
    assert!(pick_media(&Vec::new(), &Vec::new()).is_none());
}

fn poster(path: &str, language: Option<&str>, vote: f64) -> PosterItem {
    PosterItem {
        file_path: path.to_string(),
        iso_639_1: language.map(|s| s.to_string()),
        vote: tantivy::f64_to_u64(vote),
    }
}

#[test]
fn russian_posters_are_taken_first() {
    let posters = vec![
        poster("/en.jpg", Some("en"), 9.9),
        poster("/ru1.jpg", Some("ru"), 5.0),
        poster("/ru2.jpg", Some("ru"), 5.0),
        poster("/ru3.jpg", Some("ru"), 4.0),
    ];
    assert_eq!(choose_poster(Some(&posters), None).as_deref(), Some("/ru2.jpg"));
    let others = vec![
        poster("/en.jpg", Some("en"), 1.0),
        poster("/none.jpg", None, 2.5),
        poster("/de.jpg", Some("de"), 10.0),
    ];
    assert_eq!(choose_poster(Some(&others), None).as_deref(), Some("/none.jpg"));
    let german = vec![poster("/de.jpg", Some("de"), 10.0)];
    assert_eq!(choose_poster(Some(&german), Some("/known.jpg")).as_deref(), Some("/known.jpg"));
    assert_eq!(choose_poster(None, Some("/known.jpg")).as_deref(), Some("/known.jpg"));
    assert_eq!(choose_poster(Some(&Vec::new()), None), None);
}

#[test]
fn requests_go_to_tmdb() {
    assert_eq!(
        find_url("tt1"),
        "https://api.themoviedb.org/3/find/tt1?external_source=imdb_id&language=ru-RU"
    );
    assert_eq!(
        images_url(true, 5),
        "https://api.themoviedb.org/3/tv/5/images?include_image_language=ru,en,null"
    );
    assert_eq!(
        details_url(true, 5),
        "https://api.themoviedb.org/3/tv/5?language=ru-RU&append_to_response=aggregate_credits,credits,videos,images&include_image_language=ru,en,null&include_video_language=ru,en,null"
    );
    assert_eq!(
        details_url(false, 5),
        "https://api.themoviedb.org/3/movie/5?language=ru-RU&append_to_response=credits,videos,images&include_image_language=ru,en,null&include_video_language=ru,en,null"
    );
    assert_eq!(english_url(false, 5), "https://api.themoviedb.org/3/movie/5?language=en-US");
    assert_eq!(
        series_url(5),
        "https://api.themoviedb.org/3/tv/5?language=ru-RU&append_to_response=images&include_image_language=ru,en,null"
    );
    assert_eq!(season_url(5, 2), "https://api.themoviedb.org/3/tv/5/season/2?language=ru-RU");
    assert_eq!(
        person_url(5),
        "https://api.themoviedb.org/3/person/5?language=ru-RU&append_to_response=combined_credits,external_ids"
    );
    assert_eq!(person_english_url(5), "https://api.themoviedb.org/3/person/5?language=en-US");
    assert_eq!(
        media_url("tv", 5),
        "https://api.themoviedb.org/3/tv/5?language=ru-RU&append_to_response=external_ids"
    );
    assert_eq!(image_url("w185", "/p.jpg"), "https://image.tmdb.org/t/p/w185/p.jpg");
}

#[test]
fn long_keys_are_tokens() {
    let short = "k".repeat(40);
    let long = "k".repeat(41);
    assert!(matches!(authorize(&short), Authorization::Parameter(v) if v == short));
    assert!(matches!(authorize(&long), Authorization::Header(v) if v == format!("Bearer {}", long)));
    let wide = "ё".repeat(21);
    assert!(matches!(authorize(&wide), Authorization::Header(_)));
    assert!(has_key("k"));
    assert!(!has_key(" \t"));
}
