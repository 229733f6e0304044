use imdb_indexer::config::NoiseFilterConfig;
use imdb_indexer::downloader::{
    all_dumps, clean_base_url, dump_url, has_updates, next_check, partial_name, CheckStep,
    DownloaderState, DumpCheck, DumpHead, DUMP_AKAS, DUMP_BASICS, DUMP_RATINGS,
};
use imdb_indexer::ingestion::batch::{Batch, BATCH_SIZE};
use imdb_indexer::ingestion::rows::{
    movie_from_row, needs_indexing, read_aka_row, read_basics_row, read_rating_row, BasicsRow,
};
use imdb_indexer::ingestion::temp_store::{
    merge_title, pack_rating, parse_tconst_id, split_titles, unpack_rating,
};
use imdb_indexer::moment::Moment;

fn row(line: &str) -> Vec<Vec<u8>> {
    line.split('\t').map(|s| s.as_bytes().to_vec()).collect()
}

#[test]
fn ids_are_numbers_behind_tt() {
    assert_eq!(parse_tconst_id("tt0111161"), Some(111161));
    assert_eq!(parse_tconst_id("tt4294967295"), Some(u32::MAX));
    assert_eq!(parse_tconst_id("tt4294967296"), None);
    assert_eq!(parse_tconst_id("nm0000001"), None);
    assert_eq!(parse_tconst_id("tt"), None);
    assert_eq!(parse_tconst_id(""), None);
}

#[test]
fn ratings_are_packed_and_unpacked() {
    assert_eq!(pack_rating(87, 2_050_000), (87u64 << 32) | 2_050_000);
    for (tenths, votes) in [(87u8, 2_050_000u32), (0, 0), (100, u32::MAX), (93, 2_800_000)] {
        assert_eq!(unpack_rating(pack_rating(tenths, votes)), (tenths, votes));
    }
    let (tenths, votes) = unpack_rating(pack_rating(87, 2_050_000));
    assert_eq!((tenths as f32 / 10.0, votes), (8.7, 2_050_000));
}

#[test]
fn ids_are_read_with_zeros_in_front() {
    assert_eq!(parse_tconst_id("tt0000001"), Some(1));
    assert_eq!(parse_tconst_id("tt0133093"), Some(133093));
    assert_eq!(parse_tconst_id("tt00000000000004294967295"), Some(u32::MAX));
    assert_eq!(parse_tconst_id("tt00000000000004294967296"), None);
}

#[test]
fn batches_of_titles_are_kept_once() {
    let batch = [(1u32, "Матрица"), (2, "Начало"), (1, "Хакер"), (1, "Матрица")];
    let mut store: std::collections::HashMap<u32, String> = std::collections::HashMap::new();
    store.insert(1, "Хакер".to_string());
    store.insert(3, "Дюна".to_string());
    for _ in 0..2 {
        for (id, title) in batch {
            let held = store.get(&id).cloned();
            store.insert(id, merge_title(held.as_deref(), title));
        }
        assert_eq!(split_titles(&store[&1]), vec!["Хакер".to_string(), "Матрица".to_string()]);
        assert_eq!(split_titles(&store[&2]), vec!["Начало".to_string()]);
        assert_eq!(store[&3], "Дюна");
    }
}

#[test]
fn russian_titles_are_kept_once() {
    let first = merge_title(None, "Матрица");
    let second = merge_title(Some(&first), "Матрица: Фильм");
    let third = merge_title(Some(&second), "Матрица");
    assert_eq!(third, second);
    assert_eq!(split_titles(&third), vec!["Матрица".to_string(), "Матрица: Фильм".to_string()]);
    assert_eq!(split_titles(&first), vec!["Матрица".to_string()]);
}

#[test]
fn rows_of_ratings_are_read() {
    let read = read_rating_row(&row("tt0133093\t8.7\t2050000")).unwrap();
    assert_eq!((read.id, read.rating.as_str(), read.votes), (133093, "8.7", 2_050_000));
    assert_eq!(read_rating_row(&row("tt0133093\t8.7\tmany")).unwrap().votes, 0);
    assert!(read_rating_row(&row("tt0133093\t8.7")).is_none());
    assert!(read_rating_row(&row("tconst\t8.7\t1")).is_none());
    assert!(read_rating_row(&vec![vec![0xff], Vec::new(), Vec::new()]).is_none());
}

#[test]
fn rows_of_russian_titles_are_read() {
    let matrix = Some((133093, "Матрица".to_string()));
    assert_eq!(read_aka_row(&row("tt0133093\t1\tМатрица\tRU\t\\N")), matrix);
    assert_eq!(read_aka_row(&row("tt0133093\t1\tМатрица\tSU\t\\N")), matrix);
    assert_eq!(read_aka_row(&row("tt0133093\t1\tМатрица\tUA\tru")), matrix);
    assert_eq!(read_aka_row(&row("tt0133093\t1\tThe Matrix\tUS\ten")), None);
    assert_eq!(read_aka_row(&row("tt0133093\t1\tМатрица\tRUS\tRU")), None);
    assert_eq!(read_aka_row(&row("tt0133093\t1\t\\N\tRU\tru")), None);
    assert_eq!(read_aka_row(&row("tt0133093\t1\t\tRU\tru")), None);
    assert_eq!(read_aka_row(&row("tt0133093\t1\tМатрица\tRU")), None);
}

const BASICS: &str =
    "tt0133093\tmovie\tThe Matrix\tThe Matrix\t0\t1999\t\\N\t136\tAction, Sci-Fi";

fn basics(line: &str) -> BasicsRow {
    read_basics_row(&row(line), &Vec::new()).unwrap()
}

fn strict() -> NoiseFilterConfig {
    NoiseFilterConfig {
        enabled: true,
        min_votes: 0,
        filter_empty_titles: true,
        filter_zero_votes_no_year: true,
    }
}

#[test]
fn rows_of_titles_are_read() {
    let read = basics(BASICS);
    assert_eq!(read.id, 133093);
    assert_eq!(read.start_year, "1999");
    assert_eq!(read.runtime, "136");
    assert_eq!(read.genres, "Action, Sci-Fi");
    let allowed = vec!["tvSeries".to_string()];
    assert!(read_basics_row(&row(BASICS), &allowed).is_none());
    let both = vec!["tvSeries".to_string(), "movie".to_string()];
    assert!(read_basics_row(&row(BASICS), &both).is_some());
    assert!(read_basics_row(&row("tt0133093\tmovie"), &Vec::new()).is_none());
    assert!(read_basics_row(&row(&BASICS.replace("tt", "xx")), &Vec::new()).is_none());
}

#[test]
fn movies_are_made_of_rows() {
    let key = tantivy::f64_to_u64(8.7);
    let titles = vec!["Матрица".to_string(), "Матрица: Фильм".to_string()];
    let movie = movie_from_row(basics(BASICS), Some((key, 2_050_000)), Some(titles.clone()), &strict());
    let movie = movie.unwrap();
    assert_eq!(movie.tconst, "tt0133093");
    assert_eq!(movie.title_ru.as_deref(), Some("Матрица"));
    assert_eq!(movie.russian_titles, titles);
    assert_eq!(movie.year, Some(1999));
    assert_eq!(movie.rating, Some(key));
    assert_eq!(movie.num_votes, 2_050_000);
    assert_eq!(movie.genres, vec!["Action".to_string(), "Sci-Fi".to_string()]);
    assert_eq!(movie.runtime_minutes, Some(136));

    let bare = basics("tt1\tmovie\tOnly\t\\N\t0\t2000\t\\N\t\\N\t\\N");
    let movie = movie_from_row(bare, None, None, &strict()).unwrap();
    assert_eq!((movie.title_primary.as_str(), movie.title_orig.as_str()), ("Only", "Only"));
    assert_eq!((movie.rating, movie.num_votes, movie.runtime_minutes), (None, 0, None));
    assert!(movie.genres.is_empty() && movie.title_ru.is_none());
}

#[test]
fn noise_is_dropped() {
    let obscure = "tt9999999\tmovie\tNoisy Obscure\tNoisy Obscure\t0\t\\N\t\\N\t\\N\t\\N";
    assert!(movie_from_row(basics(obscure), None, None, &strict()).is_none());
    let russian = Some(vec!["Шум".to_string()]);
    assert!(movie_from_row(basics(obscure), None, russian.clone(), &strict()).is_some());
    assert!(movie_from_row(basics(obscure), Some((0, 1)), None, &strict()).is_some());

    let nameless = "tt9999999\tmovie\t\\N\t\t0\t1999\t\\N\t\\N\t\\N";
    assert!(movie_from_row(basics(nameless), Some((0, 9)), None, &strict()).is_none());

    let mut popular = strict();
    popular.min_votes = 100;
    assert!(movie_from_row(basics(BASICS), Some((0, 99)), None, &popular).is_none());
    assert!(movie_from_row(basics(BASICS), Some((0, 100)), None, &popular).is_some());
    assert!(movie_from_row(basics(BASICS), Some((0, 99)), russian, &popular).is_some());

    let mut off = popular;
    off.enabled = false;
    assert!(movie_from_row(basics(obscure), None, None, &off).is_some());
}

#[test]
fn batches_lose_no_row() {
    let rows = BATCH_SIZE * 2 + 7;
    let mut batch = Batch::new();
    let mut stored = Vec::new();
    let mut sizes = Vec::new();
    for i in 0..rows {
        if let Some(full) = batch.push(i) {
            sizes.push(full.len());
            stored.extend(full);
        }
    }
    if let Some(rest) = batch.finish() {
        sizes.push(rest.len());
        stored.extend(rest);
    }
    assert_eq!(sizes, vec![BATCH_SIZE, BATCH_SIZE, 7]);
    assert_eq!(stored, (0..rows).collect::<Vec<usize>>());
    assert!(Batch::<u8>::new().finish().is_none());
}

#[test]
fn the_index_is_built_when_something_changed() {
    assert!(needs_indexing(true, false));
    assert!(needs_indexing(false, true));
    assert!(!needs_indexing(false, false));
}

#[test]
fn dumps_have_names_and_addresses() {
    assert_eq!(all_dumps(), [DUMP_RATINGS, DUMP_AKAS, DUMP_BASICS]);
    assert_eq!(clean_base_url("https://datasets.imdbws.com//"), "https://datasets.imdbws.com");
    assert_eq!(clean_base_url("///"), "");
    assert_eq!(dump_url("https://x", DUMP_AKAS), "https://x/title.akas.tsv.gz");
    assert_eq!(partial_name(DUMP_BASICS), "title.basics.tsv.gz.download");
}

fn head(etag: Option<&str>, modified: Option<&str>) -> DumpHead {
    DumpHead {
        etag: etag.map(|s| s.to_string()),
        last_modified: modified.map(|s| s.to_string()),
        content_length: None,
    }
}

#[test]
fn downloads_are_remembered() {
    let now = Moment { secs: 1_700_000_000, nanos: 5 };
    let mut state = DownloaderState::empty();
    let said = head(Some("\"a\""), Some("Mon"));
    assert!(state.needs_download(DUMP_AKAS, false, true, &said));
    state.record_download(DUMP_AKAS, said.clone(), 42, now);
    assert!(!state.needs_download(DUMP_AKAS, false, true, &said));
    assert!(state.needs_download(DUMP_AKAS, true, true, &said));
    assert!(state.needs_download(DUMP_AKAS, false, false, &said));
    assert!(state.needs_download(DUMP_BASICS, false, true, &said));
    assert!(state.needs_download(DUMP_AKAS, false, true, &head(Some("\"b\""), None)));
    assert!(state.needs_download(DUMP_AKAS, false, true, &head(None, Some("Tue"))));
    assert!(!state.needs_download(DUMP_AKAS, false, true, &head(None, None)));

    let dump = state.get(DUMP_AKAS).unwrap();
    assert_eq!(dump.filename, DUMP_AKAS);
    assert_eq!(dump.content_length, Some(42));
    assert_eq!(dump.downloaded_at, Some(now));

    let mut longer = head(Some("\"c\""), None);
    longer.content_length = Some(7);
    state.record_download(DUMP_AKAS, longer, 42, now);
    assert_eq!(state.dumps.len(), 1);
    assert_eq!(state.get(DUMP_AKAS).unwrap().content_length, Some(7));
    assert_eq!(state.get(DUMP_AKAS).unwrap().last_modified, None);

    state.mark_checked(now);
    state.mark_indexed(now);
    assert_eq!((state.last_checked_at, state.last_indexed_at), (Some(now), Some(now)));
}

#[test]
fn dumps_are_checked() {
    let now = Moment { secs: 0, nanos: 0 };
    let mut state = DownloaderState::empty();
    let said = head(Some("\"a\""), None);
    assert_eq!(state.check_dump(DUMP_AKAS, false, None), DumpCheck::Absent);
    assert_eq!(state.check_dump(DUMP_AKAS, true, Some(&said)), DumpCheck::Changed);
    assert_eq!(state.check_dump(DUMP_AKAS, true, None), DumpCheck::Unchanged);
    state.record_download(DUMP_AKAS, said.clone(), 1, now);
    assert_eq!(state.check_dump(DUMP_AKAS, true, Some(&said)), DumpCheck::Unchanged);
    assert_eq!(
        state.check_dump(DUMP_AKAS, true, Some(&head(Some("\"b\""), None))),
        DumpCheck::Changed
    );
    assert!(!has_updates(&vec![DumpCheck::Unchanged, DumpCheck::Unchanged]));
    assert!(has_updates(&vec![DumpCheck::Unchanged, DumpCheck::Changed]));
    assert!(has_updates(&vec![DumpCheck::Absent]));
    assert!(!has_updates(&Vec::new()));
}

#[test]
fn dumps_are_looked_at_until_there_is_news() {
    let same = DumpCheck::Unchanged;
    assert!(matches!(next_check(&vec![]), CheckStep::Look(DUMP_RATINGS)));
    assert!(matches!(next_check(&vec![same]), CheckStep::Look(DUMP_AKAS)));
    assert!(matches!(next_check(&vec![same, same]), CheckStep::Look(DUMP_BASICS)));
    assert!(matches!(
        next_check(&vec![same, same, same]),
        CheckStep::End { news: false, remembered: true }
    ));
    assert!(matches!(
        next_check(&vec![same, DumpCheck::Changed]),
        CheckStep::End { news: true, remembered: true }
    ));
    assert!(matches!(
        next_check(&vec![DumpCheck::Absent]),
        CheckStep::End { news: true, remembered: false }
    ));
}
