use imdb_indexer::index::document::MovieDoc;
use imdb_indexer::search::distance::levenshtein_distance;
use imdb_indexer::search::hits::{make_hit, poster_url, rank_hits, year_multiplier, SearchHit};
use imdb_indexer::search::plan::{
    build_query, max_typos, prepare_search, Clause, Filter, QueryPlan, SearchError, SearchParams,
    TextField, WordQuery,
};
use imdb_indexer::search::quality::{score_title, score_titles};

fn owned(items: &[&str]) -> Vec<String> {
    items.iter().map(|s| s.to_string()).collect()
}

fn movie(tconst: &str, ru: &str, orig: &str) -> MovieDoc {
    MovieDoc {
        tconst: tconst.to_string(),
        title_ru: Some(ru.to_string()),
        title_orig: orig.to_string(),
        title_primary: orig.to_string(),
        russian_titles: vec![ru.to_string()],
        year: Some(1999),
        title_type: "movie".to_string(),
        rating: None,
        num_votes: 0,
        genres: Vec::new(),
        runtime_minutes: None,
    }
}

fn params(query: &str) -> SearchParams {
    SearchParams { query: query.to_string(), ..SearchParams::default() }
}

#[test]
fn common_ends_do_not_matter() {
    assert_eq!(levenshtein_distance("темный рыцарь", "темные рыцарь"), 1);
    assert_eq!(levenshtein_distance("й", "е"), 1);
    assert_eq!(levenshtein_distance("xxkittenyy", "xxsittingyy"), 3);
    assert_eq!(levenshtein_distance("prefix", "prefix and more"), 9);
    assert_eq!(levenshtein_distance("ab", "ba"), 2);
}

#[test]
fn titles_with_yo_and_ye_match_alike() {
    let terms = owned(&["темный", "рыцарь"]);
    let yo = score_title("«ТЁМНЫЙ» рыцарь", "темный рыцарь", &terms).unwrap();
    let ye = score_title("«ТеМНЫЙ» рыцарь", "темный рыцарь", &terms).unwrap();
    assert_eq!(format!("{:?}", yo), format!("{:?}", ye));
    assert_eq!(yo.terms, vec![100, 100]);
    assert_eq!(yo.position, 11);
}

#[test]
fn further_titles_never_lower_a_score() {
    let terms = owned(&["матрица"]);
    let fewer = movie("tt1", "Матрица: Фильм", "The Matrix");
    let mut more = movie("tt1", "Матрица: Фильм", "The Matrix");
    more.russian_titles = owned(&["Хакер", "Матрица", "Матрица: Фильм"]);
    let worth = |m: &MovieDoc| {
        let scores = score_titles(m, "матрица", &terms).unwrap();
        scores.iter().map(|s| s.terms[0] * s.position).max().unwrap()
    };
    assert_eq!(worth(&fewer), 1300);
    assert_eq!(worth(&more), 1500);
    more.russian_titles.reverse();
    assert_eq!(worth(&more), 1500);
}

#[test]
fn distances_are_counted_in_characters() {
    assert_eq!(levenshtein_distance("матрица", "матрицо"), 1);
    assert_eq!(levenshtein_distance("kitten", "sitting"), 3);
    assert_eq!(levenshtein_distance("", "abc"), 3);
    assert_eq!(levenshtein_distance("abc", ""), 3);
    assert_eq!(levenshtein_distance("дюна", "дюна"), 0);
    assert_eq!(levenshtein_distance("ab", "ba"), 2);
    assert_eq!(levenshtein_distance("flaw", "lawn"), levenshtein_distance("lawn", "flaw"));
}

#[test]
fn distances_obey_the_triangle() {
    for a in ["дюна", "луна", "дно", ""] {
        for b in ["дюна", "луна", "дно", ""] {
            for c in ["дюна", "луна", "дно", ""] {
                assert!(
                    levenshtein_distance(a, c) <= levenshtein_distance(a, b) + levenshtein_distance(b, c)
                );
            }
        }
    }
}

#[test]
fn longer_words_may_have_more_typos() {
    let allowed: Vec<u8> = (0usize..9).map(max_typos).collect();
    assert_eq!(allowed, vec![0, 0, 0, 0, 1, 1, 1, 2, 2]);
}

#[test]
fn an_id_is_looked_up() {
    match build_query(" tt0114746 ", &params("")) {
        Ok(QueryPlan::Id(id)) => assert_eq!(id, "tt0114746"),
        other => panic!("{:?}", other),
    }
    assert!(matches!(build_query("tt1234", &params("")), Ok(QueryPlan::Text { .. })));
    assert!(matches!(build_query("tt01147x6", &params("")), Ok(QueryPlan::Text { .. })));
}

#[test]
fn a_query_without_words_fails() {
    let error = build_query(" !? ", &params("")).unwrap_err();
    assert_eq!(error, SearchError::NoWords);
    assert_eq!(error.message(), "Query contains no searchable words");
    assert!(matches!(prepare_search(&params("...")), Err(SearchError::NoWords)));
    assert!(matches!(prepare_search(&params("  ")), Ok(None)));
}

#[test]
fn a_query_is_planned() {
    let mut asked = params("");
    asked.title_type = Some("movie".to_string());
    asked.year_from = Some(1990);
    asked.min_votes = Some(1000);
    let (clauses, filters) = match build_query("Тёмный рыцарь 2008", &asked) {
        Ok(QueryPlan::Text { clauses, filters }) => (clauses, filters),
        other => panic!("{:?}", other),
    };
    assert_eq!(clauses.len(), 6);
    assert!(matches!(clauses[0], Clause::Year { from: 2008, to: 2009, boost: 250 }));
    match &clauses[1] {
        Clause::Phrase { field: TextField::TitleRu, words, boost: 150 } => {
            assert_eq!(words, &owned(&["темный", "рыцарь", "2008"]))
        }
        other => panic!("{:?}", other),
    }
    assert!(matches!(&clauses[2], Clause::Phrase { field: TextField::TitleOrig, boost: 100, .. }));
    match &clauses[3] {
        Clause::Word { ways } => {
            assert_eq!(ways.len(), 6);
            match &ways[0] {
                WordQuery::Exact { field: TextField::TitleRu, word, boost: 120 } => {
                    assert_eq!(word, "темный")
                }
                other => panic!("{:?}", other),
            }
            assert!(matches!(
                &ways[1],
                WordQuery::Fuzzy { field: TextField::TitleRu, typos: 1, boost: 30, .. }
            ));
            assert!(matches!(&ways[2], WordQuery::Exact { field: TextField::TitleOrig, boost: 80, .. }));
            assert!(matches!(
                &ways[5],
                WordQuery::Fuzzy { field: TextField::TitlePrimary, typos: 1, boost: 15, .. }
            ));
        }
        other => panic!("{:?}", other),
    }
    assert_eq!(filters.len(), 3);
    assert!(matches!(&filters[0], Filter::TitleType(t) if t == "movie"));
    assert!(matches!(filters[1], Filter::Years { from: 1990, to: 2101 }));
    assert!(matches!(filters[2], Filter::Votes { min: 1000 }));
}

#[test]
fn short_words_are_searched_for_as_beginnings() {
    let clauses = match build_query("Оно", &params("")) {
        Ok(QueryPlan::Text { clauses, .. }) => clauses,
        other => panic!("{:?}", other),
    };
    assert_eq!(clauses.len(), 1);
    match &clauses[0] {
        Clause::Word { ways } => {
            assert_eq!(ways.len(), 6);
            match &ways[0] {
                WordQuery::Exact { field: TextField::TitleRu, word, boost: 120 } => {
                    assert_eq!(word, "оно")
                }
                other => panic!("{:?}", other),
            }
            match &ways[1] {
                WordQuery::Fuzzy {
                    field: TextField::TitleRu,
                    word,
                    typos: 0,
                    swap_is_one_typo: true,
                    boost: 30,
                } => assert_eq!(word, "оно"),
                other => panic!("{:?}", other),
            }
            assert!(matches!(&ways[3], WordQuery::Fuzzy { field: TextField::TitleOrig, typos: 0, .. }));
            assert!(matches!(
                &ways[5],
                WordQuery::Fuzzy { field: TextField::TitlePrimary, typos: 0, .. }
            ));
        }
        other => panic!("{:?}", other),
    }
}

#[test]
fn the_last_year_of_all_is_a_limit_too() {
    let mut asked = params("tt0111161");
    asked.year_to = Some(u64::MAX);
    asked.limit = usize::MAX;
    match prepare_search(&asked) {
        Ok(Some(search)) => {
            assert!(matches!(&search.plan, QueryPlan::Id(id) if id == "tt0111161"));
            assert_eq!(search.candidates, 500);
        }
        other => panic!("{:?}", other),
    }
    asked.query = "  ".to_string();
    assert!(matches!(prepare_search(&asked), Ok(None)));
    asked.query = "!?".to_string();
    assert!(matches!(prepare_search(&asked), Err(SearchError::NoWords)));
    match build_query("Матрица", &asked) {
        Ok(QueryPlan::Text { filters, .. }) => {
            assert!(matches!(filters[0], Filter::Years { from: 1800, to: u64::MAX }))
        }
        other => panic!("{:?}", other),
    }
}

#[test]
fn filters_of_zero_votes_and_open_years() {
    let mut asked = params("");
    asked.min_votes = Some(0);
    asked.year_to = Some(2000);
    let filters = match build_query("Матрица", &asked) {
        Ok(QueryPlan::Text { filters, .. }) => filters,
        other => panic!("{:?}", other),
    };
    assert_eq!(filters.len(), 1);
    assert!(matches!(filters[0], Filter::Years { from: 1800, to: 2001 }));
}

#[test]
fn a_search_is_prepared() {
    let search = prepare_search(&params(" Дюна, 1984! 01984 ")).unwrap().unwrap();
    assert_eq!(search.year, Some(1984));
    assert_eq!(search.terms, owned(&["дюна"]));
    assert_eq!(search.clean, "дюна");
    assert_eq!(search.candidates, 200);
    let plain = prepare_search(&params("Властелин колец 3000")).unwrap().unwrap();
    assert_eq!(plain.year, None);
    assert_eq!(plain.clean, "властелин колец 3000");
}

#[test]
fn candidates_are_bounded() {
    for (limit, expected) in [(1usize, 100usize), (10, 100), (20, 200), (50, 500), (90, 500)] {
        let mut asked = params("x");
        asked.limit = limit;
        assert_eq!(prepare_search(&asked).unwrap().unwrap().candidates, expected);
    }
}

#[test]
fn defaults_of_a_search() {
    let asked = SearchParams::default();
    assert_eq!(asked.limit, 20);
    assert_eq!(tantivy::u64_to_f64(asked.popularity_boost_weight), 2.0);
    assert_eq!(tantivy::u64_to_f64(asked.rating_boost_weight), 0.5);
}

#[test]
fn titles_are_scored() {
    let terms = owned(&["матрицо"]);
    let score = score_title("Матрица", "матрицо", &terms).unwrap();
    assert_eq!(score.terms, vec![75]);
    assert_eq!(score.position, 10);
    let exact = score_title(" МАТРИЦО ", "матрицо", &terms).unwrap();
    assert_eq!(exact.terms, vec![100]);
    assert_eq!(exact.position, 15);
    assert!(score_title("???", "матрицо", &terms).is_none());
}

#[test]
fn positions_in_titles_count() {
    let terms = owned(&["клик"]);
    assert_eq!(score_title("Клик: с пультом по жизни", "клик", &terms).unwrap().position, 13);
    assert_eq!(score_title("Кликбейт", "клик", &terms).unwrap().position, 11);
    assert_eq!(score_title("Кликбейт", "клик", &terms).unwrap().terms, vec![85]);
    assert_eq!(score_title("Большой клик", "клик", &terms).unwrap().position, 11);
    assert_eq!(score_title("Большой куш", "клик", &terms).unwrap().position, 10);
    assert_eq!(score_title("Большой куш", "клик", &terms).unwrap().terms, vec![35]);
    let long = owned(&["интерстелар"]);
    assert_eq!(score_title("Интерстеллар", "интерстелар", &long).unwrap().terms, vec![75]);
    assert_eq!(score_title("Интерстеллары", "интерстелар", &long).unwrap().terms, vec![60]);
}

#[test]
fn all_titles_of_a_movie_are_scored() {
    let found = movie("tt0133093", "Матрица", "The Matrix");
    let scores = score_titles(&found, "матрица", &owned(&["матрица"])).unwrap();
    assert_eq!(scores.len(), 4);
    assert_eq!(scores[0].position, 15);
    assert_eq!(scores[1].position, 10);
    assert!(score_titles(&found, "", &Vec::new()).is_none());
}

#[test]
fn years_count_for_movies_of_the_year() {
    assert_eq!(year_multiplier(Some(1984), Some(1984)), 25);
    assert_eq!(year_multiplier(Some(1984), Some(2021)), 10);
    assert_eq!(year_multiplier(None, Some(1984)), 10);
    assert_eq!(year_multiplier(Some(1984), None), 10);
}

fn hit(tconst: &str, score: f64) -> SearchHit {
    make_hit(movie(tconst, "x", "x"), tantivy::f64_to_u64(score), 0, 0)
}

#[test]
fn hits_are_ranked_by_score() {
    let hits = vec![hit("tt1", 1.5), hit("tt2", 30.25), hit("tt3", 1.5), hit("tt4", 2.0)];
    let shown = rank_hits(hits, 3);
    let ids: Vec<&str> = shown.iter().map(|h| h.movie.tconst.as_str()).collect();
    assert_eq!(ids, vec!["tt2", "tt4", "tt1"]);
    assert_eq!(rank_hits(vec![hit("tt1", 0.5)], 10).len(), 1);
    assert!(rank_hits(Vec::new(), 10).is_empty());
}

#[test]
fn hits_say_where_the_posters_are() {
    let found = hit("tt0133093", 1.0);
    assert_eq!(found.poster_url, "/poster/tt0133093?size=w185&v=2");
    assert_eq!(found.posters.thumbnail, "/poster/tt0133093?size=w92&v=2");
    assert_eq!(found.posters.small, "/poster/tt0133093?size=w154&v=2");
    assert_eq!(found.posters.medium, "/poster/tt0133093?size=w185&v=2");
    assert_eq!(found.posters.large, "/poster/tt0133093?size=w342&v=2");
    assert_eq!(poster_url("a", "b"), "/poster/a?size=b&v=2");
}

#[test]
fn yo_and_ye_are_searched_for_alike() {
    let with_yo = prepare_search(&params("Тёмный рыцарь")).unwrap().unwrap();
    let with_ye = prepare_search(&params("темный Рыцарь")).unwrap().unwrap();
    assert_eq!(format!("{:?}", with_yo), format!("{:?}", with_ye));
    assert_eq!(with_yo.terms, owned(&["темный", "рыцарь"]));
    let loud = prepare_search(&params(" ВСЁ ВКЛЮЧЕНО 2 ")).unwrap().unwrap();
    let plain = prepare_search(&params(" ВСе ВКЛЮЧЕНО 2 ")).unwrap().unwrap();
    assert_eq!(format!("{:?}", loud), format!("{:?}", plain));
    for (yo, ye) in [
        ("«Тёмный» — №1", "«Темный» — №1"),
        ("ОДИССЁЯ ὈΔΥΣΣΕΎΣ", "ОДИССеЯ ὈΔΥΣΣΕΎΣ"),
        ("ΣЁΣ", "ΣеΣ"),
        ("  ё!  ", "  е!  "),
        ("\u{a0}tt0111161\u{2003}", "\u{a0}tt0111161\u{2003}"),
    ] {
        let a = prepare_search(&params(yo));
        let b = prepare_search(&params(ye));
        assert_eq!(format!("{:?}", a), format!("{:?}", b));
        let a = build_query(yo, &params(""));
        let b = build_query(ye, &params(""));
        assert_eq!(format!("{:?}", a), format!("{:?}", b));
    }
    let id = prepare_search(&params("\ttt0111161\n")).unwrap().unwrap();
    assert!(matches!(&id.plan, QueryPlan::Id(s) if s == "tt0111161"));
}
