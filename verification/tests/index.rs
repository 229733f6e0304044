use imdb_indexer::index::document::MovieDoc;
use imdb_indexer::index::generation::{
    active_directory, generation_name, is_stale_generation, pointed_at, writer_budget,
};
use imdb_indexer::index::schema::{MovieSchema, RUSSIAN_ANALYZER};
use imdb_indexer::index::tokenizer::{normalize_query_text, normalize_yo, RussianYoFilter};
use tantivy::schema::{Field, FieldType, IndexRecordOption};
use tantivy::tokenizer::{
    LowerCaser, SimpleTokenizer, TextAnalyzer, Token, TokenFilter, TokenStream, Tokenizer,
};

#[derive(Clone)]
struct YoFilter;

impl TokenFilter for YoFilter {
    type Tokenizer<T: Tokenizer> = YoTokenizer<T>;

    fn transform<T: Tokenizer>(self, tokenizer: T) -> YoTokenizer<T> {
        YoTokenizer(tokenizer)
    }
}

#[derive(Clone)]
struct YoTokenizer<T>(T);

impl<T: Tokenizer> Tokenizer for YoTokenizer<T> {
    type TokenStream<'a> = YoStream<T::TokenStream<'a>>;

    fn token_stream<'a>(&'a mut self, text: &'a str) -> Self::TokenStream<'a> {
        YoStream { tail: self.0.token_stream(text) }
    }
}

struct YoStream<T> {
    tail: T,
}

impl<T: TokenStream> TokenStream for YoStream<T> {
    fn advance(&mut self) -> bool {
        if self.tail.advance() {
            let token = self.tail.token_mut();
            token.text = RussianYoFilter.filter(std::mem::take(&mut token.text));
            true
        } else {
            false
        }
    }

    fn token(&self) -> &Token {
        self.tail.token()
    }

    fn token_mut(&mut self) -> &mut Token {
        self.tail.token_mut()
    }
}

#[test]
fn test_yo_filter() {
    let mut analyzer = TextAnalyzer::builder(SimpleTokenizer::default())
        .filter(LowerCaser)
        .filter(YoFilter)
        .build();

    let mut stream = analyzer.token_stream("Тёмный Рыцарь: Возрождение легенды (Всё о кино)");
    let mut tokens = Vec::new();
    while stream.advance() {
        tokens.push(stream.token().text.clone());
    }

    assert_eq!(
        tokens,
        vec!["темный", "рыцарь", "возрождение", "легенды", "все", "о", "кино"]
    );
}

#[test]
fn yo_is_normalized() {
    assert_eq!(normalize_yo("Ёлка и ёж"), "елка и еж");
    assert_eq!(normalize_yo(&normalize_yo("Ёлка и ёж")), "елка и еж");
    assert_eq!(normalize_query_text("ТЁМНЫЙ Рыцарь"), "темный рыцарь");
    assert_eq!(normalize_query_text("ТЁМНЫЙ"), normalize_query_text("темный"));
    assert_eq!(RussianYoFilter.filter("кино".to_string()), "кино");
}

fn matrix() -> MovieDoc {
    MovieDoc {
        tconst: "tt0133093".to_string(),
        title_ru: Some("Матрица".to_string()),
        title_orig: "The Matrix".to_string(),
        title_primary: "The Matrix".to_string(),
        russian_titles: vec!["Матрица".to_string(), "Матрица: \"Фильм\"\t".to_string()],
        year: Some(1999),
        title_type: "movie".to_string(),
        rating: Some(tantivy::f64_to_u64(8.7)),
        num_votes: 2_050_000,
        genres: vec!["Action".to_string(), "Sci-Fi".to_string()],
        runtime_minutes: Some(136),
    }
}

fn assert_same(a: &MovieDoc, b: &MovieDoc) {
    assert_eq!(format!("{:?}", a), format!("{:?}", b));
}

#[test]
fn fields_are_declared_in_order() {
    let movie_schema = MovieSchema::new();
    let names: Vec<&str> = movie_schema.schema.fields().map(|(_, entry)| entry.name()).collect();
    assert_eq!(
        names,
        vec![
            "tconst",
            "title_ru",
            "title_orig",
            "title_primary",
            "title_ru_raw",
            "year",
            "num_votes",
            "runtime_minutes",
            "rating",
            "title_type",
            "genres"
        ]
    );
    let entry = movie_schema.schema.get_field_entry(Field::from_field_id(movie_schema.f_title_ru));
    match entry.field_type() {
        FieldType::Str(options) => {
            let indexing = options.get_indexing_options().unwrap();
            assert_eq!(indexing.tokenizer(), RUSSIAN_ANALYZER);
            assert_eq!(indexing.index_option(), IndexRecordOption::WithFreqsAndPositions);
            assert!(options.is_stored());
            assert!(!options.is_fast());
        }
        other => panic!("{:?}", other),
    }
    let id = movie_schema.schema.get_field_entry(Field::from_field_id(movie_schema.f_tconst));
    match id.field_type() {
        FieldType::Str(options) => {
            let indexing = options.get_indexing_options().unwrap();
            assert_eq!(indexing.tokenizer(), "raw");
            assert_eq!(indexing.index_option(), IndexRecordOption::Basic);
            assert!(options.is_stored() && options.is_fast());
        }
        other => panic!("{:?}", other),
    }
    let genres = movie_schema.schema.get_field_entry(Field::from_field_id(movie_schema.f_genres));
    match genres.field_type() {
        FieldType::Str(options) => {
            assert!(options.get_indexing_options().is_none() && options.is_stored());
        }
        other => panic!("{:?}", other),
    }
    let year = movie_schema.schema.get_field_entry(Field::from_field_id(movie_schema.f_year));
    assert!(matches!(year.field_type(), FieldType::U64(o) if o.is_indexed() && o.is_fast() && o.is_stored()));
    let rating = movie_schema.schema.get_field_entry(Field::from_field_id(movie_schema.f_rating));
    assert!(matches!(rating.field_type(), FieldType::F64(o) if !o.is_indexed() && o.is_fast() && o.is_stored()));
}

#[test]
fn movies_are_read_back_from_their_documents() {
    let movie_schema = MovieSchema::default();
    let movie = matrix();
    let doc = movie_schema.to_tantivy_doc(&movie);
    assert_same(&movie_schema.from_tantivy_doc(&doc), &movie);

    let mut bare = matrix();
    bare.title_ru = None;
    bare.russian_titles = Vec::new();
    bare.year = None;
    bare.rating = None;
    bare.genres = Vec::new();
    bare.runtime_minutes = None;
    assert_same(&movie_schema.from_tantivy_doc(&movie_schema.to_tantivy_doc(&bare)), &bare);
}

#[test]
fn words_are_indexed_in_lower_case() {
    assert_eq!(RussianYoFilter.filter("Рыцарь".to_string()), "рыцарь");
    assert_eq!(RussianYoFilter.filter("ЁЛКИ".to_string()), "елки");
    assert_eq!(RussianYoFilter.filter("Star".to_string()), "star");
    let mut analyzer = TextAnalyzer::builder(SimpleTokenizer::default()).filter(YoFilter).build();
    let mut stream = analyzer.token_stream("Тёмный РЫЦАРЬ");
    let mut tokens = Vec::new();
    while stream.advance() {
        tokens.push(stream.token().text.clone());
    }
    assert_eq!(tokens, vec!["темный", "рыцарь"]);
}

#[test]
fn texts_are_normalized_once() {
    for text in ["Всё о КИНО", "ЁЖ в тумане!", "Star Wars 1977", ""] {
        let normal = normalize_query_text(text);
        assert_eq!(normalize_query_text(&normal), normal);
        assert_eq!(normalize_query_text(&text.to_lowercase()), normal);
        assert_eq!(normalize_query_text(&normalize_yo(text)), normal);
    }
    assert_eq!(normalize_query_text("ЁЖ в тумане!"), "еж в тумане!");
    for c in '\u{0}'..='\u{7f}' {
        assert_eq!(normalize_query_text(&c.to_string()), c.to_ascii_lowercase().to_string());
    }
    assert_eq!(
        normalize_query_text("АБВГДЕЁЖЗИЙКЛМНОПРСТУФХЦЧШЩЪЫЬЭЮЯ"),
        "абвгдеежзийклмнопрстуфхцчшщъыьэюя"
    );
}

#[test]
fn any_text_is_normalized_once() {
    let texts = [
        "«Всё» — №1",
        "ОДИССЕЯ: ὈΔΥΣΣΕΎΣ Ё",
        "ΣЁ ΣЕ АΣ аΣё",
        "İstanbul ẞ K Ⅷ ǅ Ｘ",
        "ÉCOLE\u{a0}Ёлка",
        "\u{301}Ё\u{308}е",
    ];
    for text in texts {
        let normal = normalize_query_text(text);
        assert_eq!(normal, normalize_yo(&text.to_lowercase()));
        assert_eq!(normalize_query_text(&normal), normal);
        assert_eq!(normalize_query_text(&text.to_lowercase()), normal);
        assert_eq!(normalize_query_text(&normalize_yo(text)), normal);
        assert_eq!(RussianYoFilter.filter(normal.clone()), normal);
    }
    assert_eq!(normalize_query_text("«Всё» — №1"), "«все» — №1");
}

#[test]
fn lower_case_goes_by_the_character() {
    for c in ('\u{0}'..='\u{1ffff}').filter(|c| *c != 'Σ') {
        let lower = c.to_string().to_lowercase();
        assert_eq!(lower.to_lowercase(), lower, "{:?}", c);
        assert_eq!(lower.trim() == lower, !c.is_whitespace(), "{:?}", c);
        let mixed: String = ['Ё', c, 'Σ', c, 'е', 'Σ'].iter().collect();
        let plain: String = ['е', c, 'Σ', c, 'ё', 'Σ'].iter().collect();
        assert_eq!(normalize_query_text(&mixed), normalize_query_text(&plain), "{:?}", c);
        assert_eq!(mixed.to_lowercase().to_lowercase(), mixed.to_lowercase(), "{:?}", c);
    }
}

#[test]
fn every_russian_title_is_searched_in() {
    let movie_schema = MovieSchema::new();
    let mut movie = matrix();
    movie.title_ru = Some("Матрица".to_string());
    movie.russian_titles =
        vec!["Матрица".to_string(), "Хакер".to_string(), "Матрица: Фильм".to_string()];
    let doc = movie_schema.to_tantivy_doc(&movie);
    let mut found: Vec<String> = Vec::new();
    for value in doc.get_all(Field::from_field_id(movie_schema.f_title_ru)) {
        match value {
            tantivy::schema::OwnedValue::Str(s) => found.push(s.clone()),
            other => panic!("{:?}", other),
        }
    }
    assert_eq!(found, movie.russian_titles);
    assert_same(&movie_schema.from_tantivy_doc(&doc), &movie);

    movie.title_ru = None;
    let unnamed = movie_schema.to_tantivy_doc(&movie);
    assert!(unnamed.get_first(Field::from_field_id(movie_schema.f_title_ru)).is_none());
    assert_same(&movie_schema.from_tantivy_doc(&unnamed), &movie);
}

#[test]
fn documents_hold_the_values_of_the_fields() {
    let movie_schema = MovieSchema::new();
    let doc = movie_schema.to_tantivy_doc(&matrix());
    let field = |id: u32| Field::from_field_id(id);
    match doc.get_first(field(movie_schema.f_rating)) {
        Some(tantivy::schema::OwnedValue::F64(x)) => assert_eq!(*x, 8.7),
        other => panic!("{:?}", other),
    }
    match doc.get_first(field(movie_schema.f_genres)) {
        Some(tantivy::schema::OwnedValue::Str(s)) => assert_eq!(s, "Action, Sci-Fi"),
        other => panic!("{:?}", other),
    }
    match doc.get_first(field(movie_schema.f_num_votes)) {
        Some(tantivy::schema::OwnedValue::U64(n)) => assert_eq!(*n, 2_050_000),
        other => panic!("{:?}", other),
    }
}

#[test]
fn a_lone_russian_title_is_the_list() {
    let movie_schema = MovieSchema::new();
    let mut movie = matrix();
    movie.russian_titles = Vec::new();
    let read = movie_schema.from_tantivy_doc(&movie_schema.to_tantivy_doc(&movie));
    assert_eq!(read.russian_titles, vec!["Матрица".to_string()]);

    let mut broken = tantivy::TantivyDocument::new();
    broken.add_text(Field::from_field_id(movie_schema.f_title_ru_raw), "not json");
    let read = movie_schema.from_tantivy_doc(&broken);
    assert!(read.russian_titles.is_empty());
    assert_eq!(read.tconst, "");
    assert_eq!(read.num_votes, 0);
}

#[test]
fn a_genre_with_the_mark_in_it_is_split() {
    let movie_schema = MovieSchema::new();
    let mut movie = matrix();
    movie.genres = vec!["a, b".to_string()];
    let read = movie_schema.from_tantivy_doc(&movie_schema.to_tantivy_doc(&movie));
    assert_eq!(read.genres, vec!["a".to_string(), "b".to_string()]);
}

#[test]
fn generations_are_named_and_cleaned_up() {
    assert_eq!(generation_name(1700000000123), "gen_1700000000123");
    assert_eq!(generation_name(-5), "gen_-5");
    assert_eq!(generation_name(i64::MIN), format!("gen_{}", i64::MIN));
    assert!(is_stale_generation("gen_1", "gen_2"));
    assert!(!is_stale_generation("gen_2", "gen_2"));
    assert!(!is_stale_generation("active", "gen_2"));
    assert_eq!(pointed_at(" gen_7\n"), "gen_7");
    assert_eq!(active_directory(Some("gen_7"), true), "gen_7");
    assert_eq!(active_directory(Some("gen_7"), false), "active");
    assert_eq!(active_directory(None, false), "active");
    assert_eq!(writer_budget(50), 52_428_800);
}
