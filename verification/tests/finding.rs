use imdb_indexer::index::document::MovieDoc;
use imdb_indexer::index::schema::{MovieSchema, RUSSIAN_ANALYZER};
use imdb_indexer::index::tokenizer::RussianYoFilter;
use imdb_indexer::search::plan::{
    build_query, Clause, QueryPlan, SearchParams, TextField, WordQuery,
};
use tantivy::collector::TopDocs;
use tantivy::query::{DisjunctionMaxQuery, FuzzyTermQuery, Query, TermQuery};
use tantivy::schema::{Field, IndexRecordOption, Term};
use tantivy::tokenizer::{
    SimpleTokenizer, TextAnalyzer, Token, TokenFilter, TokenStream, Tokenizer,
};

#[derive(Clone)]
struct YoFilter;

impl TokenFilter for YoFilter {
    type Tokenizer<T: Tokenizer> = YoTokenizer<T>;

    fn transform<T: Tokenizer>(self, tokenizer: T) -> YoTokenizer<T> {
        YoTokenizer(tokenizer)
    }
}

#[derive(Clone)]
struct YoTokenizer<T>(T);

impl<T: Tokenizer> Tokenizer for YoTokenizer<T> {
    type TokenStream<'a> = YoStream<T::TokenStream<'a>>;

    fn token_stream<'a>(&'a mut self, text: &'a str) -> Self::TokenStream<'a> {
        YoStream { tail: self.0.token_stream(text) }
    }
}

struct YoStream<T> {
    tail: T,
}

impl<T: TokenStream> TokenStream for YoStream<T> {
    fn advance(&mut self) -> bool {
        if !self.tail.advance() {
            return false;
        }
        let token = self.tail.token_mut();
        token.text = RussianYoFilter.filter(token.text.clone());
        true
    }

    fn token(&self) -> &Token {
        self.tail.token()
    }

    fn token_mut(&mut self) -> &mut Token {
        self.tail.token_mut()
    }
}

fn movie(tconst: &str, russian: &[&str], orig: &str) -> MovieDoc {
    MovieDoc {
        tconst: tconst.to_string(),
        title_ru: russian.first().map(|s| s.to_string()),
        title_orig: orig.to_string(),
        title_primary: orig.to_string(),
        russian_titles: russian.iter().map(|s| s.to_string()).collect(),
        year: Some(1999),
        title_type: "movie".to_string(),
        rating: None,
        num_votes: 2_050_000,
        genres: Vec::new(),
        runtime_minutes: None,
    }
}

fn way_query(schema: &MovieSchema, way: &WordQuery) -> Box<dyn Query> {
    let field = |f: TextField| {
        Field::from_field_id(match f {
            TextField::TitleRu => schema.f_title_ru,
            TextField::TitleOrig => schema.f_title_orig,
            TextField::TitlePrimary => schema.f_title_primary,
        })
    };
    match way {
        WordQuery::Exact { field: f, word, .. } => Box::new(TermQuery::new(
            Term::from_field_text(field(*f), word),
            IndexRecordOption::WithFreqsAndPositions,
        )),
        WordQuery::Fuzzy { field: f, word, typos, swap_is_one_typo, .. } => {
            Box::new(FuzzyTermQuery::new_prefix(
                Term::from_field_text(field(*f), word),
                *typos,
                *swap_is_one_typo,
            ))
        }
    }
}

/// The ids of the movies that the one word of a query finds.
fn found(movies: &[MovieDoc], query: &str) -> Vec<String> {
    let schema = MovieSchema::new();
    let index = tantivy::Index::create_in_ram(schema.schema.clone());
    let analyzer = TextAnalyzer::builder(SimpleTokenizer::default()).filter(YoFilter).build();
    index.tokenizers().register(RUSSIAN_ANALYZER, analyzer);
    let mut writer = index.writer_with_num_threads(1, 15_000_000).unwrap();
    for movie in movies {
        writer.add_document(schema.to_tantivy_doc(movie)).unwrap();
    }
    writer.commit().unwrap();
    let ways = match build_query(query, &SearchParams::default()) {
        Ok(QueryPlan::Text { clauses, .. }) => match &clauses[0] {
            Clause::Word { ways } => ways.clone(),
            other => panic!("{:?}", other),
        },
        other => panic!("{:?}", other),
    };
    let all = ways.iter().map(|way| way_query(&schema, way)).collect();
    let searcher = index.reader().unwrap().searcher();
    let hits = searcher.search(&DisjunctionMaxQuery::new(all), &TopDocs::with_limit(10)).unwrap();
    let mut ids: Vec<String> = hits
        .into_iter()
        .map(|(_, address)| {
            let doc: tantivy::TantivyDocument = searcher.doc(address).unwrap();
            schema.from_tantivy_doc(&doc).tconst
        })
        .collect();
    ids.sort();
    ids
}

fn shelf() -> Vec<MovieDoc> {
    vec![
        movie("tt0133093", &["Матрица", "Хакер"], "The Matrix"),
        movie("tt1160419", &[], "Dune"),
        movie("tt0468569", &["Тёмный рыцарь"], "The Dark Knight"),
    ]
}

#[test]
fn short_words_reach_the_words_that_they_begin() {
    assert_eq!(found(&shelf(), "dun"), vec!["tt1160419"]);
    assert_eq!(found(&shelf(), "dum"), Vec::<String>::new());
}

#[test]
fn further_russian_titles_are_found() {
    assert_eq!(found(&shelf(), "Хакер"), vec!["tt0133093"]);
    assert_eq!(found(&shelf(), "матрица"), vec!["tt0133093"]);
}

#[test]
fn letters_in_the_wrong_order_are_one_typo() {
    assert_eq!(found(&shelf(), "dnue"), vec!["tt1160419"]);
    assert_eq!(found(&shelf(), "dnuf"), Vec::<String>::new());
}

#[test]
fn yo_and_ye_find_the_same() {
    assert_eq!(found(&shelf(), "Тёмный"), vec!["tt0468569"]);
    assert_eq!(found(&shelf(), "ТЕМНЫЙ"), vec!["tt0468569"]);
}
