//! What is searched for: the plan of a query.
//!
//! A plan says which queries the index is asked, with boosts in tenths.
use crate::index::tokenizer::{are_alike, normalize_query_text, normalized};
use crate::lists::{lemma_filter_map_keeps, lemma_views_push, views};
use crate::text::{
    all_digits, byte_len, chars_of, copy_texts, has_prefix, is_digit, join, joined,
    law_whitespace_is_cut_off, number_of, number_up_to, parse_u64, split_words, starts_with, text_opt, texts, trim, trimmed, trimmed_end_by,
    trimmed_start_by, whitespace, words,
};
use vstd::prelude::*;
use vstd::utf8::encode_utf8;

verus! {

// ---------------------------------------------------------------------------
// What is asked for
// ---------------------------------------------------------------------------

/// What is asked for. The weights are held as the 64-bit keys that `tantivy::f64_to_u64` gives
/// them.
#[derive(Debug, Clone)]
pub struct SearchParams {
    pub query: String,
    pub limit: usize,
    pub title_type: Option<String>,
    pub year_from: Option<u64>,
    pub year_to: Option<u64>,
    pub min_votes: Option<u64>,
    pub popularity_boost_weight: u64,
    pub rating_boost_weight: u64,
}

impl Default for SearchParams {
    fn default() -> (r: SearchParams)
        ensures
            r.query@.len() == 0,
            r.limit == 20,
            r.title_type is None,
            r.year_from is None,
            r.year_to is None,
            r.min_votes is None,
            r.popularity_boost_weight == 0xC000_0000_0000_0000u64,
            r.rating_boost_weight == 0xBFE0_0000_0000_0000u64,
    {
        SearchParams {
            query: String::new(),
            limit: 20,
            title_type: None,
            year_from: None,
            year_to: None,
            min_votes: None,
            popularity_boost_weight: 0xC000_0000_0000_0000,
            rating_boost_weight: 0xBFE0_0000_0000_0000,
        }
    }
}

/// Why a query cannot be searched for.
#[derive(Debug, Clone, Copy, PartialEq, Eq, Structural)]
pub enum SearchError {
    /// There is no word in it.
    NoWords,
}

impl SearchError {
    /// What is said about the error.
    pub fn message(self) -> (r: &'static str)
        ensures
            r@ == "Query contains no searchable words"@,
    {
        "Query contains no searchable words"
    }
}

// ---------------------------------------------------------------------------
// The plan
// ---------------------------------------------------------------------------

/// The fields in which words are searched for.
#[derive(Debug, Clone, Copy, PartialEq, Eq, Structural)]
pub enum TextField {
    TitleRu,
    TitleOrig,
    TitlePrimary,
}

/// One way to find a word.
#[derive(Debug, Clone)]
pub enum WordQuery {
    /// The word itself.
    Exact { field: TextField, word: String, boost: u32 },
    /// A word that begins like it, with at most so many typos. Two letters in the wrong order are
    /// one typo, if it is said so, else two.
    Fuzzy { field: TextField, word: String, typos: u8, swap_is_one_typo: bool, boost: u32 },
}

/// What a [`WordQuery`] holds.
pub enum WordQueryView {
    Exact { field: TextField, word: Seq<char>, boost: u32 },
    Fuzzy { field: TextField, word: Seq<char>, typos: u8, swap_is_one_typo: bool, boost: u32 },
}

impl View for WordQuery {
    type V = WordQueryView;

    open spec fn view(&self) -> WordQueryView {
        match *self {
            WordQuery::Exact { field, word, boost } => WordQueryView::Exact {
                field,
                word: word@,
                boost,
            },
            WordQuery::Fuzzy { field, word, typos, swap_is_one_typo, boost } => {
                WordQueryView::Fuzzy { field, word: word@, typos, swap_is_one_typo, boost }
            },
        }
    }
}

/// A part of a query; the more of them match, the better.
#[derive(Debug, Clone)]
pub enum Clause {
    /// A year, from the first and up to, but without, the second.
    Year { from: u64, to: u64, boost: u32 },
    /// Words one after the other.
    Phrase { field: TextField, words: Vec<String>, boost: u32 },
    /// A word, as well as the best of the ways to find it does.
    Word { ways: Vec<WordQuery> },
}

/// What a [`Clause`] holds.
pub enum ClauseView {
    Year { from: u64, to: u64, boost: u32 },
    Phrase { field: TextField, words: Seq<Seq<char>>, boost: u32 },
    Word { ways: Seq<WordQueryView> },
}

impl View for Clause {
    type V = ClauseView;

    open spec fn view(&self) -> ClauseView {
        match *self {
            Clause::Year { from, to, boost } => ClauseView::Year { from, to, boost },
            Clause::Phrase { field, words, boost } => ClauseView::Phrase {
                field,
                words: texts(words@),
                boost,
            },
            Clause::Word { ways } => ClauseView::Word { ways: views(ways@) },
        }
    }
}

/// What a hit must be, whatever is searched for.
#[derive(Debug, Clone)]
pub enum Filter {
    /// Of a type.
    TitleType(String),
    /// Of a year from the first and up to, but without, the second.
    Years { from: u64, to: u64 },
    /// With at least so many votes.
    Votes { min: u64 },
}

/// What a [`Filter`] holds.
pub enum FilterView {
    TitleType(Seq<char>),
    Years { from: u64, to: u64 },
    Votes { min: u64 },
}

impl View for Filter {
    type V = FilterView;

    open spec fn view(&self) -> FilterView {
        match *self {
            Filter::TitleType(s) => FilterView::TitleType(s@),
            Filter::Years { from, to } => FilterView::Years { from, to },
            Filter::Votes { min } => FilterView::Votes { min },
        }
    }
}

/// The plan of a query.
#[derive(Debug, Clone)]
pub enum QueryPlan {
    /// The one title with an IMDb id.
    Id(String),
    /// Titles that match some clauses and pass all filters.
    Text { clauses: Vec<Clause>, filters: Vec<Filter> },
}

/// What a [`QueryPlan`] holds.
pub enum PlanView {
    Id(Seq<char>),
    Text { clauses: Seq<ClauseView>, filters: Seq<FilterView> },
}

impl View for QueryPlan {
    type V = PlanView;

    open spec fn view(&self) -> PlanView {
        match *self {
            QueryPlan::Id(s) => PlanView::Id(s@),
            QueryPlan::Text { clauses, filters } => PlanView::Text {
                clauses: views(clauses@),
                filters: views(filters@),
            },
        }
    }
}

// ---------------------------------------------------------------------------
// Ids
// ---------------------------------------------------------------------------

/// Whether a query is an IMDb id: `tt`, and behind it digits alone, at least seven bytes in all.
pub open spec fn is_imdb_id(query: Seq<char>) -> bool {
    has_prefix(query, "tt"@) && encode_utf8(query).len() >= 7 && all_digits(query.skip(2))
}

fn digit(c: char) -> (r: bool)
    ensures
        r == is_digit(c),
{
    '0' <= c && c <= '9'
}

fn looks_like_id(query: &str) -> (r: bool)
    ensures
        r == is_imdb_id(query@),
{
    if !starts_with(query, "tt") || byte_len(query) < 7 {
        return false;
    }
    let chars = chars_of(query);
    proof {
        reveal_strlit("tt");
    }
    for i in 2..chars.len()
        invariant
            chars@ == query@,
            chars@.len() >= 2,
            forall|j: int| 2 <= j < i ==> is_digit(#[trigger] query@[j]),
    {
        if !digit(chars[i]) {
            proof {
                assert(query@.skip(2)[i - 2] == query@[i as int]);
            }
            return false;
        }
    }
    proof {
        assert forall|k: int| 0 <= k < query@.skip(2).len() implies is_digit(
            #[trigger] query@.skip(2)[k],
        ) by {
            assert(query@.skip(2)[k] == query@[k + 2]);
        }
    }
    true
}

// ---------------------------------------------------------------------------
// Years
// ---------------------------------------------------------------------------

/// The year that a word is, if it is one.
pub open spec fn year_in(word: Seq<char>) -> Option<u64> {
    match number_up_to(word, u64::MAX as nat) {
        Some(n) => if 1880 <= n <= 2040 {
            Some(n as u64)
        } else {
            None
        },
        None => None,
    }
}

/// The first year among some words.
pub open spec fn detected_year(terms: Seq<Seq<char>>) -> Option<u64>
    decreases terms.len(),
{
    if terms.len() == 0 {
        None
    } else {
        match year_in(terms[0]) {
            Some(year) => Some(year),
            None => detected_year(terms.skip(1)),
        }
    }
}

fn find_year(terms: &Vec<String>) -> (r: Option<u64>)
    ensures
        r == detected_year(texts(terms@)),
{
    let ghost all = texts(terms@);
    proof {
        assert(all.skip(0) =~= all);
    }
    for i in 0..terms.len()
        invariant
            all == texts(terms@),
            detected_year(all) == detected_year(all.skip(i as int)),
    {
        proof {
            assert(all.skip(i as int)[0] == terms@[i as int]@);
            assert(all.skip(i as int).skip(1) =~= all.skip(i as int + 1));
        }
        match parse_u64(terms[i].as_str()) {
            Some(n) => {
                if 1880 <= n && n <= 2040 {
                    return Some(n);
                }
            },
            None => {},
        }
    }
    None
}

/// A detected year is between 1880 and 2040.
pub proof fn law_detected_years(terms: Seq<Seq<char>>)
    ensures
        detected_year(terms) matches Some(year) ==> 1880 <= year <= 2040,
    decreases terms.len(),
{
    if terms.len() > 0 {
        law_detected_years(terms.skip(1));
    }
}

// ---------------------------------------------------------------------------
// Words
// ---------------------------------------------------------------------------

/// How many typos are allowed in a word: none in a short one, one in a longer one, and two in
/// a long one.
pub open spec fn allowed_typos(len: nat) -> u8 {
    if len <= 3 {
        0
    } else if len <= 6 {
        1
    } else {
        2
    }
}

/// How many typos are allowed in a word of a length.
pub fn max_typos(len: usize) -> (r: u8)
    ensures
        r == allowed_typos(len as nat),
{
    if len <= 3 {
        0
    } else if len <= 6 {
        1
    } else {
        2
    }
}

/// A longer word is allowed no fewer typos, and no word more than half of its letters.
pub proof fn law_typos_grow_with_length(shorter: nat, longer: nat)
    requires
        shorter <= longer,
    ensures
        allowed_typos(shorter) <= allowed_typos(longer) <= 2,
        allowed_typos(longer) * 2 <= longer,
{
}

/// What a field counts, in tenths.
pub open spec fn field_boost(field: TextField) -> u32 {
    match field {
        TextField::TitleRu => 30,
        TextField::TitleOrig => 20,
        TextField::TitlePrimary => 15,
    }
}

/// The ways to find a word in a field: as it is, which counts most, and as the beginning of a
/// word, with as many typos as are allowed.
pub open spec fn ways_in_field(field: TextField, word: Seq<char>) -> Seq<WordQueryView> {
    seq![
        WordQueryView::Exact { field, word, boost: (field_boost(field) * 4) as u32 },
        WordQueryView::Fuzzy {
            field,
            word,
            typos: allowed_typos(word.len()),
            swap_is_one_typo: true,
            boost: field_boost(field),
        },
    ]
}

/// The ways to find a word.
pub open spec fn ways_to_find(word: Seq<char>) -> Seq<WordQueryView> {
    ways_in_field(TextField::TitleRu, word) + ways_in_field(TextField::TitleOrig, word)
        + ways_in_field(TextField::TitlePrimary, word)
}

fn add_ways(ways: &mut Vec<WordQuery>, field: TextField, word: &str)
    ensures
        views(final(ways)@) == views(old(ways)@) + ways_in_field(field, word@),
{
    let boost: u32 = match field {
        TextField::TitleRu => 30,
        TextField::TitleOrig => 20,
        TextField::TitlePrimary => 15,
    };
    let ghost before = views(ways@);
    let exact = WordQuery::Exact { field, word: word.to_owned(), boost: boost * 4 };
    proof {
        lemma_views_push(ways@, exact);
    }
    ways.push(exact);
    let typos: u8 = max_typos(chars_of(word).len());
    let fuzzy = WordQuery::Fuzzy {
        field,
        word: word.to_owned(),
        typos,
        swap_is_one_typo: true,
        boost,
    };
    proof {
        lemma_views_push(ways@, fuzzy);
    }
    ways.push(fuzzy);
    proof {
        assert(views(ways@) =~= before + ways_in_field(field, word@));
    }
}

// ---------------------------------------------------------------------------
// Clauses
// ---------------------------------------------------------------------------

/// The clause for the year that a query names.
pub open spec fn year_clauses(year: Option<u64>) -> Seq<ClauseView> {
    match year {
        Some(y) => seq![ClauseView::Year { from: y, to: (y + 1) as u64, boost: 250 }],
        None => Seq::empty(),
    }
}

/// The clauses for the words of a query one after the other.
pub open spec fn phrase_clauses(terms: Seq<Seq<char>>) -> Seq<ClauseView> {
    if terms.len() > 1 {
        seq![
            ClauseView::Phrase { field: TextField::TitleRu, words: terms, boost: 150 },
            ClauseView::Phrase { field: TextField::TitleOrig, words: terms, boost: 100 },
        ]
    } else {
        Seq::empty()
    }
}

/// The clauses for the words of a query, each by itself.
pub open spec fn word_clauses(terms: Seq<Seq<char>>) -> Seq<ClauseView> {
    Seq::new(terms.len(), |i: int| ClauseView::Word { ways: ways_to_find(terms[i]) })
}

/// The clauses of a query.
pub open spec fn text_clauses(terms: Seq<Seq<char>>) -> Seq<ClauseView> {
    year_clauses(detected_year(terms)) + phrase_clauses(terms) + word_clauses(terms)
}

fn build_clauses(terms: &Vec<String>) -> (r: Vec<Clause>)
    ensures
        views(r@) == text_clauses(texts(terms@)),
{
    let ghost asked = texts(terms@);
    let mut out: Vec<Clause> = Vec::new();
    proof {
        law_detected_years(asked);
        assert(views(out@) =~= Seq::<ClauseView>::empty());
    }
    match find_year(terms) {
        Some(year) => {
            let clause = Clause::Year { from: year, to: year + 1, boost: 250 };
            proof {
                lemma_views_push(out@, clause);
            }
            out.push(clause);
        },
        None => {},
    }
    proof {
        assert(views(out@) =~= year_clauses(detected_year(asked)));
    }
    if terms.len() > 1 {
        let russian = Clause::Phrase {
            field: TextField::TitleRu,
            words: copy_texts(terms),
            boost: 150,
        };
        proof {
            lemma_views_push(out@, russian);
        }
        out.push(russian);
        let original = Clause::Phrase {
            field: TextField::TitleOrig,
            words: copy_texts(terms),
            boost: 100,
        };
        proof {
            lemma_views_push(out@, original);
        }
        out.push(original);
    }
    let ghost start = year_clauses(detected_year(asked)) + phrase_clauses(asked);
    proof {
        assert(views(out@) =~= start);
    }
    for i in 0..terms.len()
        invariant
            asked == texts(terms@),
            views(out@) =~= start + word_clauses(asked).take(i as int),
    {
        let word = terms[i].as_str();
        let mut ways: Vec<WordQuery> = Vec::new();
        proof {
            assert(views(ways@) =~= Seq::<WordQueryView>::empty());
        }
        add_ways(&mut ways, TextField::TitleRu, word);
        add_ways(&mut ways, TextField::TitleOrig, word);
        add_ways(&mut ways, TextField::TitlePrimary, word);
        proof {
            assert(views(ways@) =~= ways_to_find(word@));
            assert(word_clauses(asked)[i as int] == ClauseView::Word { ways: ways_to_find(word@) });
        }
        let clause = Clause::Word { ways };
        proof {
            lemma_views_push(out@, clause);
        }
        out.push(clause);
    }
    proof {
        let each = word_clauses(asked);
        assert(each.take(each.len() as int) =~= each);
    }
    out
}

// ---------------------------------------------------------------------------
// Filters
// ---------------------------------------------------------------------------

/// The number behind a year, or the last number of all where there is none behind it: no title is
/// of that year.
pub open spec fn behind(year: u64) -> u64 {
    if year < u64::MAX {
        (year + 1) as u64
    } else {
        year
    }
}

/// The filters that are asked for. A limit of the years that is missing stands for 1800 or 2100.
pub open spec fn filters_of(
    title_type: Option<Seq<char>>,
    year_from: Option<u64>,
    year_to: Option<u64>,
    min_votes: Option<u64>,
) -> Seq<FilterView> {
    let by_type = match title_type {
        Some(s) => seq![FilterView::TitleType(s)],
        None => Seq::empty(),
    };
    let by_year = if year_from is Some || year_to is Some {
        seq![
            FilterView::Years {
                from: match year_from {
                    Some(y) => y,
                    None => 1800,
                },
                to: behind(
                    match year_to {
                        Some(y) => y,
                        None => 2100,
                    },
                ),
            },
        ]
    } else {
        Seq::empty()
    };
    let by_votes = match min_votes {
        Some(n) => if n > 0 {
            seq![FilterView::Votes { min: n }]
        } else {
            Seq::empty()
        },
        None => Seq::empty(),
    };
    by_type + by_year + by_votes
}

/// The filters that are asked for.
pub open spec fn asked_filters(params: SearchParams) -> Seq<FilterView> {
    filters_of(text_opt(params.title_type), params.year_from, params.year_to, params.min_votes)
}

fn build_filters(params: &SearchParams) -> (r: Vec<Filter>)
    ensures
        views(r@) == asked_filters(*params),
{
    let mut out: Vec<Filter> = Vec::new();
    proof {
        assert(views(out@) =~= Seq::<FilterView>::empty());
    }
    match &params.title_type {
        Some(s) => {
            let filter = Filter::TitleType(s.clone());
            proof {
                lemma_views_push(out@, filter);
            }
            out.push(filter);
        },
        None => {},
    }
    if params.year_from.is_some() || params.year_to.is_some() {
        let from: u64 = params.year_from.unwrap_or(1800);
        let to: u64 = params.year_to.unwrap_or(2100);
        let filter = Filter::Years { from, to: to.saturating_add(1) };
        proof {
            lemma_views_push(out@, filter);
        }
        out.push(filter);
    }
    match params.min_votes {
        Some(min) => {
            if min > 0 {
                let filter = Filter::Votes { min };
                proof {
                    lemma_views_push(out@, filter);
                }
                out.push(filter);
            }
        },
        None => {},
    }
    proof {
        assert(views(out@) =~= asked_filters(*params));
    }
    out
}

// ---------------------------------------------------------------------------
// Queries
// ---------------------------------------------------------------------------

/// The words that a query is searched for by.
pub open spec fn query_words(query: Seq<char>) -> Seq<Seq<char>> {
    words(normalized(query))
}

/// The plan of a query by what it is without the whitespace round it, and by its words, if there
/// is something in it to search for.
pub open spec fn plan_of(
    bare: Seq<char>,
    terms: Seq<Seq<char>>,
    filters: Seq<FilterView>,
) -> Option<PlanView> {
    if is_imdb_id(bare) {
        Some(PlanView::Id(bare))
    } else if terms.len() == 0 {
        None
    } else {
        Some(PlanView::Text { clauses: text_clauses(terms), filters })
    }
}

/// The plan of a query, if there is something in it to search for.
pub open spec fn planned(query: Seq<char>, filters: Seq<FilterView>) -> Option<PlanView> {
    plan_of(trimmed(query), query_words(query), filters)
}

/// Whether what came of planning a query is its plan.
pub open spec fn is_plan(r: Result<QueryPlan, SearchError>, plan: Option<PlanView>) -> bool {
    match r {
        Ok(p) => plan == Some(p@),
        Err(e) => plan is None && e == SearchError::NoWords,
    }
}

proof fn lemma_trimmed_start_alike(a: Seq<char>, b: Seq<char>)
    requires
        are_alike(a, b),
    ensures
        ({
            let white = |c: char| whitespace(c);
            are_alike(trimmed_start_by(a, white), trimmed_start_by(b, white))
        }),
    decreases a.len(),
{
    if a.len() > 0 {
        assert(whitespace(a[0]) == whitespace(b[0]));
        assert(are_alike(a.skip(1), b.skip(1)));
        lemma_trimmed_start_alike(a.skip(1), b.skip(1));
    }
}

proof fn lemma_trimmed_end_alike(a: Seq<char>, b: Seq<char>)
    requires
        are_alike(a, b),
    ensures
        ({
            let white = |c: char| whitespace(c);
            are_alike(trimmed_end_by(a, white), trimmed_end_by(b, white))
        }),
    decreases a.len(),
{
    if a.len() > 0 {
        assert(a[a.len() - 1] == a.last());
        assert(whitespace(a.last()) == whitespace(b.last()));
        assert(are_alike(a.drop_last(), b.drop_last()));
        lemma_trimmed_end_alike(a.drop_last(), b.drop_last());
    }
}

proof fn lemma_trimmed_alike(a: Seq<char>, b: Seq<char>)
    requires
        are_alike(a, b),
    ensures
        are_alike(trimmed(a), trimmed(b)),
{
    let white = |c: char| whitespace(c);
    lemma_trimmed_start_alike(a, b);
    lemma_trimmed_end_alike(trimmed_start_by(a, white), trimmed_start_by(b, white));
}

proof fn lemma_ids_are_alike_only_to_themselves(a: Seq<char>, b: Seq<char>)
    requires
        are_alike(a, b),
        is_imdb_id(a) || is_imdb_id(b),
    ensures
        a == b,
{
    reveal_strlit("tt");
    let id = if is_imdb_id(a) {
        a
    } else {
        b
    };
    assert forall|i: int| 0 <= i < a.len() implies #[trigger] a[i] == b[i] by {
        if i < 2 {
            assert(id.take(2)[i] == "tt"@[i]);
        } else {
            assert(is_digit(id.skip(2)[i - 2]));
        }
    }
    assert(a =~= b);
}

proof fn lemma_plans_are_alike(
    a: Seq<char>,
    b: Seq<char>,
    terms: Seq<Seq<char>>,
    filters: Seq<FilterView>,
)
    requires
        are_alike(a, b),
    ensures
        plan_of(trimmed(a), terms, filters) == plan_of(trimmed(b), terms, filters),
{
    lemma_trimmed_alike(a, b);
    if is_imdb_id(trimmed(a)) || is_imdb_id(trimmed(b)) {
        lemma_ids_are_alike_only_to_themselves(trimmed(a), trimmed(b));
    }
}

/// The plan of a query: the title with the id that it is, or the titles that match its words. It is
/// the plan of every query that differs in `ё`, `Ё` and `е` alone.
pub fn build_query(raw_query: &str, params: &SearchParams) -> (r: Result<QueryPlan, SearchError>)
    ensures
        is_plan(r, planned(raw_query@, asked_filters(*params))),
        forall|other: Seq<char>| are_alike(other, raw_query@) ==> is_plan(
            r,
            #[trigger] planned(other, asked_filters(*params)),
        ),
{
    let bare = trim(raw_query);
    let normal = normalize_query_text(raw_query);
    let ghost filters = asked_filters(*params);
    proof {
        assert forall|other: Seq<char>| are_alike(other, raw_query@) implies #[trigger] planned(
            other,
            filters,
        ) == planned(raw_query@, filters) by {
            assert(normalized(other) == normal@);
            lemma_plans_are_alike(other, raw_query@, words(normal@), filters);
        }
    }
    if looks_like_id(bare.as_str()) {
        return Ok(QueryPlan::Id(bare));
    }
    let terms = split_words(normal.as_str());
    if terms.len() == 0 {
        return Err(SearchError::NoWords);
    }
    Ok(QueryPlan::Text { clauses: build_clauses(&terms), filters: build_filters(params) })
}

// ---------------------------------------------------------------------------
// Searches
// ---------------------------------------------------------------------------

/// Whether a word is not the year that a query names.
pub open spec fn is_not_year(word: Seq<char>, year: Option<u64>) -> bool {
    match (year, number_up_to(word, u64::MAX as nat)) {
        (Some(y), Some(n)) => n != y,
        _ => true,
    }
}

/// How the words are read that titles are scored by.
pub open spec fn term_reader(year: Option<u64>) -> spec_fn(Seq<char>) -> Option<Seq<char>> {
    |word: Seq<char>|
        if is_not_year(word, year) {
            Some(word)
        } else {
            None
        }
}

/// The words of a query that titles are scored by: all but the year.
pub open spec fn scoring_terms(terms: Seq<Seq<char>>) -> Seq<Seq<char>> {
    terms.filter_map(term_reader(detected_year(terms)))
}

/// How many candidates are ranked for so many hits.
pub open spec fn candidates_for(limit: nat) -> nat {
    if limit * 10 < 100 {
        100
    } else if limit * 10 > 500 {
        500
    } else {
        limit * 10
    }
}

/// All that is needed to search for a query and to rank what is found.
#[derive(Debug, Clone)]
pub struct Search {
    pub plan: QueryPlan,
    /// The year that the query names.
    pub year: Option<u64>,
    /// The words that titles are scored by.
    pub terms: Vec<String>,
    /// Those words with a space between each two.
    pub clean: String,
    /// How many candidates are ranked.
    pub candidates: usize,
}

/// Whether what came of preparing a search is what is to be done for a query.
pub open spec fn is_search(
    r: Result<Option<Search>, SearchError>,
    query: Seq<char>,
    filters: Seq<FilterView>,
    limit: nat,
) -> bool {
    let bare = trimmed(query);
    let plan = planned(bare, filters);
    let terms = query_words(bare);
    match r {
        Ok(None) => bare.len() == 0,
        Ok(Some(search)) => {
            &&& bare.len() > 0
            &&& plan == Some(search.plan@)
            &&& search.year == detected_year(terms)
            &&& texts(search.terms@) == scoring_terms(terms)
            &&& search.clean@ == joined(scoring_terms(terms), " "@)
            &&& search.candidates == candidates_for(limit)
        },
        Err(e) => bare.len() > 0 && plan is None && e == SearchError::NoWords,
    }
}

fn without_year(terms: &Vec<String>, year: Option<u64>) -> (r: Vec<String>)
    ensures
        texts(r@) == texts(terms@).filter_map(term_reader(year)),
{
    let ghost all = texts(terms@);
    let mut out: Vec<String> = Vec::new();
    for i in 0..terms.len()
        invariant
            all == texts(terms@),
            texts(out@) =~= all.take(i as int).filter_map(term_reader(year)),
    {
        proof {
            all.lemma_filter_map_take_succ(term_reader(year), i as int);
            assert(all[i as int] == terms@[i as int]@);
        }
        let word = terms[i].as_str();
        let is_year = match (year, parse_u64(word)) {
            (Some(y), Some(n)) => n == y,
            _ => false,
        };
        if !is_year {
            out.push(terms[i].clone());
        }
    }
    proof {
        assert(all.take(all.len() as int) =~= all);
    }
    out
}

/// What is to be done for a query: nothing for an empty one. It is what is to be done for every
/// query that differs in `ё`, `Ё` and `е` alone.
pub fn prepare_search(params: &SearchParams) -> (r: Result<Option<Search>, SearchError>)
    ensures
        is_search(r, params.query@, asked_filters(*params), params.limit as nat),
        forall|other: Seq<char>| are_alike(other, params.query@) ==> #[trigger] is_search(
            r,
            other,
            asked_filters(*params),
            params.limit as nat,
        ),
{
    let query = trim(params.query.as_str());
    let normal = normalize_query_text(query.as_str());
    let ghost filters = asked_filters(*params);
    proof {
        assert forall|other: Seq<char>| are_alike(other, params.query@) implies {
            &&& are_alike(#[trigger] trimmed(other), query@)
            &&& planned(trimmed(other), filters) == planned(query@, filters)
            &&& query_words(trimmed(other)) == query_words(query@)
        } by {
            lemma_trimmed_alike(other, params.query@);
            assert(normalized(trimmed(other)) == normal@);
            lemma_plans_are_alike(trimmed(other), query@, words(normal@), filters);
        }
    }
    if query.as_str().is_empty() {
        return Ok(None);
    }
    let plan = match build_query(query.as_str(), params) {
        Ok(plan) => plan,
        Err(e) => {
            return Err(e);
        },
    };
    let all = split_words(normal.as_str());
    let year = find_year(&all);
    let terms = without_year(&all, year);
    let clean = join(&terms, " ");
    let candidates: usize = if params.limit < 10 {
        100
    } else if params.limit > 50 {
        500
    } else {
        params.limit * 10
    };
    Ok(Some(Search { plan, year, terms, clean, candidates }))
}

/// Every word of a query is searched for, and each in every field.
pub proof fn law_every_word_is_searched_for(query: Seq<char>, filters: Seq<FilterView>, i: int)
    requires
        !is_imdb_id(trimmed(query)),
        0 <= i < query_words(query).len(),
    ensures
        planned(query, filters) matches Some(PlanView::Text { clauses, filters: f }) && f == filters
            && clauses.contains(ClauseView::Word { ways: ways_to_find(query_words(query)[i]) }),
{
    let terms = query_words(query);
    let clauses = text_clauses(terms);
    let start = year_clauses(detected_year(terms)) + phrase_clauses(terms);
    assert(clauses[start.len() + i] == word_clauses(terms)[i]);
}

/// What is to be done for a query is one thing: whatever comes twice of preparing a search for it
/// plans the same, and scores by the same year and words.
pub proof fn law_searches_are_determined(
    a: Result<Option<Search>, SearchError>,
    b: Result<Option<Search>, SearchError>,
    query: Seq<char>,
    filters: Seq<FilterView>,
    limit: nat,
)
    requires
        is_search(a, query, filters, limit),
        is_search(b, query, filters, limit),
    ensures
        match (a, b) {
            (Ok(Some(x)), Ok(Some(y))) => {
                &&& x.plan@ == y.plan@
                &&& x.year == y.year
                &&& texts(x.terms@) == texts(y.terms@)
                &&& x.clean@ == y.clean@
                &&& x.candidates == y.candidates
            },
            (Ok(None), Ok(None)) => true,
            (Err(e), Err(f)) => e == f,
            _ => false,
        },
{
}

/// Every word is searched for in every field, as it is and, with as many typos as are allowed in
/// it, as the beginning of a word.
pub proof fn law_words_are_found_by_their_beginnings(word: Seq<char>, field: TextField)
    ensures
        ways_to_find(word).contains(
            WordQueryView::Exact { field, word, boost: (field_boost(field) * 4) as u32 },
        ),
        ways_to_find(word).contains(
            WordQueryView::Fuzzy {
                field,
                word,
                typos: allowed_typos(word.len()),
                swap_is_one_typo: true,
                boost: field_boost(field),
            },
        ),
{
    let n: int = match field {
        TextField::TitleRu => 0,
        TextField::TitleOrig => 2,
        TextField::TitlePrimary => 4,
    };
    let ways = ways_to_find(word);
    assert(ways[n] == ways_in_field(field, word)[0]);
    assert(ways[n + 1] == ways_in_field(field, word)[1]);
}

/// Titles are scored by words of the query, and by none that is the year that it names.
pub proof fn law_the_year_is_not_scored(terms: Seq<Seq<char>>, i: int)
    requires
        0 <= i < scoring_terms(terms).len(),
    ensures
        terms.contains(scoring_terms(terms)[i]),
        is_not_year(scoring_terms(terms)[i], detected_year(terms)),
{
    let reader = term_reader(detected_year(terms));
    let term = scoring_terms(terms)[i];
    assert(terms.filter_map(reader).contains(term));
    terms.lemma_filter_map_contains(reader, term);
}

// ---------------------------------------------------------------------------
// What a plan finds
// ---------------------------------------------------------------------------

/// Whether a title of a type, of a year and with so many votes is let through by some filters.
pub open spec fn lets_through(
    filters: Seq<FilterView>,
    title_type: Seq<char>,
    year: u64,
    votes: u64,
) -> bool {
    forall|i: int|
        0 <= i < filters.len() ==> match #[trigger] filters[i] {
            FilterView::TitleType(wanted) => title_type == wanted,
            FilterView::Years { from, to } => from <= year < to,
            FilterView::Votes { min } => min <= votes,
        }
}

/// A planned search for words lets exactly those titles through that are of the type that is asked
/// for, not of a year before the first or behind the last that is asked for, and with no fewer votes
/// than are asked for. Where only one of the two years is given, this is said of the years from 1800
/// to 2100.
pub proof fn law_filters_are_what_is_asked_for(
    query: Seq<char>,
    params: SearchParams,
    title_type: Seq<char>,
    year: u64,
    votes: u64,
)
    requires
        planned(query, asked_filters(params)) is Some,
        1800 <= year <= 2100 || (year < u64::MAX && (params.year_from is Some) == (
        params.year_to is Some)),
    ensures
        match planned(query, asked_filters(params)) {
            Some(PlanView::Text { clauses, filters }) => lets_through(
                filters,
                title_type,
                year,
                votes,
            ) == {
                &&& params.title_type is Some ==> params.title_type.unwrap()@ == title_type
                &&& params.year_from is Some ==> params.year_from.unwrap() <= year
                &&& params.year_to is Some ==> year <= params.year_to.unwrap()
                &&& params.min_votes is Some ==> params.min_votes.unwrap() <= votes
            },
            _ => true,
        },
{
    let filters = asked_filters(params);
    let a: int = if params.title_type is Some {
        1
    } else {
        0
    };
    let b: int = if params.year_from is Some || params.year_to is Some {
        1
    } else {
        0
    };
    if params.title_type is Some {
        assert(filters[0] == FilterView::TitleType(params.title_type.unwrap()@));
    }
    if b == 1 {
        assert(filters[a] is Years);
    }
    if params.min_votes is Some && params.min_votes.unwrap() > 0 {
        assert(filters[a + b] == FilterView::Votes { min: params.min_votes.unwrap() });
    }
}

proof fn lemma_id_is_ascii(digits: Seq<char>)
    requires
        forall|i: int| 0 <= i < digits.len() ==> is_digit(#[trigger] digits[i]),
    ensures
        encode_utf8("tt"@ + digits).len() == digits.len() + 2,
        ("tt"@ + digits).take(2) == "tt"@,
        ("tt"@ + digits).skip(2) == digits,
{
    reveal_strlit("tt");
    let id = "tt"@ + digits;
    assert forall|i: int| 0 <= i < id.len() implies (#[trigger] id[i]) as u32 <= 0x7f by {
        if i >= 2 {
            assert(is_digit(digits[i - 2]));
        }
    }
    assert(vstd::utf8::is_ascii_chars(id));
    vstd::utf8::is_ascii_chars_encode_utf8(id);
    assert(id.take(2) =~= "tt"@);
    assert(id.skip(2) =~= digits);
}

/// An IMDb id, with whatever whitespace round it, is looked up by itself, whatever else is asked
/// for: `tt` and at least five digits from 0 to 9 are one.
pub proof fn law_ids_are_looked_up(
    before: Seq<char>,
    digits: Seq<char>,
    behind: Seq<char>,
    filters: Seq<FilterView>,
)
    requires
        forall|i: int| 0 <= i < before.len() ==> whitespace(#[trigger] before[i]),
        forall|i: int| 0 <= i < behind.len() ==> whitespace(#[trigger] behind[i]),
        digits.len() >= 5,
        forall|i: int| 0 <= i < digits.len() ==> '0' <= #[trigger] digits[i] && digits[i] <= '9',
    ensures
        planned(before + ("tt"@ + digits) + behind, filters) == Some(PlanView::Id("tt"@ + digits)),
{
    reveal_strlit("tt");
    let id = "tt"@ + digits;
    assert(forall|i: int| 0 <= i < digits.len() ==> is_digit(#[trigger] digits[i]));
    lemma_id_is_ascii(digits);
    assert(id[0] == 't');
    assert(id.last() == digits[digits.len() - 1]);
    law_whitespace_is_cut_off(before, id, behind);
}

/// Nothing but an IMDb id is looked up by itself: what is begins with `tt`, behind which only digits
/// stand, and it is what the query is without the whitespace round it.
pub proof fn law_only_ids_are_looked_up(query: Seq<char>, filters: Seq<FilterView>)
    ensures
        match planned(query, filters) {
            Some(PlanView::Id(id)) => {
                &&& id == trimmed(query)
                &&& id.len() >= 7
                &&& id[0] == 't' && id[1] == 't'
                &&& forall|i: int| 2 <= i < id.len() ==> '0' <= #[trigger] id[i] && id[i] <= '9'
            },
            _ => true,
        },
{
    reveal_strlit("tt");
    if is_imdb_id(trimmed(query)) {
        let id = trimmed(query);
        let digits = id.skip(2);
        assert(id.take(2)[0] == id[0] && id.take(2)[1] == id[1]);
        assert(id =~= "tt"@ + digits);
        lemma_id_is_ascii(digits);
        assert forall|i: int| 2 <= i < id.len() implies '0' <= #[trigger] id[i] && id[i] <= '9' by {
            assert(is_digit(digits[i - 2]));
        }
    }
}

/// The year of a query is the first of its words that is a number from 1880 to 2040, and there is
/// none where no word is.
pub proof fn law_the_first_year_is_detected(terms: Seq<Seq<char>>)
    ensures
        match detected_year(terms) {
            Some(year) => exists|i: int| #[trigger]
                is_first_year(terms, i) && number_of(terms[i]) == Some(year as nat),
            None => forall|i: int|
                0 <= i < terms.len() ==> !(number_of(#[trigger] terms[i]) matches Some(n) && 1880
                    <= n <= 2040),
        },
    decreases terms.len(),
{
    if terms.len() > 0 {
        let rest = terms.skip(1);
        assert(forall|i: int| 0 <= i < rest.len() ==> #[trigger] rest[i] == terms[i + 1]);
        law_the_first_year_is_detected(rest);
        if number_of(terms[0]) matches Some(n) && 1880 <= n <= 2040 {
            assert(is_first_year(terms, 0));
        } else {
            match detected_year(rest) {
                Some(year) => {
                    let i = choose|i: int| #[trigger]
                        is_first_year(rest, i) && number_of(rest[i]) == Some(year as nat);
                    assert forall|k: int| 0 <= k < i + 1 implies !(number_of(
                        #[trigger] terms[k],
                    ) matches Some(n) && 1880 <= n <= 2040) by {
                        if k > 0 {
                            assert(rest[k - 1] == terms[k]);
                        }
                    }
                    assert(is_first_year(terms, i + 1));
                },
                None => {
                    assert forall|i: int| 0 <= i < terms.len() implies !(number_of(
                        #[trigger] terms[i],
                    ) matches Some(n) && 1880 <= n <= 2040) by {
                        if i > 0 {
                            assert(rest[i - 1] == terms[i]);
                        }
                    }
                },
            }
        }
    }
}

/// Whether a word is a number from 1880 to 2040, and none before it is.
pub open spec fn is_first_year(terms: Seq<Seq<char>>, i: int) -> bool {
    &&& 0 <= i < terms.len()
    &&& number_of(terms[i]) matches Some(n) && 1880 <= n <= 2040
    &&& forall|k: int|
        0 <= k < i ==> !(number_of(#[trigger] terms[k]) matches Some(n) && 1880 <= n <= 2040)
}

/// A query that names a year is also searched for by it: the clause for the year comes first, counts
/// 25 times and is met by that year alone. Where no year is named there is no such clause.
pub proof fn law_the_year_is_searched_for(terms: Seq<Seq<char>>, other: u64, i: int)
    requires
        0 <= i < text_clauses(terms).len(),
    ensures
        match detected_year(terms) {
            Some(year) => match text_clauses(terms)[0] {
                ClauseView::Year { from, to, boost } => (from <= other < to <==> other == year)
                    && boost == 250,
                _ => false,
            },
            None => !(text_clauses(terms)[i] is Year),
        },
{
    law_detected_years(terms);
    let year = year_clauses(detected_year(terms));
    let phrases = phrase_clauses(terms);
    if detected_year(terms) is None {
        if i < phrases.len() {
            assert(text_clauses(terms)[i] == phrases[i]);
        } else {
            assert(text_clauses(terms)[i] == word_clauses(terms)[i - phrases.len()]);
        }
    } else {
        assert(text_clauses(terms)[0] == year[0]);
    }
}

/// Two or more words are searched for one after the other too, in the Russian and the original
/// titles; the Russian ones count more. One word alone is not.
pub proof fn law_words_are_searched_for_together(terms: Seq<Seq<char>>, i: int)
    requires
        0 <= i < text_clauses(terms).len(),
    ensures
        terms.len() >= 2 ==> text_clauses(terms).contains(
            ClauseView::Phrase { field: TextField::TitleRu, words: terms, boost: 150 },
        ) && text_clauses(terms).contains(
            ClauseView::Phrase { field: TextField::TitleOrig, words: terms, boost: 100 },
        ),
        terms.len() < 2 ==> !(text_clauses(terms)[i] is Phrase),
{
    let year = year_clauses(detected_year(terms));
    let n = year.len() as int;
    let all = text_clauses(terms);
    if terms.len() >= 2 {
        assert(all[n] == phrase_clauses(terms)[0]);
        assert(all[n + 1] == phrase_clauses(terms)[1]);
    } else if i < n {
        assert(all[i] == year[i]);
    } else {
        assert(all[i] == word_clauses(terms)[i - n]);
    }
}

/// A word of up to three letters is searched for without typos, one of up to six with one, and a
/// longer one with two. The word itself counts four times as much as one that begins like it, and a
/// Russian title more than an original one, and that more than a primary one.
pub proof fn law_ways_are_weighted(word: Seq<char>, i: int)
    requires
        0 <= i < ways_to_find(word).len(),
    ensures
        ways_to_find(word).len() == 6,
        ({
            let field = if i < 2 {
                TextField::TitleRu
            } else if i < 4 {
                TextField::TitleOrig
            } else {
                TextField::TitlePrimary
            };
            let weight: u32 = if i < 2 {
                30
            } else if i < 4 {
                20
            } else {
                15
            };
            let allowed: u8 = if word.len() <= 3 {
                0
            } else if word.len() <= 6 {
                1
            } else {
                2
            };
            match ways_to_find(word)[i] {
                WordQueryView::Exact { field: f, word: w, boost } => i % 2 == 0 && f == field && w
                    == word && boost == 4 * weight,
                WordQueryView::Fuzzy { field: f, word: w, typos, swap_is_one_typo, boost } => {
                    &&& i % 2 == 1
                    &&& f == field
                    &&& w == word
                    &&& typos == allowed
                    &&& swap_is_one_typo
                    &&& boost == weight
                },
            }
        }),
{
    let ways = ways_to_find(word);
    if i < 2 {
        assert(ways[i] == ways_in_field(TextField::TitleRu, word)[i]);
    } else if i < 4 {
        assert(ways[i] == ways_in_field(TextField::TitleOrig, word)[i - 2]);
    } else {
        assert(ways[i] == ways_in_field(TextField::TitlePrimary, word)[i - 4]);
    }
}

/// A word of the query scores titles unless it is the year that the query names.
pub proof fn law_every_other_word_is_scored(terms: Seq<Seq<char>>, i: int)
    requires
        0 <= i < terms.len(),
    ensures
        scoring_terms(terms).contains(terms[i]) <==> !(detected_year(terms) matches Some(year)
            && number_of(terms[i]) == Some(year as nat)),
        detected_year(terms) is None ==> scoring_terms(terms) == terms,
{
    let reader = term_reader(detected_year(terms));
    if is_not_year(terms[i], detected_year(terms)) {
        lemma_filter_map_keeps(terms, reader, i);
    } else if scoring_terms(terms).contains(terms[i]) {
        terms.lemma_filter_map_contains(reader, terms[i]);
    }
    if detected_year(terms) is None {
        lemma_reads_all(terms, reader);
    }
}

proof fn lemma_reads_all(terms: Seq<Seq<char>>, reader: spec_fn(Seq<char>) -> Option<Seq<char>>)
    requires
        forall|word: Seq<char>| #[trigger] reader(word) == Some(word),
    ensures
        terms.filter_map(reader) == terms,
    decreases terms.len(),
{
    if terms.len() > 0 {
        lemma_reads_all(terms.drop_last(), reader);
        assert(terms.drop_last() + seq![terms.last()] =~= terms);
    } else {
        assert(terms =~= Seq::empty());
    }
}

/// Ten times as many candidates are ranked as hits are shown, but at least 100 and at most 500.
pub proof fn law_candidates_are_bounded(limit: nat)
    ensures
        100 <= candidates_for(limit) <= 500,
        10 <= limit <= 50 ==> candidates_for(limit) == 10 * limit,
        limit <= 10 ==> candidates_for(limit) == 100,
        limit >= 50 ==> candidates_for(limit) == 500,
{
}

/// A query comes to a plan wherever there is one, and otherwise to the error that there are no words.
pub proof fn law_queries_come_to_a_plan(r: Result<QueryPlan, SearchError>, plan: Option<PlanView>)
    requires
        is_plan(r, plan),
    ensures
        r is Ok <==> plan is Some,
        r is Ok ==> plan == Some(r->Ok_0@),
        r is Err ==> r->Err_0 == SearchError::NoWords,
{
}

/// Whitespace round a query does not count. Nothing is searched for an empty one. For any other its
/// plan is followed, the year that it names and its other words are kept, these also in one text with
/// a space between each two, and the candidates are as many as the hits ask for. A query without a
/// plan comes to the error that there are no words.
pub proof fn law_a_search_follows_the_plan(
    r: Result<Option<Search>, SearchError>,
    before: Seq<char>,
    core: Seq<char>,
    behind: Seq<char>,
    filters: Seq<FilterView>,
    limit: nat,
)
    requires
        forall|i: int| 0 <= i < before.len() ==> whitespace(#[trigger] before[i]),
        forall|i: int| 0 <= i < behind.len() ==> whitespace(#[trigger] behind[i]),
        core.len() > 0 ==> !whitespace(core[0]) && !whitespace(core.last()),
        is_search(r, before + core + behind, filters, limit),
    ensures
        core.len() == 0 <==> r == Ok::<Option<Search>, SearchError>(None),
        r is Err <==> core.len() > 0 && planned(core, filters) is None,
        r is Err ==> r->Err_0 == SearchError::NoWords,
        core.len() > 0 && planned(core, filters) is Some ==> r is Ok && r->Ok_0 is Some && ({
            let search = r->Ok_0.unwrap();
            &&& planned(core, filters) == Some(search.plan@)
            &&& search.year == detected_year(query_words(core))
            &&& texts(search.terms@) == scoring_terms(query_words(core))
            &&& search.clean@ == joined(texts(search.terms@), seq![' '])
            &&& search.candidates == candidates_for(limit)
        }),
{
    reveal_strlit(" ");
    assert(" "@ =~= seq![' ']);
    law_whitespace_is_cut_off(before, core, behind);
}

} // verus!
