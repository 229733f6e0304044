//! How well the titles of a movie match the words of a query.
//!
//! Scores of words are in hundredths and multipliers in tenths.
use crate::index::document::{MovieDoc, MovieView};
use crate::index::tokenizer::{are_alike, normalize_query_text, normalized};
use crate::lists::{lemma_filter_map_keeps, lemma_views_push, views};
use crate::search::distance::{
    distance, law_distance_is_the_least_number_of_edits, law_distance_is_zero, levenshtein_distance,
    made_by_edits, one_edit,
};
use crate::text::{
    alphanumeric, chars_of, contains_text, has_prefix, same, split_words, starts_with, texts,
    trim, trimmed, words,
};
use vstd::prelude::*;

verus! {

// ---------------------------------------------------------------------------
// Words
// ---------------------------------------------------------------------------

/// The score of a word that is nothing like the word of the query.
pub const BASE_SCORE: u32 = 35;

/// How well a word of a title matches a word of the query: whole, as a beginning, or with one
/// or two typos.
pub open spec fn word_score(asked: Seq<char>, word: Seq<char>) -> u32 {
    if word == asked {
        100
    } else if has_prefix(word, asked) || has_prefix(asked, word) {
        85
    } else if distance(asked, word) == 1 {
        75
    } else if distance(asked, word) == 2 && asked.len() >= 6 {
        60
    } else {
        35
    }
}

/// How well the best of some words matches a word of the query.
pub open spec fn best_score(asked: Seq<char>, title: Seq<Seq<char>>) -> u32
    decreases title.len(),
{
    if title.len() == 0 {
        35
    } else {
        let before = best_score(asked, title.drop_last());
        let last = word_score(asked, title.last());
        if before >= last {
            before
        } else {
            last
        }
    }
}

/// How well the words of a title match each word of the query.
pub open spec fn term_scores(terms: Seq<Seq<char>>, title: Seq<Seq<char>>) -> Seq<u32> {
    Seq::new(terms.len(), |i: int| best_score(terms[i], title))
}

fn score_word(asked: &str, word: &str) -> (r: u32)
    ensures
        r == word_score(asked@, word@),
{
    if same(word, asked) {
        return 100;
    }
    if starts_with(word, asked) || starts_with(asked, word) {
        return 85;
    }
    let distance: usize = levenshtein_distance(asked, word);
    if distance == 1 {
        75
    } else if distance == 2 && chars_of(asked).len() >= 6 {
        60
    } else {
        BASE_SCORE
    }
}

fn score_term(asked: &str, title: &Vec<String>) -> (r: u32)
    ensures
        r == best_score(asked@, texts(title@)),
{
    let ghost all = texts(title@);
    let mut best: u32 = BASE_SCORE;
    for i in 0..title.len()
        invariant
            all == texts(title@),
            best == best_score(asked@, all.take(i as int)),
    {
        proof {
            let next = all.take(i as int + 1);
            assert(next.drop_last() =~= all.take(i as int));
            assert(next.last() == title@[i as int]@);
        }
        let score: u32 = score_word(asked, title[i].as_str());
        if score > best {
            best = score;
        }
    }
    proof {
        assert(all.take(all.len() as int) =~= all);
    }
    best
}

/// The score of a word is between that of a word that is nothing like it and that of the word
/// itself, which no other word has.
pub proof fn law_word_scores(asked: Seq<char>, word: Seq<char>)
    ensures
        35 <= word_score(asked, word) <= 100,
        word_score(asked, word) == 100 <==> word == asked,
{
}

/// The score of a term is that of the best of the words: none has a higher one, and one of them has
/// it, unless nothing is like the term. It is the full score exactly where the term itself is among
/// the words.
pub proof fn law_best_score(asked: Seq<char>, title: Seq<Seq<char>>)
    ensures
        forall|i: int|
            0 <= i < title.len() ==> word_score(asked, #[trigger] title[i]) <= best_score(
                asked,
                title,
            ),
        best_score(asked, title) == 35 || exists|i: int|
            0 <= i < title.len() && word_score(asked, #[trigger] title[i]) == best_score(
                asked,
                title,
            ),
        35 <= best_score(asked, title) <= 100,
        best_score(asked, title) == 100 <==> title.contains(asked),
    decreases title.len(),
{
    if title.len() > 0 {
        let before = title.drop_last();
        let last = title.last();
        law_best_score(asked, before);
        law_word_scores(asked, last);
        assert(title[title.len() - 1] == last);
        assert forall|i: int| 0 <= i < title.len() implies word_score(asked, #[trigger] title[i])
            <= best_score(asked, title) by {
            if i < before.len() {
                assert(before[i] == title[i]);
            }
        }
        if best_score(asked, before) >= word_score(asked, last) && best_score(asked, before) != 35 {
            let i = choose|i: int|
                0 <= i < before.len() && word_score(asked, #[trigger] before[i]) == best_score(
                    asked,
                    before,
                );
            assert(title[i] == before[i]);
        }
        if title.contains(asked) {
            let k = choose|k: int| 0 <= k < title.len() && title[k] == asked;
            law_word_scores(asked, title[k]);
        }
        if best_score(asked, title) == 100 {
            let i = choose|i: int|
                0 <= i < title.len() && word_score(asked, #[trigger] title[i]) == 100;
            law_word_scores(asked, title[i]);
        }
    }
}

/// Further words never lower the score of a term, and neither their order nor how often they come
/// matters.
pub proof fn law_more_words_score_no_less(
    asked: Seq<char>,
    fewer: Seq<Seq<char>>,
    more: Seq<Seq<char>>,
)
    requires
        forall|i: int| 0 <= i < fewer.len() ==> more.contains(#[trigger] fewer[i]),
    ensures
        best_score(asked, fewer) <= best_score(asked, more),
{
    law_best_score(asked, fewer);
    law_best_score(asked, more);
    if best_score(asked, fewer) != 35 {
        let i = choose|i: int|
            0 <= i < fewer.len() && word_score(asked, #[trigger] fewer[i]) == best_score(
                asked,
                fewer,
            );
        assert(more.contains(fewer[i]));
        let k = choose|k: int| 0 <= k < more.len() && more[k] == fewer[i];
        assert(word_score(asked, more[k]) <= best_score(asked, more));
    }
}

// ---------------------------------------------------------------------------
// Titles
// ---------------------------------------------------------------------------

/// The multiplier of a title: the query itself, the query at the beginning of a longer title,
/// all words of the query in it, or none of these.
pub open spec fn position_tenths(
    title: Seq<char>,
    title_words: Seq<Seq<char>>,
    query: Seq<char>,
    terms: Seq<Seq<char>>,
) -> u32 {
    if title == query {
        15
    } else if has_prefix(title, query) {
        if title.len() == query.len() || !alphanumeric(title[query.len() as int]) {
            13
        } else {
            11
        }
    } else if forall|i: int| 0 <= i < terms.len() ==> title_words.contains(#[trigger] terms[i]) {
        11
    } else {
        10
    }
}

/// How well a title matches the query.
#[derive(Debug, Clone)]
pub struct TitleScore {
    /// The score of each word of the query, in hundredths.
    pub terms: Vec<u32>,
    /// The multiplier for where in the title the query stands, in tenths.
    pub position: u32,
}

/// What a [`TitleScore`] holds.
pub struct TitleScoreView {
    pub terms: Seq<u32>,
    pub position: u32,
}

impl View for TitleScore {
    type V = TitleScoreView;

    open spec fn view(&self) -> TitleScoreView {
        TitleScoreView { terms: self.terms@, position: self.position }
    }
}

/// How well a title matches the query; a title without a word does not count.
pub open spec fn title_score(
    title: Seq<char>,
    query: Seq<char>,
    terms: Seq<Seq<char>>,
) -> Option<TitleScoreView> {
    let clean = trimmed(normalized(title));
    if words(clean).len() == 0 {
        None
    } else {
        Some(
            TitleScoreView {
                terms: term_scores(terms, words(clean)),
                position: position_tenths(clean, words(clean), query, terms),
            },
        )
    }
}

/// How a title is scored.
pub open spec fn title_scorer(query: Seq<char>, terms: Seq<Seq<char>>) -> spec_fn(
    Seq<char>,
) -> Option<TitleScoreView> {
    |title: Seq<char>| title_score(title, query, terms)
}

/// The titles of a movie, in the order in which they are looked at.
pub open spec fn all_titles(movie: MovieView) -> Seq<Seq<char>> {
    (match movie.title_ru {
        Some(title) => seq![title],
        None => Seq::empty(),
    }) + seq![movie.title_orig, movie.title_primary] + movie.russian_titles
}

fn score_position(title: &str, title_words: &Vec<String>, query: &str, terms: &Vec<String>) -> (r:
    u32)
    ensures
        r == position_tenths(title@, texts(title_words@), query@, texts(terms@)),
{
    if same(title, query) {
        return 15;
    }
    if starts_with(title, query) {
        let t = chars_of(title);
        let q = chars_of(query);
        if t.len() == q.len() || !t[q.len()].is_alphanumeric() {
            return 13;
        }
        return 11;
    }
    for i in 0..terms.len()
        invariant
            title@ != query@,
            !has_prefix(title@, query@),
            forall|j: int|
                0 <= j < i ==> texts(title_words@).contains(#[trigger] texts(terms@)[j]),
    {
        if !contains_text(title_words, terms[i].as_str()) {
            proof {
                assert(texts(terms@)[i as int] == terms@[i as int]@);
                assert(!texts(title_words@).contains(texts(terms@)[i as int]));
            }
            return 10;
        }
    }
    11
}

/// How well a title matches the query; a title without a word does not count. Every title that
/// differs in `ё`, `Ё` and `е` alone matches as well.
pub fn score_title(title: &str, query: &str, terms: &Vec<String>) -> (r: Option<TitleScore>)
    ensures
        match r {
            Some(score) => title_score(title@, query@, texts(terms@)) == Some(score@),
            None => title_score(title@, query@, texts(terms@)) is None,
        },
        forall|other: Seq<char>| are_alike(other, title@) ==> #[trigger] title_score(
            other,
            query@,
            texts(terms@),
        ) == title_score(title@, query@, texts(terms@)),
{
    let normal = normalize_query_text(title);
    proof {
        assert forall|other: Seq<char>| are_alike(other, title@) implies #[trigger] title_score(
            other,
            query@,
            texts(terms@),
        ) == title_score(title@, query@, texts(terms@)) by {
            assert(normalized(other) == normal@);
        }
    }
    let clean = trim(normal.as_str());
    let title_words = split_words(clean.as_str());
    if title_words.len() == 0 {
        return None;
    }
    let ghost asked = texts(terms@);
    let ghost wanted = term_scores(asked, texts(title_words@));
    let mut scores: Vec<u32> = Vec::new();
    for i in 0..terms.len()
        invariant
            asked == texts(terms@),
            wanted == term_scores(asked, texts(title_words@)),
            scores@ =~= wanted.take(i as int),
    {
        scores.push(score_term(terms[i].as_str(), &title_words));
    }
    let position: u32 = score_position(clean.as_str(), &title_words, query, terms);
    proof {
        assert(scores@ =~= wanted);
    }
    Some(TitleScore { terms: scores, position })
}

fn titles_of(movie: &MovieDoc) -> (r: Vec<String>)
    ensures
        texts(r@) == all_titles(movie@),
{
    let mut out: Vec<String> = Vec::new();
    match &movie.title_ru {
        Some(title) => {
            out.push(title.clone());
        },
        None => {},
    }
    out.push(movie.title_orig.clone());
    out.push(movie.title_primary.clone());
    let ghost start = texts(out@);
    for i in 0..movie.russian_titles.len()
        invariant
            texts(out@) =~= start + texts(movie.russian_titles@).take(i as int),
    {
        let ghost before = texts(out@);
        let title = movie.russian_titles[i].clone();
        proof {
            assert(texts(out@.push(title)) =~= before.push(title@));
        }
        out.push(title);
    }
    proof {
        let russian = texts(movie.russian_titles@);
        assert(russian.take(russian.len() as int) =~= russian);
        assert(texts(out@) =~= all_titles(movie@));
    }
    out
}

/// How well each title of a movie that has a word matches the query. Nothing is scored for a
/// query without words.
pub fn score_titles(movie: &MovieDoc, query: &str, terms: &Vec<String>) -> (r: Option<
    Vec<TitleScore>,
>)
    ensures
        match r {
            Some(scores) => terms@.len() > 0 && views(scores@) == movie_scores(
                movie@,
                query@,
                texts(terms@),
            ),
            None => terms@.len() == 0,
        },
{
    if terms.len() == 0 {
        return None;
    }
    let titles = titles_of(movie);
    let ghost all = texts(titles@);
    let ghost scorer = title_scorer(query@, texts(terms@));
    let mut out: Vec<TitleScore> = Vec::new();
    for i in 0..titles.len()
        invariant
            all == texts(titles@),
            scorer == title_scorer(query@, texts(terms@)),
            views(out@) =~= all.take(i as int).filter_map(scorer),
    {
        proof {
            all.lemma_filter_map_take_succ(scorer, i as int);
            assert(all[i as int] == titles@[i as int]@);
        }
        match score_title(titles[i].as_str(), query, terms) {
            Some(score) => {
                proof {
                    lemma_views_push(out@, score);
                }
                out.push(score);
            },
            None => {},
        }
    }
    proof {
        assert(all.take(all.len() as int) =~= all);
    }
    Some(out)
}

// ---------------------------------------------------------------------------
// The best title
// ---------------------------------------------------------------------------

/// How well each title of a movie that has a word matches the query.
pub open spec fn movie_scores(movie: MovieView, query: Seq<char>, terms: Seq<Seq<char>>) -> Seq<
    TitleScoreView,
> {
    all_titles(movie).filter_map(title_scorer(query, terms))
}

/// What the best of some scores is worth, and at least so much.
pub open spec fn best_worth(
    scores: Seq<TitleScoreView>,
    worth: spec_fn(TitleScoreView) -> int,
    least: int,
) -> int
    decreases scores.len(),
{
    if scores.len() == 0 {
        least
    } else {
        let before = best_worth(scores.drop_last(), worth, least);
        let last = worth(scores.last());
        if before >= last {
            before
        } else {
            last
        }
    }
}

proof fn lemma_best_worth(
    scores: Seq<TitleScoreView>,
    worth: spec_fn(TitleScoreView) -> int,
    least: int,
)
    ensures
        least <= best_worth(scores, worth, least),
        forall|i: int|
            0 <= i < scores.len() ==> worth(#[trigger] scores[i]) <= best_worth(
                scores,
                worth,
                least,
            ),
        best_worth(scores, worth, least) == least || exists|i: int|
            0 <= i < scores.len() && worth(#[trigger] scores[i]) == best_worth(
                scores,
                worth,
                least,
            ),
    decreases scores.len(),
{
    if scores.len() > 0 {
        let before = scores.drop_last();
        let best = best_worth(scores, worth, least);
        lemma_best_worth(before, worth, least);
        assert(scores[scores.len() - 1] == scores.last());
        assert forall|i: int| 0 <= i < scores.len() implies worth(#[trigger] scores[i])
            <= best by {
            if i < before.len() {
                assert(before[i] == scores[i]);
            }
        }
        if best != worth(scores.last()) && best != least {
            let i = choose|i: int|
                0 <= i < before.len() && worth(#[trigger] before[i]) == best_worth(
                    before,
                    worth,
                    least,
                );
            assert(scores[i] == before[i]);
        }
    }
}

/// Further titles never lower the score of a movie, whatever the scores of its titles are worth,
/// and neither their order nor how often they come matters: a movie that has every title of another
/// one matches a query no worse.
pub proof fn law_more_titles_match_no_worse(
    fewer: MovieView,
    more: MovieView,
    query: Seq<char>,
    terms: Seq<Seq<char>>,
    worth: spec_fn(TitleScoreView) -> int,
    least: int,
)
    requires
        forall|i: int|
            0 <= i < all_titles(fewer).len() ==> all_titles(more).contains(
                #[trigger] all_titles(fewer)[i],
            ),
    ensures
        best_worth(movie_scores(fewer, query, terms), worth, least) <= best_worth(
            movie_scores(more, query, terms),
            worth,
            least,
        ),
{
    let scorer = title_scorer(query, terms);
    let a = movie_scores(fewer, query, terms);
    let b = movie_scores(more, query, terms);
    lemma_best_worth(a, worth, least);
    lemma_best_worth(b, worth, least);
    if best_worth(a, worth, least) != least {
        let i = choose|i: int|
            0 <= i < a.len() && worth(#[trigger] a[i]) == best_worth(a, worth, least);
        assert(a.contains(a[i]));
        all_titles(fewer).lemma_filter_map_contains(scorer, a[i]);
        let title = choose|title: Seq<char>| #[trigger]
            all_titles(fewer).contains(title) && scorer(title) == Some(a[i]);
        let j = choose|j: int| 0 <= j < all_titles(fewer).len() && all_titles(fewer)[j] == title;
        assert(all_titles(more).contains(all_titles(fewer)[j]));
        let k = choose|k: int| 0 <= k < all_titles(more).len() && all_titles(more)[k] == title;
        lemma_filter_map_keeps(all_titles(more), scorer, k);
        let m = choose|m: int| 0 <= m < b.len() && b[m] == a[i];
        assert(worth(b[m]) <= best_worth(b, worth, least));
    }
}

// ---------------------------------------------------------------------------
// What the scores mean
// ---------------------------------------------------------------------------

/// A word that is made of the word of the query by one typo scores 75, whatever their length; one
/// that takes two typos scores 60, if the word of the query has at least six letters; and one that
/// takes more scores 35. Neither word begins with the other here.
pub proof fn law_typos_are_forgiven(asked: Seq<char>, word: Seq<char>)
    requires
        asked.len() <= word.len() ==> word.take(asked.len() as int) != asked,
        word.len() <= asked.len() ==> asked.take(word.len() as int) != word,
    ensures
        one_edit(asked, word) ==> word_score(asked, word) == 75,
        !one_edit(asked, word) && made_by_edits(asked, word, 2) && asked.len() >= 6 ==> word_score(
            asked,
            word,
        ) == 60,
        !one_edit(asked, word) && asked.len() < 6 ==> word_score(asked, word) == 35,
        !one_edit(asked, word) && !made_by_edits(asked, word, 2) ==> word_score(asked, word) == 35,
{
    assert(word != asked) by {
        assert(asked.take(asked.len() as int) =~= asked);
    }
    law_distance_is_zero(asked, word);
    law_distance_is_the_least_number_of_edits(asked, word, 1);
    law_distance_is_the_least_number_of_edits(asked, word, 2);
    if one_edit(asked, word) {
        assert(made_by_edits(word, word, 0));
        assert(made_by_edits(asked, word, 1));
    }
    if distance(asked, word) == 1 {
        let between = choose|between: Seq<char>| #[trigger]
            one_edit(asked, between) && made_by_edits(between, word, 0);
        assert(between == word);
    }
}

/// A word that the word of the query begins with, or that begins with it, scores 85, and the word
/// itself 100.
pub proof fn law_beginnings_match(asked: Seq<char>, more: Seq<char>)
    requires
        more.len() > 0,
    ensures
        word_score(asked, asked + more) == 85,
        word_score(asked + more, asked) == 85,
        word_score(asked, asked) == 100,
{
    let longer = asked + more;
    assert(longer.take(asked.len() as int) =~= asked);
    assert(longer.len() != asked.len());
}

/// A title counts 15 tenths where it is the query, 13 where something other than a letter or a digit
/// stands behind the query in it, 11 where a letter or a digit does, or where it has every word of
/// the query and does not begin with the query, and 10 else.
pub proof fn law_whole_titles_count_most(
    query: Seq<char>,
    rest: Seq<char>,
    other: Seq<char>,
    words: Seq<Seq<char>>,
    terms: Seq<Seq<char>>,
)
    requires
        query.len() <= other.len() ==> other.take(query.len() as int) != query,
    ensures
        position_tenths(query, words, query, terms) == 15,
        rest.len() > 0 && !alphanumeric(rest[0]) ==> position_tenths(
            query + rest,
            words,
            query,
            terms,
        ) == 13,
        rest.len() > 0 && alphanumeric(rest[0]) ==> position_tenths(
            query + rest,
            words,
            query,
            terms,
        ) == 11,
        position_tenths(other, words, query, terms) == (if forall|i: int|
            0 <= i < terms.len() ==> words.contains(#[trigger] terms[i]) {
            11u32
        } else {
            10u32
        }),
{
    let title = query + rest;
    assert(title.take(query.len() as int) =~= query);
    if rest.len() > 0 {
        assert(title[query.len() as int] == rest[0]);
        assert(title.len() != query.len());
    }
    if other == query {
        assert(query.take(query.len() as int) =~= query);
    }
}

/// A title is scored exactly where it has a word: once for each word of the query, by the word of
/// the title that is most like it.
pub proof fn law_every_term_is_scored(
    title: Seq<char>,
    query: Seq<char>,
    terms: Seq<Seq<char>>,
    i: int,
)
    requires
        0 <= i < terms.len(),
    ensures
        ({
            let found = words(trimmed(normalized(title)));
            match title_score(title, query, terms) {
                Some(score) => {
                    &&& found.len() > 0
                    &&& score.terms.len() == terms.len()
                    &&& forall|k: int|
                        0 <= k < found.len() ==> word_score(terms[i], #[trigger] found[k])
                            <= score.terms[i]
                    &&& score.terms[i] == 35 || exists|k: int|
                        0 <= k < found.len() && word_score(terms[i], #[trigger] found[k])
                            == score.terms[i]
                    &&& found.contains(terms[i]) ==> score.terms[i] == 100
                    &&& trimmed(normalized(title)) == query ==> score.position == 15
                },
                None => found.len() == 0,
            }
        }),
{
    law_best_score(terms[i], words(trimmed(normalized(title))));
}

/// Every title of a movie is looked at: the Russian one, the original one, the primary one and all
/// other Russian ones.
pub proof fn law_every_title_is_looked_at(movie: MovieView, i: int)
    ensures
        movie.title_ru is Some ==> all_titles(movie).contains(movie.title_ru.unwrap()),
        all_titles(movie).contains(movie.title_orig),
        all_titles(movie).contains(movie.title_primary),
        0 <= i < movie.russian_titles.len() ==> all_titles(movie).contains(movie.russian_titles[i]),
{
    let all = all_titles(movie);
    let n: int = if movie.title_ru is Some {
        1
    } else {
        0
    };
    if movie.title_ru is Some {
        assert(all[0] == movie.title_ru.unwrap());
    }
    assert(all[n] == movie.title_orig);
    assert(all[n + 1] == movie.title_primary);
    if 0 <= i < movie.russian_titles.len() {
        assert(all[n + 2 + i] == movie.russian_titles[i]);
    }
}

} // verus!
