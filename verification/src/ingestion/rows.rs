//! What the rows of the dumps say.
use crate::config::NoiseFilterConfig;
use crate::index::document::{MovieDoc, MovieView};
use crate::index::schema::{
    is_plain, is_told_by_document, law_documents_tell_each_field,
    law_every_russian_title_is_searched_in, movie_values, MovieSchema,
};
use crate::index::values::{first_text, ValueView};
use crate::ingestion::temp_store::{
    law_tconst_reads_back, lemma_pieces_join, parse_tconst_id, tconst_number,
};
use crate::text::{
    contains_text, decimal, decode_or_empty, find_char, is_digit, law_decimal_reads_back,
    lemma_find_char, lemma_find_char_is, lemma_trimmed_has_no_more, number_up_to, parse_u32, pieces,
    same, split_on, texts, trim, trimmed, utf8_or_empty, whitespace,
};
use vstd::prelude::*;

verus! {

/// The text of a column. What is not UTF-8 counts as empty.
pub open spec fn column(fields: Seq<Vec<u8>>, i: int) -> Seq<char> {
    utf8_or_empty(fields[i]@)
}

fn read_column(fields: &Vec<Vec<u8>>, i: usize) -> (r: String)
    requires
        i < fields@.len(),
    ensures
        r@ == column(fields@, i as int),
{
    decode_or_empty(fields[i].as_slice())
}

/// The number that a text stands for, if it fits in 32 bits.
pub open spec fn number_in(s: Seq<char>) -> Option<u32> {
    match number_up_to(s, u32::MAX as nat) {
        Some(n) => Some(n as u32),
        None => None,
    }
}

/// Whether a text says something: it is neither empty nor `\N`, which stands for nothing.
pub open spec fn says_something(s: Seq<char>) -> bool {
    s.len() > 0 && s != "\\N"@
}

fn says(s: &str) -> (r: bool)
    ensures
        r == says_something(s@),
{
    !s.is_empty() && !same(s, "\\N")
}

// ---------------------------------------------------------------------------
// Ratings
// ---------------------------------------------------------------------------

/// A row of the ratings. The rating stands as it is written.
#[derive(Debug, Clone)]
pub struct RatingRow {
    pub id: u32,
    pub rating: String,
    pub votes: u32,
}

/// Whether a rating is the one in a row.
pub open spec fn is_rating_row(row: RatingRow, fields: Seq<Vec<u8>>) -> bool {
    &&& tconst_number(column(fields, 0)) == Some(row.id as nat)
    &&& row.rating@ == column(fields, 1)
    &&& row.votes == number_in(column(fields, 2)).unwrap_or(0)
}

/// The rating in a row: the row has an id, a rating and a number of votes.
pub fn read_rating_row(fields: &Vec<Vec<u8>>) -> (r: Option<RatingRow>)
    ensures
        match r {
            Some(row) => fields@.len() >= 3 && is_rating_row(row, fields@),
            None => fields@.len() < 3 || tconst_number(column(fields@, 0)) is None,
        },
{
    if fields.len() < 3 {
        return None;
    }
    let tconst = read_column(fields, 0);
    match parse_tconst_id(tconst.as_str()) {
        Some(id) => {
            let votes_text = read_column(fields, 2);
            let votes: u32 = parse_u32(votes_text.as_str()).unwrap_or(0);
            Some(RatingRow { id, rating: read_column(fields, 1), votes })
        },
        None => None,
    }
}

// ---------------------------------------------------------------------------
// Russian titles
// ---------------------------------------------------------------------------

/// Whether bytes are two ASCII characters.
pub open spec fn is_pair(bytes: Seq<u8>, first: u8, second: u8) -> bool {
    bytes.len() == 2 && bytes[0] == first && bytes[1] == second
}

fn pair(bytes: &Vec<u8>, first: u8, second: u8) -> (r: bool)
    ensures
        r == is_pair(bytes@, first, second),
{
    bytes.len() == 2 && bytes[0] == first && bytes[1] == second
}

/// Whether a row is of a Russian title: one of the regions `RU` and `SU`, or in the language
/// `ru`.
pub open spec fn is_russian_row(fields: Seq<Vec<u8>>) -> bool {
    is_pair(fields[3]@, 0x52, 0x55) || is_pair(fields[3]@, 0x53, 0x55) || is_pair(
        fields[4]@,
        0x72,
        0x75,
    )
}

/// Whether a title and the number of a movie are those in a row.
pub open spec fn is_aka_row(id: u32, title: Seq<char>, fields: Seq<Vec<u8>>) -> bool {
    tconst_number(column(fields, 0)) == Some(id as nat) && title == column(fields, 2)
}

/// The Russian title in a row, and the number of the movie it is of.
pub fn read_aka_row(fields: &Vec<Vec<u8>>) -> (r: Option<(u32, String)>)
    ensures
        match r {
            Some((id, title)) => {
                &&& fields@.len() >= 5
                &&& is_russian_row(fields@)
                &&& is_aka_row(id, title@, fields@)
                &&& says_something(title@)
            },
            None => fields@.len() < 5 || !is_russian_row(fields@) || tconst_number(
                column(fields@, 0),
            ) is None || !says_something(column(fields@, 2)),
        },
{
    if fields.len() < 5 {
        return None;
    }
    let is_russian = pair(&fields[3], 0x52, 0x55) || pair(&fields[3], 0x53, 0x55) || pair(
        &fields[4],
        0x72,
        0x75,
    );
    if !is_russian {
        return None;
    }
    let tconst = read_column(fields, 0);
    match parse_tconst_id(tconst.as_str()) {
        Some(id) => {
            let title = read_column(fields, 2);
            if says(title.as_str()) {
                Some((id, title))
            } else {
                None
            }
        },
        None => None,
    }
}

// ---------------------------------------------------------------------------
// Titles
// ---------------------------------------------------------------------------

/// A row of the titles.
#[derive(Debug, Clone)]
pub struct BasicsRow {
    pub id: u32,
    pub tconst: String,
    pub title_type: String,
    pub primary_title: String,
    pub original_title: String,
    pub start_year: String,
    pub runtime: String,
    pub genres: String,
}

/// Whether titles of a type are indexed. Where no type is named, all are.
pub open spec fn is_allowed_type(allowed: Seq<Seq<char>>, title_type: Seq<char>) -> bool {
    allowed.len() == 0 || allowed.contains(title_type)
}

/// Whether a title is the one in a row.
pub open spec fn is_basics_row(row: BasicsRow, fields: Seq<Vec<u8>>) -> bool {
    &&& tconst_number(column(fields, 0)) == Some(row.id as nat)
    &&& row.tconst@ == column(fields, 0)
    &&& row.title_type@ == column(fields, 1)
    &&& row.primary_title@ == column(fields, 2)
    &&& row.original_title@ == column(fields, 3)
    &&& row.start_year@ == column(fields, 5)
    &&& row.runtime@ == column(fields, 7)
    &&& row.genres@ == column(fields, 8)
}

/// The title in a row, if it is of a type that is indexed.
pub fn read_basics_row(fields: &Vec<Vec<u8>>, allowed: &Vec<String>) -> (r: Option<BasicsRow>)
    ensures
        match r {
            Some(row) => {
                &&& fields@.len() >= 9
                &&& is_allowed_type(texts(allowed@), column(fields@, 1))
                &&& is_basics_row(row, fields@)
            },
            None => fields@.len() < 9 || !is_allowed_type(texts(allowed@), column(fields@, 1))
                || tconst_number(column(fields@, 0)) is None,
        },
{
    if fields.len() < 9 {
        return None;
    }
    let title_type = read_column(fields, 1);
    if allowed.len() > 0 && !contains_text(allowed, title_type.as_str()) {
        return None;
    }
    let tconst = read_column(fields, 0);
    match parse_tconst_id(tconst.as_str()) {
        Some(id) => Some(
            BasicsRow {
                id,
                tconst,
                title_type,
                primary_title: read_column(fields, 2),
                original_title: read_column(fields, 3),
                start_year: read_column(fields, 5),
                runtime: read_column(fields, 7),
                genres: read_column(fields, 8),
            },
        ),
        None => None,
    }
}

// ---------------------------------------------------------------------------
// Noise
// ---------------------------------------------------------------------------

/// Whether a title is noise: it has no name at all, or nobody voted for it and it has no year,
/// or too few voted for it. A title with a Russian name never is.
pub open spec fn is_noise(
    filter: NoiseFilterConfig,
    primary: Seq<char>,
    original: Seq<char>,
    start_year: Seq<char>,
    votes: u32,
    has_russian: bool,
) -> bool {
    filter.enabled && !has_russian && {
        ||| filter.filter_empty_titles && !says_something(primary) && !says_something(original)
        ||| filter.filter_zero_votes_no_year && votes == 0 && !says_something(start_year)
        ||| votes < filter.min_votes
    }
}

fn noise(filter: &NoiseFilterConfig, row: &BasicsRow, votes: u32, has_russian: bool) -> (r: bool)
    ensures
        r == is_noise(
            *filter,
            row.primary_title@,
            row.original_title@,
            row.start_year@,
            votes,
            has_russian,
        ),
{
    if !filter.enabled || has_russian {
        return false;
    }
    let has_primary = says(row.primary_title.as_str());
    let has_original = says(row.original_title.as_str());
    let has_year = says(row.start_year.as_str());
    if filter.filter_empty_titles && !has_primary && !has_original {
        return true;
    }
    if filter.filter_zero_votes_no_year && votes == 0 && !has_year {
        return true;
    }
    votes < filter.min_votes
}

/// A title with a Russian name is never noise, and nothing is where the filter is off.
pub proof fn law_russian_titles_are_no_noise(
    filter: NoiseFilterConfig,
    primary: Seq<char>,
    original: Seq<char>,
    start_year: Seq<char>,
    votes: u32,
)
    ensures
        !is_noise(filter, primary, original, start_year, votes, true),
        !filter.enabled ==> !is_noise(filter, primary, original, start_year, votes, false),
{
}

// ---------------------------------------------------------------------------
// Movies
// ---------------------------------------------------------------------------

/// The genres in a row.
pub open spec fn genres_in(s: Seq<char>) -> Seq<Seq<char>> {
    if s == "\\N"@ {
        Seq::empty()
    } else {
        Seq::new(pieces(s, ',').len(), |i: int| trimmed(pieces(s, ',')[i]))
    }
}

fn read_genres(s: &str) -> (r: Vec<String>)
    ensures
        texts(r@) == genres_in(s@),
{
    let mut out: Vec<String> = Vec::new();
    if same(s, "\\N") {
        proof {
            assert(texts(out@) =~= genres_in(s@));
        }
        return out;
    }
    let parts = split_on(s, ',');
    for i in 0..parts.len()
        invariant
            s@ != "\\N"@,
            texts(parts@) == pieces(s@, ','),
            texts(out@) =~= genres_in(s@).take(i as int),
    {
        let part = trim(parts[i].as_str());
        proof {
            assert(texts(parts@)[i as int] == parts@[i as int]@);
            assert(texts(out@.push(part)) =~= texts(out@).push(part@));
            assert(genres_in(s@)[i as int] == part@);
        }
        out.push(part);
    }
    proof {
        assert(genres_in(s@).take(genres_in(s@).len() as int) =~= genres_in(s@));
    }
    out
}

/// The movie of a row, with what the other dumps say about it.
pub open spec fn movie_of_row(
    row: BasicsRow,
    rating: Option<u64>,
    votes: u32,
    titles: Seq<Seq<char>>,
) -> MovieView {
    let primary = if row.primary_title@ == "\\N"@ {
        Seq::empty()
    } else {
        row.primary_title@
    };
    MovieView {
        tconst: row.tconst@,
        title_ru: if titles.len() > 0 {
            Some(titles[0])
        } else {
            None
        },
        title_orig: if row.original_title@ == "\\N"@ {
            primary
        } else {
            row.original_title@
        },
        title_primary: primary,
        russian_titles: titles,
        year: number_in(row.start_year@),
        title_type: row.title_type@,
        rating,
        num_votes: votes,
        genres: genres_in(row.genres@),
        runtime_minutes: number_in(row.runtime@),
    }
}

/// The titles in a list that may be missing.
pub open spec fn given_titles(titles: Option<Vec<String>>) -> Seq<Seq<char>> {
    match titles {
        Some(v) => texts(v@),
        None => Seq::empty(),
    }
}

/// The movie of a row, unless it is noise. `rating` is the rating, as the 64-bit key that
/// `tantivy::f64_to_u64` gives it, and the number of votes; `titles` are the Russian titles.
pub fn movie_from_row(
    row: BasicsRow,
    rating: Option<(u64, u32)>,
    titles: Option<Vec<String>>,
    filter: &NoiseFilterConfig,
) -> (r: Option<MovieDoc>)
    ensures
        ({
            let votes = match rating {
                Some((_, n)) => n,
                None => 0,
            };
            let key = match rating {
                Some((k, _)) => Some(k),
                None => None,
            };
            let russian = given_titles(titles);
            let dropped = is_noise(
                *filter,
                row.primary_title@,
                row.original_title@,
                row.start_year@,
                votes,
                russian.len() > 0,
            );
            match r {
                Some(movie) => !dropped && movie@ == movie_of_row(row, key, votes, russian),
                None => dropped,
            }
        }),
        r is Some && rating is Some ==> r.unwrap().rating == Some(rating.unwrap().0)
            && r.unwrap().num_votes == rating.unwrap().1,
        r is Some && rating is None ==> r.unwrap().rating is None && r.unwrap().num_votes == 0,
        r is None ==> filter.enabled,
{
    let (key, votes): (Option<u64>, u32) = match rating {
        Some((k, n)) => (Some(k), n),
        None => (None, 0),
    };
    let ghost held = given_titles(titles);
    let russian: Vec<String> = match titles {
        Some(v) => v,
        None => Vec::new(),
    };
    proof {
        assert(texts(russian@) =~= held);
    }
    if noise(filter, &row, votes, russian.len() > 0) {
        return None;
    }
    let year = parse_u32(row.start_year.as_str());
    let runtime_minutes = parse_u32(row.runtime.as_str());
    let genres = read_genres(row.genres.as_str());
    let primary = if same(row.primary_title.as_str(), "\\N") {
        String::new()
    } else {
        row.primary_title.clone()
    };
    let original = if same(row.original_title.as_str(), "\\N") {
        primary.clone()
    } else {
        row.original_title.clone()
    };
    let title_ru = if russian.len() > 0 {
        Some(russian[0].clone())
    } else {
        None
    };
    let movie = MovieDoc {
        tconst: row.tconst.clone(),
        title_ru,
        title_orig: original,
        title_primary: primary,
        russian_titles: russian,
        year,
        title_type: row.title_type.clone(),
        rating: key,
        num_votes: votes,
        genres,
        runtime_minutes,
    };
    Some(movie)
}

proof fn lemma_pieces_have_no_mark(s: Seq<char>, sep: char, i: int)
    requires
        0 <= i < pieces(s, sep).len(),
    ensures
        !pieces(s, sep)[i].contains(sep),
    decreases s.len(),
{
    let n = find_char(s, sep) as int;
    lemma_find_char(s, sep);
    if n < s.len() {
        if i > 0 {
            assert(pieces(s, sep)[i] == pieces(s.skip(n + 1), sep)[i - 1]);
            lemma_pieces_have_no_mark(s.skip(n + 1), sep, i - 1);
        } else {
            assert(pieces(s, sep)[0] == s.take(n));
        }
    }
}

/// Every movie of a row is told whole by its document in the index: it is read back as it was
/// written.
pub proof fn law_ingested_movies_are_told_whole(
    row: BasicsRow,
    rating: Option<u64>,
    votes: u32,
    titles: Seq<Seq<char>>,
)
    ensures
        is_told_by_document(movie_of_row(row, rating, votes, titles)),
{
    let movie = movie_of_row(row, rating, votes, titles);
    assert forall|i: int| 0 <= i < movie.genres.len() implies is_plain(
        #[trigger] movie.genres[i],
    ) by {
        let piece = pieces(row.genres@, ',')[i];
        lemma_pieces_have_no_mark(row.genres@, ',', i);
        lemma_trimmed_has_no_more(piece, |c: char| whitespace(c));
        let genre = movie.genres[i];
        assert forall|k: int| 0 <= k < genre.len() - 1 implies !(#[trigger] genre[k] == ','
            && genre[k + 1] == ' ') by {
            assert(genre.contains(genre[k]));
        }
    }
}

/// Every Russian title that is kept for a row is in the field of its document that Russian words are
/// searched for in.
pub proof fn law_ingested_titles_are_searched_in(
    s: MovieSchema,
    row: BasicsRow,
    rating: Option<u64>,
    votes: u32,
    titles: Seq<Seq<char>>,
    i: int,
)
    requires
        s.wf(),
        0 <= i < titles.len(),
    ensures
        movie_values(s, movie_of_row(row, rating, votes, titles)).contains(
            (s.f_title_ru, ValueView::Text(titles[i])),
        ),
{
    law_every_russian_title_is_searched_in(s, movie_of_row(row, rating, votes, titles), i);
}

/// Whether the index is built anew: the dumps have changed, or it is asked for all the same.
pub fn needs_indexing(updated: bool, force: bool) -> (r: bool)
    ensures
        r == (updated || force),
        updated ==> r,
        force ==> r,
        !updated && !force ==> !r,
{
    updated || force
}

// ---------------------------------------------------------------------------
// What a row becomes
// ---------------------------------------------------------------------------

/// Whether the columns of a row are the UTF-8 of some texts.
pub open spec fn is_written(fields: Seq<Vec<u8>>, columns: Seq<Seq<char>>) -> bool {
    fields.len() == columns.len() && forall|i: int|
        0 <= i < fields.len() ==> (#[trigger] fields[i])@ == vstd::utf8::encode_utf8(columns[i])
}

proof fn lemma_column_is_read(fields: Seq<Vec<u8>>, columns: Seq<Seq<char>>, i: int)
    requires
        is_written(fields, columns),
        0 <= i < fields.len(),
    ensures
        column(fields, i) == columns[i],
{
    assert(fields[i]@ == vstd::utf8::encode_utf8(columns[i]));
    vstd::utf8::encode_utf8_valid_utf8(columns[i]);
    vstd::utf8::encode_utf8_decode_utf8(columns[i]);
}

/// A row of the titles is read as it was written: id, type, primary title and original title, then
/// the year it began in as the sixth column, how long it is as the eighth and the genres as the
/// last.
pub proof fn law_titles_are_read_as_written(
    row: BasicsRow,
    fields: Seq<Vec<u8>>,
    columns: Seq<Seq<char>>,
    id: u32,
)
    requires
        is_basics_row(row, fields),
        is_written(fields, columns),
        columns.len() >= 9,
    ensures
        row.tconst@ == columns[0],
        columns[0] == "tt"@ + decimal(id as nat) ==> row.id == id,
        row.title_type@ == columns[1],
        row.primary_title@ == columns[2],
        row.original_title@ == columns[3],
        row.start_year@ == columns[5],
        row.runtime@ == columns[7],
        row.genres@ == columns[8],
{
    law_tconst_reads_back(id, 0);
    assert(Seq::new(0, |i: int| '0') + decimal(id as nat) =~= decimal(id as nat));
    lemma_column_is_read(fields, columns, 0);
    lemma_column_is_read(fields, columns, 1);
    lemma_column_is_read(fields, columns, 2);
    lemma_column_is_read(fields, columns, 3);
    lemma_column_is_read(fields, columns, 5);
    lemma_column_is_read(fields, columns, 7);
    lemma_column_is_read(fields, columns, 8);
}

/// A row of the ratings and a row of the Russian titles are read as they were written: the rating
/// stands in the second column, the votes in the third, and a title in the third. Votes that are no
/// number count as none.
pub proof fn law_ratings_and_names_are_read_as_written(
    rating: RatingRow,
    id: u32,
    title: Seq<char>,
    fields: Seq<Vec<u8>>,
    columns: Seq<Seq<char>>,
    votes: u32,
    number: u32,
)
    requires
        is_written(fields, columns),
        columns.len() >= 3,
    ensures
        is_rating_row(rating, fields) ==> rating.rating@ == columns[1],
        is_rating_row(rating, fields) && columns[0] == "tt"@ + decimal(id as nat) ==> rating.id == id,
        is_rating_row(rating, fields) && columns[2] == decimal(votes as nat) ==> rating.votes
            == votes,
        is_rating_row(rating, fields) && columns[2].len() == 0 ==> rating.votes == 0,
        is_aka_row(id, title, fields) ==> title == columns[2],
        is_aka_row(id, title, fields) && columns[0] == "tt"@ + decimal(number as nat) ==> id
            == number,
{
    law_tconst_reads_back(number, 0);
    assert(Seq::new(0, |i: int| '0') + decimal(number as nat) =~= decimal(number as nat));
    lemma_column_is_read(fields, columns, 0);
    lemma_column_is_read(fields, columns, 1);
    lemma_column_is_read(fields, columns, 2);
    law_decimal_reads_back(votes as nat);
    law_tconst_reads_back(id, 0);
    assert(Seq::new(0, |i: int| '0') + decimal(id as nat) =~= decimal(id as nat));
}

/// A row is of a Russian title exactly where its region is `RU` or `SU`, or its language is `ru`.
pub proof fn law_russian_rows(fields: Seq<Vec<u8>>, columns: Seq<Seq<char>>)
    requires
        is_written(fields, columns),
        columns.len() >= 5,
    ensures
        is_russian_row(fields) <==> columns[3] == "RU"@ || columns[3] == "SU"@ || columns[4] == "ru"@,
{
    reveal_strlit("RU");
    reveal_strlit("SU");
    reveal_strlit("ru");
    assert("RU"@ =~= seq!['R', 'U']);
    assert("SU"@ =~= seq!['S', 'U']);
    assert("ru"@ =~= seq!['r', 'u']);
    lemma_pair('R', 'U');
    lemma_pair('S', 'U');
    lemma_pair('r', 'u');
    let region = columns[3];
    let language = columns[4];
    assert(fields[3]@ == vstd::utf8::encode_utf8(region));
    assert(fields[4]@ == vstd::utf8::encode_utf8(language));
    vstd::utf8::encode_utf8_decode_utf8(region);
    vstd::utf8::encode_utf8_decode_utf8(language);
    if is_pair(fields[3]@, 0x52, 0x55) {
        assert(fields[3]@ =~= vstd::utf8::encode_utf8("RU"@));
        vstd::utf8::encode_utf8_decode_utf8("RU"@);
    }
    if is_pair(fields[3]@, 0x53, 0x55) {
        assert(fields[3]@ =~= vstd::utf8::encode_utf8("SU"@));
        vstd::utf8::encode_utf8_decode_utf8("SU"@);
    }
    if is_pair(fields[4]@, 0x72, 0x75) {
        assert(fields[4]@ =~= vstd::utf8::encode_utf8("ru"@));
        vstd::utf8::encode_utf8_decode_utf8("ru"@);
    }
}

proof fn lemma_pair(a: char, b: char)
    requires
        a as u32 <= 0x7f,
        b as u32 <= 0x7f,
    ensures
        vstd::utf8::encode_utf8(seq![a, b]) == seq![a as u8, b as u8],
{
    let s = seq![a, b];
    assert(vstd::utf8::is_ascii_chars(s));
    vstd::utf8::is_ascii_chars_encode_utf8(s);
    assert(vstd::utf8::encode_utf8(s) =~= seq![a as u8, b as u8]);
}

/// The movie of a row has the original title of the row, character by character, and its document
/// holds it in the field of original titles; so rows with different original titles give movies with
/// different ones. Where the row has none, the primary title stands in for it.
pub proof fn law_original_titles_are_kept(
    s: MovieSchema,
    row: BasicsRow,
    other: BasicsRow,
    rating: Option<u64>,
    votes: u32,
    titles: Seq<Seq<char>>,
)
    requires
        s.wf(),
    ensures
        ({
            let movie = movie_of_row(row, rating, votes, titles);
            let second = movie_of_row(other, rating, votes, titles);
            let nothing = seq!['\\', 'N'];
            &&& row.original_title@ != nothing ==> {
                &&& movie.title_orig == row.original_title@
                &&& movie_values(s, movie).contains(
                    (s.f_title_orig, ValueView::Text(row.original_title@)),
                )
                &&& first_text(movie_values(s, movie), s.f_title_orig) == Some(row.original_title@)
            }
            &&& row.original_title@ != nothing && other.original_title@ != nothing
                && row.original_title@ != other.original_title@ ==> movie.title_orig
                != second.title_orig
            &&& row.original_title@ == nothing && row.primary_title@ != nothing ==> movie.title_orig
                == row.primary_title@
            &&& row.original_title@ == nothing && row.primary_title@ == nothing
                ==> movie.title_orig.len() == 0
        }),
{
    reveal_strlit("\\N");
    assert("\\N"@ =~= seq!['\\', 'N']);
    let movie = movie_of_row(row, rating, votes, titles);
    law_documents_tell_each_field(s, movie);
}

/// The movie of a row has its id, its type and its primary title, the rating, the votes and the
/// Russian titles that are known of it, the first of which comes first, and the year and the length
/// that are written in the row as numbers.
pub proof fn law_rows_become_movies(
    row: BasicsRow,
    rating: Option<u64>,
    votes: u32,
    titles: Seq<Seq<char>>,
    year: u32,
    minutes: u32,
)
    ensures
        ({
            let movie = movie_of_row(row, rating, votes, titles);
            let nothing = seq!['\\', 'N'];
            &&& movie.tconst == row.tconst@
            &&& movie.title_type == row.title_type@
            &&& row.primary_title@ != nothing ==> movie.title_primary == row.primary_title@
            &&& row.primary_title@ == nothing ==> movie.title_primary.len() == 0
            &&& movie.rating == rating
            &&& movie.num_votes == votes
            &&& movie.russian_titles == titles
            &&& titles.len() > 0 ==> movie.title_ru == Some(titles[0])
            &&& titles.len() == 0 ==> movie.title_ru is None
            &&& row.start_year@ == decimal(year as nat) ==> movie.year == Some(year)
            &&& row.start_year@ == nothing ==> movie.year is None
            &&& row.runtime@ == decimal(minutes as nat) ==> movie.runtime_minutes == Some(minutes)
            &&& row.runtime@ == nothing ==> movie.runtime_minutes is None
            &&& row.genres@ == nothing ==> movie.genres.len() == 0
        }),
{
    reveal_strlit("\\N");
    let nothing = seq!['\\', 'N'];
    assert("\\N"@ =~= nothing);
    law_decimal_reads_back(year as nat);
    law_decimal_reads_back(minutes as nat);
    assert(!is_digit(nothing[0]));
}

/// The genres of a row stand in it with a comma between each two, and count without the whitespace
/// round them.
pub proof fn law_genres_stand_between_commas(
    row: BasicsRow,
    first: BasicsRow,
    second: BasicsRow,
    rating: Option<u64>,
    votes: u32,
    titles: Seq<Seq<char>>,
)
    requires
        first.genres@ != seq!['\\', 'N'],
        second.genres@ != seq!['\\', 'N'],
        row.genres@ == first.genres@.push(',') + second.genres@,
    ensures
        movie_of_row(row, rating, votes, titles).genres == movie_of_row(
            first,
            rating,
            votes,
            titles,
        ).genres + movie_of_row(second, rating, votes, titles).genres,
        !first.genres@.contains(',') ==> movie_of_row(first, rating, votes, titles).genres == seq![
            trimmed(first.genres@),
        ],
{
    reveal_strlit("\\N");
    assert("\\N"@ =~= seq!['\\', 'N']);
    let a = first.genres@;
    let b = second.genres@;
    lemma_pieces_join(a, b, ',');
    assert(row.genres@[a.len() as int] == ',');
    assert(row.genres@ != "\\N"@);
    assert(genres_in(row.genres@) =~= genres_in(a) + genres_in(b));
    if !a.contains(',') {
        assert forall|i: int| 0 <= i < a.len() implies #[trigger] a[i] != ',' by {
            assert(a.contains(a[i]));
        }
        lemma_find_char_is(a, ',', a.len() as int);
        assert(genres_in(a) =~= seq![trimmed(a)]);
    }
}

/// Whether a column says nothing: it is empty or `\N`.
pub open spec fn is_void(s: Seq<char>) -> bool {
    s.len() == 0 || s == seq!['\\', 'N']
}

/// Noise is left out where the filter is on, unless there is a Russian title: what has neither a
/// primary nor an original title, what nobody voted for and that has no year, each if that is
/// filtered, and what fewer voted for than is asked. Nothing else is noise.
pub proof fn law_noise_is_left_out(
    filter: NoiseFilterConfig,
    primary: Seq<char>,
    original: Seq<char>,
    start_year: Seq<char>,
    votes: u32,
)
    requires
        filter.enabled,
    ensures
        filter.filter_empty_titles && is_void(primary) && is_void(original) ==> is_noise(
            filter,
            primary,
            original,
            start_year,
            votes,
            false,
        ),
        filter.filter_zero_votes_no_year && votes == 0 && is_void(start_year) ==> is_noise(
            filter,
            primary,
            original,
            start_year,
            votes,
            false,
        ),
        votes < filter.min_votes ==> is_noise(filter, primary, original, start_year, votes, false),
        votes >= filter.min_votes && (!filter.filter_empty_titles || !is_void(primary) || !is_void(
            original,
        )) && (!filter.filter_zero_votes_no_year || votes > 0 || !is_void(start_year)) ==> !is_noise(
            filter,
            primary,
            original,
            start_year,
            votes,
            false,
        ),
        !is_noise(filter, primary, original, start_year, votes, true),
{
    reveal_strlit("\\N");
    assert("\\N"@ =~= seq!['\\', 'N']);
}

/// A title of a type is read where no types are named, or where its type is among them.
pub proof fn law_named_types_are_read(allowed: Seq<Seq<char>>, i: int, title_type: Seq<char>)
    ensures
        is_allowed_type(Seq::empty(), title_type),
        0 <= i < allowed.len() ==> is_allowed_type(allowed, allowed[i]),
        allowed.len() > 0 && !allowed.contains(title_type) ==> !is_allowed_type(allowed, title_type),
        !is_void(title_type) == says_something(title_type),
{
    reveal_strlit("\\N");
    assert("\\N"@ =~= seq!['\\', 'N']);
}

} // verus!
