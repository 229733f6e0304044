//! The fields of the index, and how a movie is written to and read from its documents.
use crate::index::document::{MovieDoc, MovieView};
use crate::index::fields::{
    add_real_field, add_text_field, add_u64_field, declared_fields, has_field, schema_fields,
    set_postings, FieldKind, FieldView, IndexingView, NumericOptionsView, Postings,
    TextOptionsView,
};
use crate::index::values::{
    add_real, add_text, add_u64, document_values, first_real, first_text, first_unsigned,
    first_value, read_real, read_text, read_unsigned, ValueView,
};
use crate::lists::lemma_filter_map_keeps;
use crate::poster::fields::{low_part, or_empty, read_low_part};
use crate::text::{
    find_text, has_prefix, join, joined, lemma_find_text, lemma_find_text_is, low_32, pieces_by,
    same, split_on_text, text_opt, texts,
};
use vstd::prelude::*;

verus! {

/// The name of the tokenizer for Russian titles.
pub const RUSSIAN_ANALYZER: &'static str = "russian_yo";

/// The fields of the index, and their numbers.
#[derive(Debug)]
pub struct MovieSchema {
    pub schema: tantivy::schema::Schema,
    pub f_tconst: u32,
    pub f_title_ru: u32,
    pub f_title_orig: u32,
    pub f_title_primary: u32,
    pub f_title_ru_raw: u32,
    pub f_year: u32,
    pub f_title_type: u32,
    pub f_rating: u32,
    pub f_num_votes: u32,
    pub f_genres: u32,
    pub f_runtime_minutes: u32,
}

// ---------------------------------------------------------------------------
// The fields
// ---------------------------------------------------------------------------

/// A field that is found by its whole text.
pub open spec fn keyword(name: Seq<char>) -> FieldView {
    FieldView {
        name,
        kind: FieldKind::Text(
            TextOptionsView {
                indexing: Some(IndexingView { tokenizer: "raw"@, postings: Postings::Basic }),
                stored: true,
                fast: true,
                fast_tokenizer: None,
            },
        ),
    }
}

/// A field that is found by its words.
pub open spec fn prose(name: Seq<char>, tokenizer: Seq<char>) -> FieldView {
    FieldView {
        name,
        kind: FieldKind::Text(
            TextOptionsView {
                indexing: Some(
                    IndexingView { tokenizer, postings: Postings::WithFreqsAndPositions },
                ),
                stored: true,
                fast: false,
                fast_tokenizer: None,
            },
        ),
    }
}

/// A field of text that is only kept.
pub open spec fn kept(name: Seq<char>) -> FieldView {
    FieldView {
        name,
        kind: FieldKind::Text(
            TextOptionsView { indexing: None, stored: true, fast: false, fast_tokenizer: None },
        ),
    }
}

/// A field of unsigned numbers that is searched by ranges.
pub open spec fn counted(name: Seq<char>) -> FieldView {
    FieldView {
        name,
        kind: FieldKind::Unsigned(NumericOptionsView { stored: true, fast: true, indexed: true }),
    }
}

/// A field of real numbers.
pub open spec fn measured(name: Seq<char>) -> FieldView {
    FieldView {
        name,
        kind: FieldKind::Real(NumericOptionsView { stored: true, fast: true, indexed: false }),
    }
}

/// The fields of the index, in order.
pub open spec fn movie_fields() -> Seq<FieldView> {
    seq![
        keyword("tconst"@),
        prose("title_ru"@, "russian_yo"@),
        prose("title_orig"@, "default"@),
        prose("title_primary"@, "default"@),
        kept("title_ru_raw"@),
        counted("year"@),
        counted("num_votes"@),
        counted("runtime_minutes"@),
        measured("rating"@),
        keyword("title_type"@),
        kept("genres"@),
    ]
}

impl MovieSchema {
    /// Whether the numbers are those of the fields.
    pub open spec fn wf(self) -> bool {
        &&& schema_fields(self.schema) == movie_fields()
        &&& self.f_tconst == 0
        &&& self.f_title_ru == 1
        &&& self.f_title_orig == 2
        &&& self.f_title_primary == 3
        &&& self.f_title_ru_raw == 4
        &&& self.f_year == 5
        &&& self.f_num_votes == 6
        &&& self.f_runtime_minutes == 7
        &&& self.f_rating == 8
        &&& self.f_title_type == 9
        &&& self.f_genres == 10
    }
}

/// Every field of the index has a name that does not begin with `-`, and no two have one name.
pub proof fn law_field_names_differ(i: int, j: int)
    requires
        0 <= i < movie_fields().len(),
        0 <= j < movie_fields().len(),
    ensures
        movie_fields()[i].name.len() > 0,
        movie_fields()[i].name[0] != '-',
        i != j ==> movie_fields()[i].name != movie_fields()[j].name,
{
    reveal_strlit("tconst");
    reveal_strlit("title_ru");
    reveal_strlit("title_orig");
    reveal_strlit("title_primary");
    reveal_strlit("title_ru_raw");
    reveal_strlit("year");
    reveal_strlit("num_votes");
    reveal_strlit("runtime_minutes");
    reveal_strlit("rating");
    reveal_strlit("title_type");
    reveal_strlit("genres");
    let a = movie_fields()[i].name;
    let b = movie_fields()[j].name;
    if i != j && a.len() == b.len() {
        assert(a[0] != b[0] || a[6] != b[6]);
    }
}

proof fn lemma_next_field(fields: Seq<FieldView>, k: int)
    requires
        0 <= k < movie_fields().len(),
        fields == movie_fields().take(k),
    ensures
        !has_field(fields, movie_fields()[k].name),
        movie_fields()[k].name.len() > 0,
        movie_fields()[k].name[0] != '-',
        fields.push(movie_fields()[k]) == movie_fields().take(k + 1),
{
    law_field_names_differ(k, k);
    if has_field(fields, movie_fields()[k].name) {
        let i = choose|i: int|
            0 <= i < fields.len() && (#[trigger] fields[i]).name == movie_fields()[k].name;
        law_field_names_differ(i, k);
    }
    assert(fields.push(movie_fields()[k]) =~= movie_fields().take(k + 1));
}

fn keyword_options() -> (r: tantivy::schema::TextOptions)
    ensures
        keyword(Seq::empty()).kind == FieldKind::Text(crate::index::fields::text_options_of(r)),
{
    let indexing = set_postings(
        tantivy::schema::TextFieldIndexing::default().set_tokenizer("raw"),
        Postings::Basic,
    );
    tantivy::schema::TextOptions::default().set_indexing_options(indexing).set_stored().set_fast(
        None,
    )
}

fn prose_options(tokenizer: &str) -> (r: tantivy::schema::TextOptions)
    ensures
        prose(Seq::empty(), tokenizer@).kind == FieldKind::Text(
            crate::index::fields::text_options_of(r),
        ),
{
    let indexing = set_postings(
        tantivy::schema::TextFieldIndexing::default().set_tokenizer(tokenizer),
        Postings::WithFreqsAndPositions,
    );
    tantivy::schema::TextOptions::default().set_indexing_options(indexing).set_stored()
}

fn kept_options() -> (r: tantivy::schema::TextOptions)
    ensures
        kept(Seq::empty()).kind == FieldKind::Text(crate::index::fields::text_options_of(r)),
{
    tantivy::schema::TextOptions::default().set_stored()
}

fn counted_options() -> (r: tantivy::schema::NumericOptions)
    ensures
        counted(Seq::empty()).kind == FieldKind::Unsigned(
            crate::index::fields::numeric_options_of(r),
        ),
{
    tantivy::schema::NumericOptions::default().set_stored().set_fast().set_indexed()
}

fn measured_options() -> (r: tantivy::schema::NumericOptions)
    ensures
        measured(Seq::empty()).kind == FieldKind::Real(
            crate::index::fields::numeric_options_of(r),
        ),
{
    tantivy::schema::NumericOptions::default().set_stored().set_fast()
}

impl MovieSchema {
    /// The fields of the index.
    pub fn new() -> (r: MovieSchema)
        ensures
            r.wf(),
    {
        let mut builder = tantivy::schema::Schema::builder();
        let ghost fields = movie_fields();
        proof {
            assert(declared_fields(builder) =~= fields.take(0));
            lemma_next_field(declared_fields(builder), 0);
        }
        let f_tconst: u32 = add_text_field(&mut builder, "tconst", keyword_options());
        proof {
            lemma_next_field(declared_fields(builder), 1);
        }
        let f_title_ru: u32 = add_text_field(
            &mut builder,
            "title_ru",
            prose_options(RUSSIAN_ANALYZER),
        );
        proof {
            lemma_next_field(declared_fields(builder), 2);
        }
        let f_title_orig: u32 = add_text_field(
            &mut builder,
            "title_orig",
            prose_options("default"),
        );
        proof {
            lemma_next_field(declared_fields(builder), 3);
        }
        let f_title_primary: u32 = add_text_field(
            &mut builder,
            "title_primary",
            prose_options("default"),
        );
        proof {
            lemma_next_field(declared_fields(builder), 4);
        }
        let f_title_ru_raw: u32 = add_text_field(&mut builder, "title_ru_raw", kept_options());
        proof {
            lemma_next_field(declared_fields(builder), 5);
        }
        let f_year: u32 = add_u64_field(&mut builder, "year", counted_options());
        proof {
            lemma_next_field(declared_fields(builder), 6);
        }
        let f_num_votes: u32 = add_u64_field(&mut builder, "num_votes", counted_options());
        proof {
            lemma_next_field(declared_fields(builder), 7);
        }
        let f_runtime_minutes: u32 = add_u64_field(
            &mut builder,
            "runtime_minutes",
            counted_options(),
        );
        proof {
            lemma_next_field(declared_fields(builder), 8);
        }
        let f_rating: u32 = add_real_field(&mut builder, "rating", measured_options());
        proof {
            lemma_next_field(declared_fields(builder), 9);
        }
        let f_title_type: u32 = add_text_field(&mut builder, "title_type", keyword_options());
        proof {
            lemma_next_field(declared_fields(builder), 10);
        }
        let f_genres: u32 = add_text_field(&mut builder, "genres", kept_options());
        let schema = builder.build();
        proof {
            assert(fields.take(11) =~= fields);
        }
        MovieSchema {
            schema,
            f_tconst,
            f_title_ru,
            f_title_orig,
            f_title_primary,
            f_title_ru_raw,
            f_year,
            f_title_type,
            f_rating,
            f_num_votes,
            f_genres,
            f_runtime_minutes,
        }
    }
}

impl Default for MovieSchema {
    fn default() -> (r: MovieSchema)
        ensures
            r.wf(),
    {
        MovieSchema::new()
    }
}

// ---------------------------------------------------------------------------
// Lists of titles
// ---------------------------------------------------------------------------

/// The JSON that `serde_json` writes a list of titles as.
pub uninterp spec fn titles_json(titles: Seq<Seq<char>>) -> Seq<char>;

/// The list of titles that `serde_json` reads from JSON, if it is one.
pub uninterp spec fn titles_read(json: Seq<char>) -> Option<Seq<Seq<char>>>;

/// `serde_json::to_string` of a list of strings: it does not fail, and what it writes is read
/// back as the same list.
#[verifier::external_body]
fn write_titles(titles: &Vec<String>) -> (r: Option<String>)
    ensures
        text_opt(r) == Some(titles_json(texts(titles@))),
        titles_read(or_empty(text_opt(r))) == Some(texts(titles@)),
{
    serde_json::to_string(titles).ok()
}

/// `serde_json::from_str` of a list of strings: the list, if the text is the JSON of one.
#[verifier::external_body]
fn read_titles(json: &str) -> (r: Option<Vec<String>>)
    ensures
        match r {
            Some(titles) => titles_read(json@) == Some(texts(titles@)),
            None => titles_read(json@) is None,
        },
{
    serde_json::from_str::<Vec<String>>(json).ok()
}

// ---------------------------------------------------------------------------
// Writing and reading
// ---------------------------------------------------------------------------

/// A value of a field that may be missing.
pub open spec fn value_or_none(field: u32, value: Option<ValueView>) -> Seq<(u32, ValueView)> {
    match value {
        Some(v) => seq![(field, v)],
        None => Seq::empty(),
    }
}

/// An optional text as a value.
pub open spec fn text_value(o: Option<Seq<char>>) -> Option<ValueView> {
    match o {
        Some(s) => Some(ValueView::Text(s)),
        None => None,
    }
}

/// An optional number as a value.
pub open spec fn unsigned_value(o: Option<u32>) -> Option<ValueView> {
    match o {
        Some(n) => Some(ValueView::Unsigned(n as u64)),
        None => None,
    }
}

/// An optional real number as a value.
pub open spec fn real_value(o: Option<u64>) -> Option<ValueView> {
    match o {
        Some(key) => Some(ValueView::Real(key)),
        None => None,
    }
}

/// A list of titles as a value; an empty one is none.
pub open spec fn titles_value(titles: Seq<Seq<char>>) -> Option<ValueView> {
    if titles.len() == 0 {
        None
    } else {
        Some(ValueView::Text(titles_json(titles)))
    }
}

/// A list of genres as a value; an empty one is none.
pub open spec fn genres_value(genres: Seq<Seq<char>>) -> Option<ValueView> {
    if genres.len() == 0 {
        None
    } else {
        Some(ValueView::Text(joined(genres, ", "@)))
    }
}

/// How a Russian title other than the first is put in a field.
pub open spec fn other_title(field: u32, first: Seq<char>) -> spec_fn(Seq<char>) -> Option<
    (u32, ValueView),
> {
    |title: Seq<char>|
        if title != first {
            Some((field, ValueView::Text(title)))
        } else {
            None
        }
}

/// The Russian titles of a movie as values of one field: the first, and behind it the others. A
/// movie without a first one has none.
pub open spec fn russian_values(
    field: u32,
    first: Option<Seq<char>>,
    titles: Seq<Seq<char>>,
) -> Seq<(u32, ValueView)> {
    match first {
        Some(title) => seq![(field, ValueView::Text(title))] + titles.filter_map(
            other_title(field, title),
        ),
        None => Seq::empty(),
    }
}

/// The values of the document of a movie.
pub open spec fn movie_values(s: MovieSchema, movie: MovieView) -> Seq<(u32, ValueView)> {
    seq![(s.f_tconst, ValueView::Text(movie.tconst))] + russian_values(
        s.f_title_ru,
        movie.title_ru,
        movie.russian_titles,
    ) + seq![
        (s.f_title_orig, ValueView::Text(movie.title_orig)),
        (s.f_title_primary, ValueView::Text(movie.title_primary)),
    ] + value_or_none(s.f_title_ru_raw, titles_value(movie.russian_titles)) + value_or_none(
        s.f_year,
        unsigned_value(movie.year),
    ) + seq![(s.f_title_type, ValueView::Text(movie.title_type))] + value_or_none(
        s.f_rating,
        real_value(movie.rating),
    ) + seq![(s.f_num_votes, ValueView::Unsigned(movie.num_votes as u64))] + value_or_none(
        s.f_genres,
        genres_value(movie.genres),
    ) + value_or_none(s.f_runtime_minutes, unsigned_value(movie.runtime_minutes))
}

/// The Russian titles of a document: the list, or else the one title.
pub open spec fn titles_of(list: Option<Seq<char>>, title_ru: Option<Seq<char>>) -> Seq<Seq<char>> {
    let read = match list {
        Some(json) => titles_read(json),
        None => None,
    };
    match (read, title_ru) {
        (Some(titles), _) => titles,
        (None, Some(title)) => seq![title],
        (None, None) => Seq::empty(),
    }
}

/// The genres of a document.
pub open spec fn genres_of(list: Option<Seq<char>>) -> Seq<Seq<char>> {
    match list {
        Some(text) => pieces_by(text, ", "@),
        None => Seq::empty(),
    }
}

/// The movie that a document is of.
pub open spec fn movie_in(s: MovieSchema, values: Seq<(u32, ValueView)>) -> MovieView {
    MovieView {
        tconst: or_empty(first_text(values, s.f_tconst)),
        title_ru: first_text(values, s.f_title_ru),
        title_orig: or_empty(first_text(values, s.f_title_orig)),
        title_primary: or_empty(first_text(values, s.f_title_primary)),
        russian_titles: titles_of(
            first_text(values, s.f_title_ru_raw),
            first_text(values, s.f_title_ru),
        ),
        year: low_part(first_unsigned(values, s.f_year)),
        title_type: or_empty(first_text(values, s.f_title_type)),
        rating: first_real(values, s.f_rating),
        num_votes: low_part(Some(first_unsigned(values, s.f_num_votes).unwrap_or(0))).unwrap(),
        genres: genres_of(first_text(values, s.f_genres)),
        runtime_minutes: low_part(first_unsigned(values, s.f_runtime_minutes)),
    }
}

// ---------------------------------------------------------------------------
// What is read back
// ---------------------------------------------------------------------------

/// Whether there is no comma with a space behind it in a text.
pub open spec fn is_plain(s: Seq<char>) -> bool {
    forall|i: int| 0 <= i < s.len() - 1 ==> !(#[trigger] s[i] == ',' && s[i + 1] == ' ')
}

/// Whether the document of a movie tells all there is to know of it: no genre has the mark
/// between genres in it, and a movie with a Russian title lists it.
pub open spec fn is_told_by_document(movie: MovieView) -> bool {
    &&& forall|i: int| 0 <= i < movie.genres.len() ==> is_plain(#[trigger] movie.genres[i])
    &&& movie.russian_titles.len() > 0 || movie.title_ru is None
}

proof fn lemma_first_of_both(a: Seq<(u32, ValueView)>, b: Seq<(u32, ValueView)>)
    ensures
        forall|field: u32| #[trigger]
            first_value(a + b, field) == (match first_value(a, field) {
                Some(v) => Some(v),
                None => first_value(b, field),
            }),
    decreases a.len(),
{
    if a.len() == 0 {
        assert(a + b =~= b);
    } else {
        lemma_first_of_both(a.skip(1), b);
        assert((a + b).skip(1) =~= a.skip(1) + b);
        assert forall|field: u32| #[trigger]
            first_value(a + b, field) == (match first_value(a, field) {
                Some(v) => Some(v),
                None => first_value(b, field),
            }) by {
            assert(first_value(a.skip(1) + b, field) == (match first_value(a.skip(1), field) {
                Some(v) => Some(v),
                None => first_value(b, field),
            }));
        }
    }
}

proof fn lemma_first_of_one(field: u32, value: ValueView)
    ensures
        forall|other: u32| #[trigger]
            first_value(seq![(field, value)], other) == (if other == field {
                Some(value)
            } else {
                None
            }),
{
    assert(seq![(field, value)].skip(1) =~= Seq::<(u32, ValueView)>::empty());
    assert forall|other: u32| #[trigger]
        first_value(seq![(field, value)], other) == (if other == field {
            Some(value)
        } else {
            None
        }) by {
        assert(first_value(seq![(field, value)].skip(1), other) is None);
    }
}

proof fn lemma_first_of_optional(field: u32, value: Option<ValueView>)
    ensures
        forall|other: u32| #[trigger]
            first_value(value_or_none(field, value), other) == (if other == field {
                value
            } else {
                None
            }),
{
    match value {
        Some(v) => {
            lemma_first_of_one(field, v);
        },
        None => {},
    }
}

proof fn lemma_first_of_none(values: Seq<(u32, ValueView)>, field: u32)
    requires
        forall|i: int| 0 <= i < values.len() ==> (#[trigger] values[i]).0 != field,
    ensures
        first_value(values, field) is None,
    decreases values.len(),
{
    if values.len() > 0 {
        let rest = values.skip(1);
        assert(forall|i: int| 0 <= i < rest.len() ==> #[trigger] rest[i] == values[i + 1]);
        lemma_first_of_none(rest, field);
    }
}

proof fn lemma_first_of_russian(field: u32, first: Option<Seq<char>>, titles: Seq<Seq<char>>)
    ensures
        forall|other: u32| #[trigger]
            first_value(russian_values(field, first, titles), other) == (if other == field {
                text_value(first)
            } else {
                None
            }),
{
    let values = russian_values(field, first, titles);
    match first {
        Some(title) => {
            let reader = other_title(field, title);
            assert forall|i: int| 0 <= i < values.len() implies (#[trigger] values[i]).0 == field by {
                if i > 0 {
                    let value = titles.filter_map(reader)[i - 1];
                    assert(values[i] == value);
                    assert(titles.filter_map(reader).contains(value));
                    titles.lemma_filter_map_contains(reader, value);
                }
            }
            assert forall|other: u32| #[trigger]
                first_value(values, other) == (if other == field {
                    text_value(first)
                } else {
                    None
                }) by {
                if other != field {
                    lemma_first_of_none(values, other);
                }
            }
        },
        None => {},
    }
}

proof fn lemma_pieces_of_both(a: Seq<char>, b: Seq<char>)
    ensures
        pieces_by(a + ", "@ + b, ", "@) == pieces_by(a, ", "@) + pieces_by(b, ", "@),
    decreases a.len(),
{
    reveal_strlit(", ");
    let sep = ", "@;
    let whole = a + sep + b;
    let n = find_text(a, sep) as int;
    lemma_find_text(a, sep);
    if n < a.len() {
        assert(a.skip(n).take(2) == sep);
        assert forall|i: int| 0 <= i < n implies !has_prefix(#[trigger] whole.skip(i), sep) by {
            assert(!has_prefix(a.skip(i), sep));
            assert(whole.skip(i).take(2) =~= a.skip(i).take(2));
        }
        assert(whole.skip(n).take(2) =~= a.skip(n).take(2));
        lemma_find_text_is(whole, sep, n);
        assert(whole.take(n) =~= a.take(n));
        assert(whole.skip(n + 2) =~= a.skip(n + 2) + sep + b);
        lemma_pieces_of_both(a.skip(n + 2), b);
        assert(seq![a.take(n)] + (pieces_by(a.skip(n + 2), sep) + pieces_by(b, sep)) =~= (seq![
            a.take(n),
        ] + pieces_by(a.skip(n + 2), sep)) + pieces_by(b, sep));
    } else {
        assert forall|i: int| 0 <= i < n implies !has_prefix(#[trigger] whole.skip(i), sep) by {
            assert(!has_prefix(a.skip(i), sep));
            if i + 2 <= a.len() {
                assert(whole.skip(i).take(2) =~= a.skip(i).take(2));
            } else {
                assert(whole.skip(i).take(2)[1] == whole[i + 1]);
                assert(whole[i + 1] == sep[0]);
            }
        }
        assert(whole.skip(n).take(2) =~= sep);
        lemma_find_text_is(whole, sep, n);
        assert(whole.take(n) =~= a);
        assert(whole.skip(n + 2) =~= b);
    }
}

proof fn lemma_plain_is_one_piece(s: Seq<char>)
    requires
        is_plain(s),
    ensures
        pieces_by(s, ", "@) == seq![s],
{
    reveal_strlit(", ");
    let sep = ", "@;
    assert forall|i: int| 0 <= i < s.len() implies !has_prefix(#[trigger] s.skip(i), sep) by {
        if has_prefix(s.skip(i), sep) {
            assert(s.skip(i).take(2)[0] == s[i]);
            assert(s.skip(i).take(2)[1] == s[i + 1]);
        }
    }
    lemma_find_text_is(s, sep, s.len() as int);
}

/// Genres without the mark between genres in them are read back as they were written.
pub proof fn law_genres_are_read_back(genres: Seq<Seq<char>>)
    requires
        genres.len() > 0,
        forall|i: int| 0 <= i < genres.len() ==> is_plain(#[trigger] genres[i]),
    ensures
        pieces_by(joined(genres, ", "@), ", "@) == genres,
    decreases genres.len(),
{
    if genres.len() == 1 {
        lemma_plain_is_one_piece(genres[0]);
        assert(seq![genres[0]] =~= genres);
    } else {
        let before = genres.drop_last();
        assert(forall|i: int| 0 <= i < before.len() ==> #[trigger] before[i] == genres[i]);
        law_genres_are_read_back(before);
        lemma_pieces_of_both(joined(before, ", "@), genres.last());
        lemma_plain_is_one_piece(genres.last());
        assert(before + seq![genres.last()] =~= genres);
    }
}

/// The document of a movie holds each thing that is known of it in the field of that name: the first
/// value there is it, and there is none where nothing is known.
pub proof fn law_documents_tell_each_field(s: MovieSchema, movie: MovieView)
    requires
        s.wf(),
    ensures
        ({
            let values = movie_values(s, movie);
            &&& first_value(values, s.f_tconst) == Some(ValueView::Text(movie.tconst))
            &&& first_value(values, s.f_title_ru) == text_value(movie.title_ru)
            &&& first_value(values, s.f_title_orig) == Some(ValueView::Text(movie.title_orig))
            &&& first_value(values, s.f_title_primary) == Some(ValueView::Text(movie.title_primary))
            &&& first_value(values, s.f_title_ru_raw) == titles_value(movie.russian_titles)
            &&& first_value(values, s.f_year) == unsigned_value(movie.year)
            &&& first_value(values, s.f_title_type) == Some(ValueView::Text(movie.title_type))
            &&& first_value(values, s.f_rating) == real_value(movie.rating)
            &&& first_value(values, s.f_num_votes) == Some(
                ValueView::Unsigned(movie.num_votes as u64),
            )
            &&& first_value(values, s.f_genres) == genres_value(movie.genres)
            &&& first_value(values, s.f_runtime_minutes) == unsigned_value(movie.runtime_minutes)
            &&& values.contains((s.f_tconst, ValueView::Text(movie.tconst)))
            &&& values.contains((s.f_title_orig, ValueView::Text(movie.title_orig)))
            &&& values.contains((s.f_title_primary, ValueView::Text(movie.title_primary)))
            &&& values.contains((s.f_title_type, ValueView::Text(movie.title_type)))
        }),
{
    let p0 = seq![(s.f_tconst, ValueView::Text(movie.tconst))];
    let p1 = russian_values(s.f_title_ru, movie.title_ru, movie.russian_titles);
    let orig = seq![(s.f_title_orig, ValueView::Text(movie.title_orig))];
    let primary = seq![(s.f_title_primary, ValueView::Text(movie.title_primary))];
    let p2 = seq![
        (s.f_title_orig, ValueView::Text(movie.title_orig)),
        (s.f_title_primary, ValueView::Text(movie.title_primary)),
    ];
    let p3 = value_or_none(s.f_title_ru_raw, titles_value(movie.russian_titles));
    let p4 = value_or_none(s.f_year, unsigned_value(movie.year));
    let p5 = seq![(s.f_title_type, ValueView::Text(movie.title_type))];
    let p6 = value_or_none(s.f_rating, real_value(movie.rating));
    let p7 = seq![(s.f_num_votes, ValueView::Unsigned(movie.num_votes as u64))];
    let p8 = value_or_none(s.f_genres, genres_value(movie.genres));
    let p9 = value_or_none(s.f_runtime_minutes, unsigned_value(movie.runtime_minutes));
    lemma_first_of_one(s.f_tconst, ValueView::Text(movie.tconst));
    lemma_first_of_russian(s.f_title_ru, movie.title_ru, movie.russian_titles);
    lemma_first_of_one(s.f_title_orig, ValueView::Text(movie.title_orig));
    lemma_first_of_one(s.f_title_primary, ValueView::Text(movie.title_primary));
    assert(p2 =~= orig + primary);
    lemma_first_of_both(orig, primary);
    lemma_first_of_optional(s.f_title_ru_raw, titles_value(movie.russian_titles));
    lemma_first_of_optional(s.f_year, unsigned_value(movie.year));
    lemma_first_of_one(s.f_title_type, ValueView::Text(movie.title_type));
    lemma_first_of_optional(s.f_rating, real_value(movie.rating));
    lemma_first_of_one(s.f_num_votes, ValueView::Unsigned(movie.num_votes as u64));
    lemma_first_of_optional(s.f_genres, genres_value(movie.genres));
    lemma_first_of_optional(s.f_runtime_minutes, unsigned_value(movie.runtime_minutes));
    lemma_first_of_both(p0, p1);
    lemma_first_of_both(p0 + p1, p2);
    lemma_first_of_both(p0 + p1 + p2, p3);
    lemma_first_of_both(p0 + p1 + p2 + p3, p4);
    lemma_first_of_both(p0 + p1 + p2 + p3 + p4, p5);
    lemma_first_of_both(p0 + p1 + p2 + p3 + p4 + p5, p6);
    lemma_first_of_both(p0 + p1 + p2 + p3 + p4 + p5 + p6, p7);
    lemma_first_of_both(p0 + p1 + p2 + p3 + p4 + p5 + p6 + p7, p8);
    lemma_first_of_both(p0 + p1 + p2 + p3 + p4 + p5 + p6 + p7 + p8, p9);
    let values = movie_values(s, movie);
    lemma_first_is_there(values, s.f_tconst);
    lemma_first_is_there(values, s.f_title_orig);
    lemma_first_is_there(values, s.f_title_primary);
    lemma_first_is_there(values, s.f_title_type);
}

proof fn lemma_first_is_there(values: Seq<(u32, ValueView)>, field: u32)
    ensures
        first_value(values, field) is Some ==> values.contains(
            (field, first_value(values, field).unwrap()),
        ),
    decreases values.len(),
{
    if values.len() > 0 {
        if values[0].0 == field {
            assert(values.contains(values[0]));
        } else {
            lemma_first_is_there(values.skip(1), field);
            if first_value(values, field) is Some {
                let value = (field, first_value(values, field).unwrap());
                let k = choose|k: int|
                    0 <= k < values.skip(1).len() && values.skip(1)[k] == value;
                assert(values[k + 1] == value);
            }
        }
    }
}

proof fn lemma_read_back(s: MovieSchema, movie: MovieView)
    requires
        s.wf(),
        is_told_by_document(movie),
        movie.russian_titles.len() > 0 ==> titles_read(titles_json(movie.russian_titles)) == Some(
            movie.russian_titles,
        ),
    ensures
        movie_in(s, movie_values(s, movie)) == movie,
{
    law_documents_tell_each_field(s, movie);
    let read = movie_in(s, movie_values(s, movie));
    if movie.genres.len() > 0 {
        law_genres_are_read_back(movie.genres);
    } else {
        assert(movie.genres =~= Seq::empty());
    }
    if movie.russian_titles.len() == 0 {
        assert(movie.russian_titles =~= Seq::empty());
    }
    assert(read.russian_titles == movie.russian_titles);
    assert(read.genres == movie.genres);
}

/// Every Russian title of a movie that has one is in the field that Russian words are searched for
/// in, and that field is found by its words.
pub proof fn law_every_russian_title_is_searched_in(s: MovieSchema, movie: MovieView, i: int)
    requires
        s.wf(),
        movie.title_ru is Some,
        0 <= i < movie.russian_titles.len(),
    ensures
        movie_values(s, movie).contains((s.f_title_ru, ValueView::Text(movie.title_ru.unwrap()))),
        movie_values(s, movie).contains((s.f_title_ru, ValueView::Text(movie.russian_titles[i]))),
        schema_fields(s.schema)[s.f_title_ru as int] == prose("title_ru"@, "russian_yo"@),
{
    let first = movie.title_ru.unwrap();
    let title = movie.russian_titles[i];
    let reader = other_title(s.f_title_ru, first);
    let all = movie_values(s, movie);
    let others = movie.russian_titles.filter_map(reader);
    assert(all[1] == (s.f_title_ru, ValueView::Text(first)));
    if title != first {
        let value = (s.f_title_ru, ValueView::Text(title));
        lemma_filter_map_keeps(movie.russian_titles, reader, i);
        let k = choose|k: int| 0 <= k < others.len() && others[k] == value;
        assert(all[k + 2] == value);
    }
}

fn text_or_empty(o: Option<String>) -> (r: String)
    ensures
        r@ == or_empty(text_opt(o)),
{
    match o {
        Some(s) => s,
        None => String::new(),
    }
}

fn add_text_opt(doc: &mut tantivy::TantivyDocument, field: u32, text: &Option<String>)
    ensures
        document_values(*final(doc)) == document_values(*old(doc)) + value_or_none(
            field,
            text_value(text_opt(*text)),
        ),
{
    match text {
        Some(s) => {
            add_text(doc, field, s.as_str());
        },
        None => {},
    }
}

fn add_unsigned_opt(doc: &mut tantivy::TantivyDocument, field: u32, number: Option<u32>)
    ensures
        document_values(*final(doc)) == document_values(*old(doc)) + value_or_none(
            field,
            unsigned_value(number),
        ),
{
    match number {
        Some(n) => {
            add_u64(doc, field, n as u64);
        },
        None => {},
    }
}

fn add_real_opt(doc: &mut tantivy::TantivyDocument, field: u32, number: Option<u64>)
    ensures
        document_values(*final(doc)) == document_values(*old(doc)) + value_or_none(
            field,
            real_value(number),
        ),
{
    match number {
        Some(key) => {
            add_real(doc, field, key);
        },
        None => {},
    }
}

fn add_russian(
    doc: &mut tantivy::TantivyDocument,
    field: u32,
    first: &Option<String>,
    titles: &Vec<String>,
)
    ensures
        document_values(*final(doc)) == document_values(*old(doc)) + russian_values(
            field,
            text_opt(*first),
            texts(titles@),
        ),
{
    match first {
        Some(title) => {
            add_text(doc, field, title.as_str());
            let ghost before = document_values(*doc);
            let ghost all = texts(titles@);
            let ghost reader = other_title(field, title@);
            for i in 0..titles.len()
                invariant
                    all == texts(titles@),
                    reader == other_title(field, title@),
                    document_values(*doc) =~= before + all.take(i as int).filter_map(reader),
            {
                proof {
                    all.lemma_filter_map_take_succ(reader, i as int);
                    assert(all[i as int] == titles@[i as int]@);
                }
                if !same(titles[i].as_str(), title.as_str()) {
                    add_text(doc, field, titles[i].as_str());
                }
            }
            proof {
                assert(all.take(all.len() as int) =~= all);
            }
        },
        None => {},
    }
}

fn add_titles(doc: &mut tantivy::TantivyDocument, field: u32, titles: &Vec<String>)
    ensures
        document_values(*final(doc)) == document_values(*old(doc)) + value_or_none(
            field,
            titles_value(texts(titles@)),
        ),
        titles@.len() > 0 ==> titles_read(titles_json(texts(titles@))) == Some(texts(titles@)),
{
    if titles.len() > 0 {
        let json = write_titles(titles);
        add_text_opt(doc, field, &json);
    }
}

fn add_genres(doc: &mut tantivy::TantivyDocument, field: u32, genres: &Vec<String>)
    ensures
        document_values(*final(doc)) == document_values(*old(doc)) + value_or_none(
            field,
            genres_value(texts(genres@)),
        ),
{
    if genres.len() > 0 {
        let text = join(genres, ", ");
        add_text(doc, field, text.as_str());
    }
}

impl MovieSchema {
    /// The document of a movie. It is read back as the movie, where it tells all there is to know
    /// of it.
    pub fn to_tantivy_doc(&self, movie: &MovieDoc) -> (r: tantivy::TantivyDocument)
        ensures
            document_values(r) == movie_values(*self, movie@),
            self.wf() && is_told_by_document(movie@) ==> movie_in(*self, document_values(r))
                == movie@,
    {
        let mut doc = tantivy::TantivyDocument::new();
        add_text(&mut doc, self.f_tconst, movie.tconst.as_str());
        add_russian(&mut doc, self.f_title_ru, &movie.title_ru, &movie.russian_titles);
        add_text(&mut doc, self.f_title_orig, movie.title_orig.as_str());
        add_text(&mut doc, self.f_title_primary, movie.title_primary.as_str());
        add_titles(&mut doc, self.f_title_ru_raw, &movie.russian_titles);
        add_unsigned_opt(&mut doc, self.f_year, movie.year);
        add_text(&mut doc, self.f_title_type, movie.title_type.as_str());
        add_real_opt(&mut doc, self.f_rating, movie.rating);
        add_u64(&mut doc, self.f_num_votes, movie.num_votes as u64);
        add_genres(&mut doc, self.f_genres, &movie.genres);
        add_unsigned_opt(&mut doc, self.f_runtime_minutes, movie.runtime_minutes);
        proof {
            assert(document_values(doc) =~= movie_values(*self, movie@));
            if self.wf() && is_told_by_document(movie@) {
                lemma_read_back(*self, movie@);
            }
        }
        doc
    }

    /// The movie that a document is of.
    pub fn from_tantivy_doc(&self, doc: &tantivy::TantivyDocument) -> (r: MovieDoc)
        ensures
            r@ == movie_in(*self, document_values(*doc)),
    {
        let title_ru = read_text(doc, self.f_title_ru);
        let listed = match read_text(doc, self.f_title_ru_raw) {
            Some(json) => read_titles(json.as_str()),
            None => None,
        };
        let russian_titles = match listed {
            Some(titles) => titles,
            None => {
                let mut titles: Vec<String> = Vec::new();
                match &title_ru {
                    Some(title) => {
                        titles.push(title.clone());
                    },
                    None => {},
                }
                titles
            },
        };
        let genres = match read_text(doc, self.f_genres) {
            Some(text) => {
                proof {
                    reveal_strlit(", ");
                }
                split_on_text(text.as_str(), ", ")
            },
            None => Vec::new(),
        };
        let num_votes: u64 = read_unsigned(doc, self.f_num_votes).unwrap_or(0);
        let movie = MovieDoc {
            tconst: text_or_empty(read_text(doc, self.f_tconst)),
            title_ru,
            title_orig: text_or_empty(read_text(doc, self.f_title_orig)),
            title_primary: text_or_empty(read_text(doc, self.f_title_primary)),
            russian_titles,
            year: read_low_part(read_unsigned(doc, self.f_year)),
            title_type: text_or_empty(read_text(doc, self.f_title_type)),
            rating: read_real(doc, self.f_rating),
            num_votes: low_32(num_votes),
            genres,
            runtime_minutes: read_low_part(read_unsigned(doc, self.f_runtime_minutes)),
        };
        proof {
            let held = movie_in(*self, document_values(*doc));
            assert(texts(movie.russian_titles@) =~= held.russian_titles);
            assert(texts(movie.genres@) =~= held.genres);
        }
        movie
    }
}

/// How the fields are kept: all of them are stored. The id and the type are found as a whole, the
/// titles by their words and the places of these, the Russian ones with `ё` taken for `е`. Years,
/// votes and lengths are searched by ranges.
pub proof fn law_fields_are_kept_for_search(s: MovieSchema)
    requires
        s.wf(),
    ensures
        ({
            let fields = schema_fields(s.schema);
            let whole = FieldKind::Text(
                TextOptionsView {
                    indexing: Some(IndexingView { tokenizer: "raw"@, postings: Postings::Basic }),
                    stored: true,
                    fast: true,
                    fast_tokenizer: None,
                },
            );
            let by_words = |tokenizer: Seq<char>|
                FieldKind::Text(
                    TextOptionsView {
                        indexing: Some(
                            IndexingView { tokenizer, postings: Postings::WithFreqsAndPositions },
                        ),
                        stored: true,
                        fast: false,
                        fast_tokenizer: None,
                    },
                );
            let only_kept = FieldKind::Text(
                TextOptionsView { indexing: None, stored: true, fast: false, fast_tokenizer: None },
            );
            let by_range = FieldKind::Unsigned(
                NumericOptionsView { stored: true, fast: true, indexed: true },
            );
            &&& fields.len() == 11
            &&& fields[s.f_tconst as int] == (FieldView { name: "tconst"@, kind: whole })
            &&& fields[s.f_title_type as int] == (FieldView { name: "title_type"@, kind: whole })
            &&& fields[s.f_title_ru as int] == (FieldView {
                name: "title_ru"@,
                kind: by_words("russian_yo"@),
            })
            &&& fields[s.f_title_orig as int] == (FieldView {
                name: "title_orig"@,
                kind: by_words("default"@),
            })
            &&& fields[s.f_title_primary as int] == (FieldView {
                name: "title_primary"@,
                kind: by_words("default"@),
            })
            &&& fields[s.f_title_ru_raw as int] == (FieldView {
                name: "title_ru_raw"@,
                kind: only_kept,
            })
            &&& fields[s.f_genres as int] == (FieldView { name: "genres"@, kind: only_kept })
            &&& fields[s.f_year as int] == (FieldView { name: "year"@, kind: by_range })
            &&& fields[s.f_num_votes as int] == (FieldView { name: "num_votes"@, kind: by_range })
            &&& fields[s.f_runtime_minutes as int] == (FieldView {
                name: "runtime_minutes"@,
                kind: by_range,
            })
            &&& fields[s.f_rating as int] == (FieldView {
                name: "rating"@,
                kind: FieldKind::Real(
                    NumericOptionsView { stored: true, fast: true, indexed: false },
                ),
            })
        }),
{
}

/// A movie is read from the first values of the fields of its document: a missing text is empty,
/// missing votes are none, and whatever else is missing is not known.
pub proof fn law_documents_are_read_by_field(s: MovieSchema, values: Seq<(u32, ValueView)>, n: u32)
    ensures
        ({
            let movie = movie_in(s, values);
            let votes = first_unsigned(values, s.f_num_votes);
            let year = first_unsigned(values, s.f_year);
            let minutes = first_unsigned(values, s.f_runtime_minutes);
            let list = first_text(values, s.f_title_ru_raw);
            let genres = first_text(values, s.f_genres);
            &&& first_text(values, s.f_tconst) == Some(movie.tconst) || first_text(
                values,
                s.f_tconst,
            ) is None && movie.tconst.len() == 0
            &&& first_text(values, s.f_title_orig) == Some(movie.title_orig) || first_text(
                values,
                s.f_title_orig,
            ) is None && movie.title_orig.len() == 0
            &&& first_text(values, s.f_title_primary) == Some(movie.title_primary) || first_text(
                values,
                s.f_title_primary,
            ) is None && movie.title_primary.len() == 0
            &&& first_text(values, s.f_title_type) == Some(movie.title_type) || first_text(
                values,
                s.f_title_type,
            ) is None && movie.title_type.len() == 0
            &&& movie.title_ru == first_text(values, s.f_title_ru)
            &&& movie.rating == first_real(values, s.f_rating)
            &&& votes is None ==> movie.num_votes == 0
            &&& votes == Some(n as u64) ==> movie.num_votes == n
            &&& year is None ==> movie.year is None
            &&& year == Some(n as u64) ==> movie.year == Some(n)
            &&& minutes is None ==> movie.runtime_minutes is None
            &&& minutes == Some(n as u64) ==> movie.runtime_minutes == Some(n)
            &&& genres is None ==> movie.genres.len() == 0
            &&& list is Some && titles_read(list.unwrap()) is Some ==> movie.russian_titles
                == titles_read(list.unwrap()).unwrap()
            &&& (list is None || titles_read(list.unwrap()) is None) && movie.title_ru is Some
                ==> movie.russian_titles == seq![movie.title_ru.unwrap()]
            &&& (list is None || titles_read(list.unwrap()) is None) && movie.title_ru is None
                ==> movie.russian_titles.len() == 0
        }),
{
}

} // verus!
