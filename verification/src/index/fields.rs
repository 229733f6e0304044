//! How the fields of an index are declared to `tantivy`.
use crate::text::str_opt;
use vstd::prelude::*;

verus! {

// ---------------------------------------------------------------------------
// What a field is
// ---------------------------------------------------------------------------

/// What is kept about where a word occurs.
#[derive(Debug, Clone, Copy, PartialEq, Eq, Structural)]
pub enum Postings {
    /// In which documents.
    Basic,
    /// In which documents, how often and at which places.
    WithFreqsAndPositions,
}

/// How the words of a field are indexed.
pub struct IndexingView {
    pub tokenizer: Seq<char>,
    pub postings: Postings,
}

/// How a field of text is kept.
pub struct TextOptionsView {
    pub indexing: Option<IndexingView>,
    pub stored: bool,
    pub fast: bool,
    /// The name of the tokenizer of the fast field, where it has one.
    pub fast_tokenizer: Option<Seq<char>>,
}

/// How a field of numbers is kept.
pub struct NumericOptionsView {
    pub stored: bool,
    pub fast: bool,
    pub indexed: bool,
}

/// What a field holds and how it is kept.
pub enum FieldKind {
    Text(TextOptionsView),
    Unsigned(NumericOptionsView),
    Real(NumericOptionsView),
}

/// A field of an index.
pub struct FieldView {
    pub name: Seq<char>,
    pub kind: FieldKind,
}

/// Whether there is a field of a name.
pub open spec fn has_field(fields: Seq<FieldView>, name: Seq<char>) -> bool {
    exists|i: int| 0 <= i < fields.len() && (#[trigger] fields[i]).name == name
}

// ---------------------------------------------------------------------------
// The types of `tantivy`
// ---------------------------------------------------------------------------

/// How the words of a field of text are indexed.
#[verifier::external_type_specification]
#[verifier::external_body]
pub struct ExTextFieldIndexing(tantivy::schema::TextFieldIndexing);

/// How a field of text is kept.
#[verifier::external_type_specification]
#[verifier::external_body]
pub struct ExTextOptions(tantivy::schema::TextOptions);

/// How a field of numbers is kept.
#[verifier::external_type_specification]
#[verifier::external_body]
pub struct ExNumericOptions(tantivy::schema::NumericOptions);

/// The fields of an index, while they are declared.
#[verifier::external_type_specification]
#[verifier::external_body]
pub struct ExSchemaBuilder(tantivy::schema::SchemaBuilder);

/// The fields of an index.
#[verifier::external_type_specification]
#[verifier::external_body]
pub struct ExSchema(tantivy::schema::Schema);

/// What a `TextFieldIndexing` says.
pub uninterp spec fn indexing_of(indexing: tantivy::schema::TextFieldIndexing) -> IndexingView;

/// What a `TextOptions` says.
pub uninterp spec fn text_options_of(options: tantivy::schema::TextOptions) -> TextOptionsView;

/// What a `NumericOptions` says.
pub uninterp spec fn numeric_options_of(options: tantivy::schema::NumericOptions) ->
    NumericOptionsView;

/// The fields that were declared to a `SchemaBuilder`, in order.
pub uninterp spec fn declared_fields(builder: tantivy::schema::SchemaBuilder) -> Seq<FieldView>;

/// The fields of a `Schema`, in order.
pub uninterp spec fn schema_fields(schema: tantivy::schema::Schema) -> Seq<FieldView>;

// ---------------------------------------------------------------------------
// Text
// ---------------------------------------------------------------------------

/// `TextFieldIndexing::default`: the tokenizer `default`, and no more than the documents.
pub assume_specification[ <tantivy::schema::TextFieldIndexing as Default>::default ]() -> (r:
    tantivy::schema::TextFieldIndexing)
    ensures
        indexing_of(r) == (IndexingView { tokenizer: "default"@, postings: Postings::Basic }),
;

/// `TextFieldIndexing::set_tokenizer`: changes the tokenizer and nothing else.
pub assume_specification[ tantivy::schema::TextFieldIndexing::set_tokenizer ](
    indexing: tantivy::schema::TextFieldIndexing,
    tokenizer_name: &str,
) -> (r: tantivy::schema::TextFieldIndexing)
    ensures
        indexing_of(r) == (IndexingView { tokenizer: tokenizer_name@, ..indexing_of(indexing) }),
;

/// `TextFieldIndexing::set_index_option`: changes what is kept and nothing else.
#[verifier::external_body]
pub(crate) fn set_postings(
    indexing: tantivy::schema::TextFieldIndexing,
    postings: Postings,
) -> (r: tantivy::schema::TextFieldIndexing)
    ensures
        indexing_of(r) == (IndexingView { postings, ..indexing_of(indexing) }),
{
    indexing.set_index_option(match postings {
        Postings::Basic => tantivy::schema::IndexRecordOption::Basic,
        Postings::WithFreqsAndPositions => tantivy::schema::IndexRecordOption::WithFreqsAndPositions,
    })
}

/// `TextOptions::default`: neither indexed nor stored nor fast.
pub assume_specification[ <tantivy::schema::TextOptions as Default>::default ]() -> (r:
    tantivy::schema::TextOptions)
    ensures
        text_options_of(r) == (TextOptionsView {
            indexing: None,
            stored: false,
            fast: false,
            fast_tokenizer: None,
        }),
;

/// `TextOptions::set_indexing_options`: indexes the field, and changes nothing else.
pub assume_specification[ tantivy::schema::TextOptions::set_indexing_options ](
    options: tantivy::schema::TextOptions,
    indexing: tantivy::schema::TextFieldIndexing,
) -> (r: tantivy::schema::TextOptions)
    ensures
        text_options_of(r) == (TextOptionsView {
            indexing: Some(indexing_of(indexing)),
            ..text_options_of(options)
        }),
;

/// `TextOptions::set_stored`: stores the field, and changes nothing else.
pub assume_specification[ tantivy::schema::TextOptions::set_stored ](
    options: tantivy::schema::TextOptions,
) -> (r: tantivy::schema::TextOptions)
    ensures
        text_options_of(r) == (TextOptionsView { stored: true, ..text_options_of(options) }),
;

/// `TextOptions::set_fast`: makes the field fast, with the tokenizer that is named or with none, and
/// changes nothing else.
pub assume_specification<'a>[ tantivy::schema::TextOptions::set_fast ](
    options: tantivy::schema::TextOptions,
    tokenizer_name: Option<&'a str>,
) -> (r: tantivy::schema::TextOptions)
    ensures
        text_options_of(r) == (TextOptionsView {
            fast: true,
            fast_tokenizer: str_opt(tokenizer_name),
            ..text_options_of(options)
        }),
;

// ---------------------------------------------------------------------------
// Numbers
// ---------------------------------------------------------------------------

/// `NumericOptions::default`: neither stored nor fast nor indexed.
pub assume_specification[ <tantivy::schema::NumericOptions as Default>::default ]() -> (r:
    tantivy::schema::NumericOptions)
    ensures
        numeric_options_of(r) == (NumericOptionsView { stored: false, fast: false, indexed: false }),
;

/// `NumericOptions::set_stored`: stores the field, and changes nothing else.
pub assume_specification[ tantivy::schema::NumericOptions::set_stored ](
    options: tantivy::schema::NumericOptions,
) -> (r: tantivy::schema::NumericOptions)
    ensures
        numeric_options_of(r) == (NumericOptionsView {
            stored: true,
            ..numeric_options_of(options)
        }),
;

/// `NumericOptions::set_fast`: makes the field fast, and changes nothing else.
pub assume_specification[ tantivy::schema::NumericOptions::set_fast ](
    options: tantivy::schema::NumericOptions,
) -> (r: tantivy::schema::NumericOptions)
    ensures
        numeric_options_of(r) == (NumericOptionsView { fast: true, ..numeric_options_of(options) }),
;

/// `NumericOptions::set_indexed`: indexes the field, and changes nothing else.
pub assume_specification[ tantivy::schema::NumericOptions::set_indexed ](
    options: tantivy::schema::NumericOptions,
) -> (r: tantivy::schema::NumericOptions)
    ensures
        numeric_options_of(r) == (NumericOptionsView {
            indexed: true,
            ..numeric_options_of(options)
        }),
;

// ---------------------------------------------------------------------------
// Declaring fields
// ---------------------------------------------------------------------------

/// `Schema::builder`: nothing is declared yet.
pub assume_specification[ tantivy::schema::Schema::builder ]() -> (r:
    tantivy::schema::SchemaBuilder)
    ensures
        declared_fields(r) == Seq::<FieldView>::empty(),
;

/// `SchemaBuilder::add_text_field`: declares one more field, whose number is how many there were.
/// It panics where there is a field of that name, where the name is empty and where it begins with
/// `-`.
#[verifier::external_body]
pub(crate) fn add_text_field(
    builder: &mut tantivy::schema::SchemaBuilder,
    name: &str,
    options: tantivy::schema::TextOptions,
) -> (r: u32)
    requires
        !has_field(declared_fields(*old(builder)), name@),
        name@.len() > 0,
        name@[0] != '-',
        declared_fields(*old(builder)).len() < u32::MAX,
    ensures
        r == declared_fields(*old(builder)).len(),
        declared_fields(*final(builder)) == declared_fields(*old(builder)).push(
            FieldView { name: name@, kind: FieldKind::Text(text_options_of(options)) },
        ),
{
    builder.add_text_field(name, options).field_id()
}

/// `SchemaBuilder::add_u64_field`: declares one more field, whose number is how many there were.
/// It panics where there is a field of that name, where the name is empty and where it begins with
/// `-`.
#[verifier::external_body]
pub(crate) fn add_u64_field(
    builder: &mut tantivy::schema::SchemaBuilder,
    name: &str,
    options: tantivy::schema::NumericOptions,
) -> (r: u32)
    requires
        !has_field(declared_fields(*old(builder)), name@),
        name@.len() > 0,
        name@[0] != '-',
        declared_fields(*old(builder)).len() < u32::MAX,
    ensures
        r == declared_fields(*old(builder)).len(),
        declared_fields(*final(builder)) == declared_fields(*old(builder)).push(
            FieldView { name: name@, kind: FieldKind::Unsigned(numeric_options_of(options)) },
        ),
{
    builder.add_u64_field(name, options).field_id()
}

/// `SchemaBuilder::add_f64_field`: declares one more field, whose number is how many there were.
/// It panics where there is a field of that name, where the name is empty and where it begins with
/// `-`.
#[verifier::external_body]
pub(crate) fn add_real_field(
    builder: &mut tantivy::schema::SchemaBuilder,
    name: &str,
    options: tantivy::schema::NumericOptions,
) -> (r: u32)
    requires
        !has_field(declared_fields(*old(builder)), name@),
        name@.len() > 0,
        name@[0] != '-',
        declared_fields(*old(builder)).len() < u32::MAX,
    ensures
        r == declared_fields(*old(builder)).len(),
        declared_fields(*final(builder)) == declared_fields(*old(builder)).push(
            FieldView { name: name@, kind: FieldKind::Real(numeric_options_of(options)) },
        ),
{
    builder.add_f64_field(name, options).field_id()
}

/// `SchemaBuilder::build`: the fields that were declared.
pub assume_specification[ tantivy::schema::SchemaBuilder::build ](
    builder: tantivy::schema::SchemaBuilder,
) -> (r: tantivy::schema::Schema)
    ensures
        schema_fields(r) == declared_fields(builder),
;

} // verus!
