//! What the documents of `tantivy` hold.
use vstd::prelude::*;

verus! {

/// A value of a field. A real number is held as the 64-bit key that `tantivy::f64_to_u64` gives
/// it.
#[derive(Debug, Clone)]
pub enum FieldValue {
    Text(String),
    Unsigned(u64),
    Real(u64),
    /// Something else.
    Other,
}

/// What a [`FieldValue`] holds.
pub enum ValueView {
    Text(Seq<char>),
    Unsigned(u64),
    Real(u64),
    Other,
}

impl View for FieldValue {
    type V = ValueView;

    open spec fn view(&self) -> ValueView {
        match *self {
            FieldValue::Text(s) => ValueView::Text(s@),
            FieldValue::Unsigned(n) => ValueView::Unsigned(n),
            FieldValue::Real(key) => ValueView::Real(key),
            FieldValue::Other => ValueView::Other,
        }
    }
}

/// The first value of a field.
pub open spec fn first_value(values: Seq<(u32, ValueView)>, field: u32) -> Option<ValueView>
    decreases values.len(),
{
    if values.len() == 0 {
        None
    } else if values[0].0 == field {
        Some(values[0].1)
    } else {
        first_value(values.skip(1), field)
    }
}

/// The text of the first value of a field.
pub open spec fn first_text(values: Seq<(u32, ValueView)>, field: u32) -> Option<Seq<char>> {
    match first_value(values, field) {
        Some(ValueView::Text(s)) => Some(s),
        _ => None,
    }
}

/// The unsigned number of the first value of a field.
pub open spec fn first_unsigned(values: Seq<(u32, ValueView)>, field: u32) -> Option<u64> {
    match first_value(values, field) {
        Some(ValueView::Unsigned(n)) => Some(n),
        _ => None,
    }
}

/// The real number of the first value of a field.
pub open spec fn first_real(values: Seq<(u32, ValueView)>, field: u32) -> Option<u64> {
    match first_value(values, field) {
        Some(ValueView::Real(key)) => Some(key),
        _ => None,
    }
}

/// A document of `tantivy`.
#[verifier::external_type_specification]
#[verifier::external_body]
pub struct ExDocument(tantivy::TantivyDocument);

/// The values in a document, in the order in which they were added, each with the number of its
/// field. A value is taken by its variant; any but text and numbers is something else.
pub uninterp spec fn document_values(doc: tantivy::TantivyDocument) -> Seq<(u32, ValueView)>;

/// `TantivyDocument::new`: a document without values.
pub assume_specification[ tantivy::TantivyDocument::new ]() -> (r: tantivy::TantivyDocument)
    ensures
        document_values(r) == Seq::<(u32, ValueView)>::empty(),
;

/// `TantivyDocument::add_text`: one more value, a text, behind the others.
#[verifier::external_body]
pub(crate) fn add_text(doc: &mut tantivy::TantivyDocument, field: u32, text: &str)
    ensures
        document_values(*final(doc)) == document_values(*old(doc)).push(
            (field, ValueView::Text(text@)),
        ),
{
    doc.add_text(tantivy::schema::Field::from_field_id(field), text)
}

/// `TantivyDocument::add_u64`: one more value, an unsigned number, behind the others.
#[verifier::external_body]
pub(crate) fn add_u64(doc: &mut tantivy::TantivyDocument, field: u32, value: u64)
    ensures
        document_values(*final(doc)) == document_values(*old(doc)).push(
            (field, ValueView::Unsigned(value)),
        ),
{
    doc.add_u64(tantivy::schema::Field::from_field_id(field), value)
}

/// `TantivyDocument::add_f64`: one more value, a real number, behind the others. The number is
/// the one whose key is given: `tantivy::u64_to_f64` undoes `tantivy::f64_to_u64`.
#[verifier::external_body]
pub(crate) fn add_real(doc: &mut tantivy::TantivyDocument, field: u32, key: u64)
    ensures
        document_values(*final(doc)) == document_values(*old(doc)).push(
            (field, ValueView::Real(key)),
        ),
{
    doc.add_f64(tantivy::schema::Field::from_field_id(field), tantivy::u64_to_f64(key))
}

/// `TantivyDocument::get_first`: the first of the values of a field, by its variant.
#[verifier::external_body]
pub(crate) fn get_first(doc: &tantivy::TantivyDocument, field: u32) -> (r: Option<FieldValue>)
    ensures
        match r {
            Some(value) => first_value(document_values(*doc), field) == Some(value@),
            None => first_value(document_values(*doc), field) is None,
        },
{
    doc.get_first(tantivy::schema::Field::from_field_id(field)).map(|value| match value {
        tantivy::schema::OwnedValue::Str(s) => FieldValue::Text(s.clone()),
        tantivy::schema::OwnedValue::U64(n) => FieldValue::Unsigned(*n),
        tantivy::schema::OwnedValue::F64(x) => FieldValue::Real(tantivy::f64_to_u64(*x)),
        _ => FieldValue::Other,
    })
}

/// The text of the first value of a field.
pub fn read_text(doc: &tantivy::TantivyDocument, field: u32) -> (r: Option<String>)
    ensures
        crate::text::text_opt(r) == first_text(document_values(*doc), field),
{
    match get_first(doc, field) {
        Some(FieldValue::Text(s)) => Some(s),
        _ => None,
    }
}

/// The unsigned number of the first value of a field.
pub fn read_unsigned(doc: &tantivy::TantivyDocument, field: u32) -> (r: Option<u64>)
    ensures
        r == first_unsigned(document_values(*doc), field),
{
    match get_first(doc, field) {
        Some(FieldValue::Unsigned(n)) => Some(n),
        _ => None,
    }
}

/// The real number of the first value of a field.
pub fn read_real(doc: &tantivy::TantivyDocument, field: u32) -> (r: Option<u64>)
    ensures
        r == first_real(document_values(*doc), field),
{
    match get_first(doc, field) {
        Some(FieldValue::Real(key)) => Some(key),
        _ => None,
    }
}

/// The first value of a field is found, whatever other fields have and whatever stands behind it; a
/// field without values has none.
pub proof fn law_the_first_value_counts(
    before: Seq<(u32, ValueView)>,
    field: u32,
    value: ValueView,
    behind: Seq<(u32, ValueView)>,
)
    requires
        forall|i: int| 0 <= i < before.len() ==> (#[trigger] before[i]).0 != field,
    ensures
        first_value(before + seq![(field, value)] + behind, field) == Some(value),
        first_value(before, field) is None,
    decreases before.len(),
{
    let whole = before + seq![(field, value)] + behind;
    if before.len() > 0 {
        let rest = before.skip(1);
        assert(whole[0] == before[0]);
        assert(whole.skip(1) =~= rest + seq![(field, value)] + behind);
        law_the_first_value_counts(rest, field, value, behind);
    } else {
        assert(whole[0] == (field, value));
    }
}

/// A value is read as what it is: a text as a text, a number as a number.
pub proof fn law_values_are_read_as_what_they_are(
    values: Seq<(u32, ValueView)>,
    field: u32,
    text: Seq<char>,
    number: u64,
)
    ensures
        first_text(values, field) == Some(text) <==> first_value(values, field) == Some(
            ValueView::Text(text),
        ),
        first_unsigned(values, field) == Some(number) <==> first_value(values, field) == Some(
            ValueView::Unsigned(number),
        ),
        first_real(values, field) == Some(number) <==> first_value(values, field) == Some(
            ValueView::Real(number),
        ),
{
}

} // verus!
