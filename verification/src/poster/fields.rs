//! The fields that the documents of movies, series and persons have in common.
use crate::json::{text_in, text_of, trees, Json, JsonTree};
use crate::lists::{lemma_read_in_order, shows_in_order};
use crate::text::{
    before_first, decimal, is_blank, is_digit, is_text, law_decimal_is_digits,
    law_decimal_reads_back, law_whitespace_is_cut_off, lemma_find_char, lemma_find_char_is,
    number_up_to, own_opt, parse_u32, pieces, str_opt, text_opt, texts, trimmed, whitespace,
};
use vstd::prelude::*;

verus! {

/// An optional text as a text, empty where there is none.
pub open spec fn or_empty(o: Option<Seq<char>>) -> Seq<char> {
    match o {
        Some(s) => s,
        None => Seq::empty(),
    }
}

/// The text under the first of two keys that is there.
pub open spec fn either_text(t: JsonTree, key: Seq<char>, other: Seq<char>) -> Option<Seq<char>> {
    text_in(t.get_or(key, other))
}

/// The text under a key, if there is more to it than whitespace.
pub open spec fn real_text(t: JsonTree, key: Seq<char>) -> Option<Seq<char>> {
    match t.text(key) {
        Some(s) => if trimmed(s).len() > 0 {
            Some(s)
        } else {
            None
        },
        None => None,
    }
}

/// The text under a key of a document, or else of the document that may stand in for it.
pub open spec fn real_text_or(
    t: JsonTree,
    other: Option<JsonTree>,
    key: Seq<char>,
) -> Option<Seq<char>> {
    match (real_text(t, key), other) {
        (Some(s), _) => Some(s),
        (None, Some(u)) => real_text(u, key),
        (None, None) => None,
    }
}

/// The year that a date begins with: what stands before its first `-`, if that is a number.
pub open spec fn year_of(date: Option<Seq<char>>) -> Option<u32> {
    match date {
        Some(d) => match number_up_to(pieces(d, '-')[0], u32::MAX as nat) {
            Some(n) => Some(n as u32),
            None => None,
        },
        None => None,
    }
}

/// The low 32 bits of an optional number.
pub open spec fn low_part(o: Option<u64>) -> Option<u32> {
    match o {
        Some(n) => Some((n % 0x1_0000_0000) as u32),
        None => None,
    }
}

/// How a name is read.
pub open spec fn name_reader() -> spec_fn(JsonTree) -> Option<Seq<char>> {
    |t: JsonTree| t.text("name"@)
}

/// The names of the items of a list that have one.
pub open spec fn names(items: Seq<JsonTree>) -> Seq<Seq<char>> {
    items.filter_map(name_reader())
}

/// An optional text as a text of its own, empty where there is none.
pub fn owned_or_empty(o: Option<&str>) -> (r: String)
    ensures
        r@ == or_empty(str_opt(o)),
{
    match o {
        Some(s) => s.to_owned(),
        None => String::new(),
    }
}

/// The text under the first of two keys that is there.
pub fn owned_either(json: &Json, key: &str, other: &str) -> (r: Option<String>)
    ensures
        text_opt(r) == either_text(json@, key@, other@),
{
    own_opt(text_of(json.get_or(key, other)))
}

/// The text under a key, if there is more to it than whitespace.
pub fn read_real_text(json: &Json, key: &str) -> (r: Option<String>)
    ensures
        text_opt(r) == real_text(json@, key@),
{
    match json.text(key) {
        Some(s) => if is_blank(s) {
            None
        } else {
            Some(s.to_owned())
        },
        None => None,
    }
}

/// The text under a key of a document, or else of the document that may stand in for it.
pub fn read_real_text_or(json: &Json, other: Option<&Json>, key: &str) -> (r: Option<String>)
    ensures
        text_opt(r) == real_text_or(json@, crate::json::tree_opt(other), key@),
{
    match read_real_text(json, key) {
        Some(s) => Some(s),
        None => match other {
            Some(j) => read_real_text(j, key),
            None => None,
        },
    }
}

/// The year that a date begins with.
pub fn read_year(date: &Option<String>) -> (r: Option<u32>)
    ensures
        r == year_of(text_opt(*date)),
{
    match date {
        Some(d) => parse_u32(before_first(d.as_str(), '-').as_str()),
        None => None,
    }
}

/// The low 32 bits of an optional number.
pub fn read_low_part(o: Option<u64>) -> (r: Option<u32>)
    ensures
        r == low_part(o),
{
    match o {
        Some(n) => Some(crate::text::low_32(n)),
        None => None,
    }
}

/// The names of the items of a list that have one.
pub fn read_names(items: &Vec<Json>) -> (r: Vec<String>)
    ensures
        texts(r@) == names(trees(items@)),
{
    let ghost all = trees(items@);
    let mut out: Vec<String> = Vec::new();
    for i in 0..items.len()
        invariant
            all == trees(items@),
            texts(out@) =~= all.take(i as int).filter_map(name_reader()),
    {
        proof {
            all.lemma_filter_map_take_succ(name_reader(), i as int);
            assert(all[i as int] == items@[i as int]@);
        }
        match items[i].text("name") {
            Some(name) => {
                out.push(name.to_owned());
            },
            None => {},
        }
    }
    proof {
        assert(all.take(all.len() as int) =~= all);
    }
    out
}

// ---------------------------------------------------------------------------
// Logos
// ---------------------------------------------------------------------------

/// The first of the items in a language.
pub open spec fn first_in_language(items: Seq<JsonTree>, language: Seq<char>) -> Option<JsonTree>
    decreases items.len(),
{
    if items.len() == 0 {
        None
    } else if items[0].text("iso_639_1"@) == Some(language) {
        Some(items[0])
    } else {
        first_in_language(items.skip(1), language)
    }
}

/// The logo that is shown: the first Russian one, else the first English one, else the first.
pub open spec fn chosen_logo(items: Seq<JsonTree>) -> Option<JsonTree> {
    match (first_in_language(items, "ru"@), first_in_language(items, "en"@)) {
        (Some(t), _) => Some(t),
        (None, Some(t)) => Some(t),
        (None, None) => if items.len() > 0 {
            Some(items[0])
        } else {
            None
        },
    }
}

/// Where the image of the chosen logo is.
pub open spec fn logo_path(items: Seq<JsonTree>) -> Option<Seq<char>> {
    match chosen_logo(items) {
        Some(t) => t.text("file_path"@),
        None => None,
    }
}

fn find_in_language<'a>(items: &'a Vec<Json>, language: &str) -> (r: Option<&'a Json>)
    ensures
        crate::json::tree_opt(r) == first_in_language(trees(items@), language@),
{
    let ghost all = trees(items@);
    proof {
        assert(all.skip(0) =~= all);
    }
    for i in 0..items.len()
        invariant
            all == trees(items@),
            first_in_language(all, language@) == first_in_language(all.skip(i as int), language@),
    {
        proof {
            assert(all.skip(i as int)[0] == items@[i as int]@);
            assert(all.skip(i as int).skip(1) =~= all.skip(i as int + 1));
        }
        if is_text(items[i].text("iso_639_1"), language) {
            return Some(&items[i]);
        }
    }
    None
}

/// Where the image of the chosen logo is.
pub fn read_logo_path(items: &Vec<Json>) -> (r: Option<String>)
    ensures
        text_opt(r) == logo_path(trees(items@)),
{
    match find_in_language(items, "ru") {
        Some(j) => {
            return own_opt(j.text("file_path"));
        },
        None => {},
    }
    match find_in_language(items, "en") {
        Some(j) => {
            return own_opt(j.text("file_path"));
        },
        None => {},
    }
    if items.len() > 0 {
        own_opt(items[0].text("file_path"))
    } else {
        None
    }
}

// ---------------------------------------------------------------------------
// What the fields are
// ---------------------------------------------------------------------------

/// Whether a text is what stands under a key, or, where nothing does, under another.
pub open spec fn is_either(
    o: Option<Seq<char>>,
    t: JsonTree,
    key: Seq<char>,
    other: Seq<char>,
) -> bool {
    match (t.get(key), t.get(other)) {
        (Some(JsonTree::Text(s)), _) => o == Some(s),
        (None, Some(JsonTree::Text(s))) => o == Some(s),
        _ => o is None,
    }
}

/// Of two keys the first that is there counts.
pub proof fn law_the_first_key_counts(t: JsonTree, key: Seq<char>, other: Seq<char>)
    ensures
        is_either(either_text(t, key, other), t, key, other),
        or_empty(t.text(key)) == (if t.text(key) is Some {
            t.text(key).unwrap()
        } else {
            Seq::empty()
        }),
{
}

/// A date begins with its year, however the date goes on.
pub proof fn law_dates_begin_with_the_year(year: u32, rest: Seq<char>)
    ensures
        year_of(Some(decimal(year as nat))) == Some(year),
        year_of(Some(decimal(year as nat).push('-') + rest)) == Some(year),
        year_of(Some(Seq::empty())) is None,
        year_of(None) is None,
{
    let digits = decimal(year as nat);
    law_decimal_is_digits(year as nat);
    law_decimal_reads_back(year as nat);
    assert forall|i: int| 0 <= i < digits.len() implies #[trigger] digits[i] != '-' by {
        assert(is_digit(digits[i]));
    }
    let whole = digits.push('-') + rest;
    assert(forall|i: int| 0 <= i < digits.len() ==> #[trigger] whole[i] == digits[i]);
    assert(whole[digits.len() as int] == '-');
    lemma_find_char_is(whole, '-', digits.len() as int);
    assert(whole.take(digits.len() as int) =~= digits);
    assert(pieces(whole, '-')[0] == digits);
    lemma_find_char_is(digits, '-', digits.len() as int);
    assert(pieces(digits, '-')[0] == digits);
    let none = Seq::<char>::empty();
    lemma_find_char(none, '-');
    assert(pieces(none, '-')[0] == none);
}

/// A text counts, as it stands, where there is more to it than whitespace. Where there is not, the
/// text of the other document counts.
pub proof fn law_real_texts_count(
    t: JsonTree,
    other: JsonTree,
    key: Seq<char>,
    before: Seq<char>,
    core: Seq<char>,
    behind: Seq<char>,
)
    requires
        forall|i: int| 0 <= i < before.len() ==> whitespace(#[trigger] before[i]),
        forall|i: int| 0 <= i < behind.len() ==> whitespace(#[trigger] behind[i]),
        core.len() > 0 ==> !whitespace(core[0]) && !whitespace(core.last()),
        t.text(key) == Some(before + core + behind),
    ensures
        core.len() > 0 ==> real_text(t, key) == t.text(key) && real_text_or(t, Some(other), key)
            == t.text(key) && real_text_or(t, None, key) == t.text(key),
        core.len() == 0 ==> real_text(t, key) is None && real_text_or(t, Some(other), key)
            == real_text(other, key) && real_text_or(t, None, key) is None,
{
    law_whitespace_is_cut_off(before, core, behind);
}

/// Where a document has no text under a key, the text of the other document counts.
pub proof fn law_missing_texts_are_replaced(t: JsonTree, other: JsonTree, key: Seq<char>)
    requires
        t.text(key) is None,
    ensures
        real_text(t, key) is None,
        real_text_or(t, Some(other), key) == real_text(other, key),
        real_text_or(t, None, key) is None,
{
}

/// A number that fits 32 bits is kept.
pub proof fn law_small_numbers_are_kept(n: u64)
    ensures
        n <= u32::MAX ==> low_part(Some(n)) == Some(n as u32),
        low_part(None) is None,
{
}

/// The names are those of the items that have one, in their order.
pub proof fn law_names_are_kept_in_order(items: Seq<JsonTree>)
    ensures
        shows_in_order(
            items,
            names(items),
            |t: JsonTree| t.text("name"@) is Some,
            |name: Seq<char>, t: JsonTree| t.text("name"@) == Some(name),
        ),
{
    lemma_read_in_order(
        items,
        name_reader(),
        |t: JsonTree| t.text("name"@) is Some,
        |name: Seq<char>, t: JsonTree| t.text("name"@) == Some(name),
    );
}

proof fn lemma_first_in_language(items: Seq<JsonTree>, language: Seq<char>, i: int)
    requires
        0 <= i <= items.len(),
        forall|k: int|
            0 <= k < i ==> (#[trigger] items[k]).text("iso_639_1"@) != Some(language),
        i < items.len() ==> items[i].text("iso_639_1"@) == Some(language),
    ensures
        first_in_language(items, language) == (if i < items.len() {
            Some(items[i])
        } else {
            None
        }),
    decreases items.len(),
{
    if i > 0 {
        let rest = items.skip(1);
        assert(items[0].text("iso_639_1"@) != Some(language));
        assert forall|k: int| 0 <= k < i - 1 implies (#[trigger] rest[k]).text("iso_639_1"@) != Some(
            language,
        ) by {
            assert(rest[k] == items[k + 1]);
        }
        lemma_first_in_language(rest, language, i - 1);
    }
}

/// The first logo in Russian is shown; where there is none, the first in English; where there is
/// none either, the first.
pub proof fn law_russian_logos_come_first(items: Seq<JsonTree>, i: int)
    requires
        0 <= i < items.len(),
    ensures
        items[i].text("iso_639_1"@) == Some("ru"@) && (forall|k: int|
            0 <= k < i ==> (#[trigger] items[k]).text("iso_639_1"@) != Some("ru"@)) ==> logo_path(
            items,
        ) == items[i].text("file_path"@),
        items[i].text("iso_639_1"@) == Some("en"@) && (forall|k: int|
            0 <= k < i ==> (#[trigger] items[k]).text("iso_639_1"@) != Some("en"@)) && (forall|
            k: int,
        |
            0 <= k < items.len() ==> (#[trigger] items[k]).text("iso_639_1"@) != Some("ru"@))
            ==> logo_path(items) == items[i].text("file_path"@),
        (forall|k: int|
            0 <= k < items.len() ==> (#[trigger] items[k]).text("iso_639_1"@) != Some("ru"@)
                && items[k].text("iso_639_1"@) != Some("en"@)) ==> logo_path(items)
            == items[0].text("file_path"@),
        logo_path(Seq::empty()) is None,
{
    if items[i].text("iso_639_1"@) == Some("ru"@) && (forall|k: int|
        0 <= k < i ==> (#[trigger] items[k]).text("iso_639_1"@) != Some("ru"@)) {
        lemma_first_in_language(items, "ru"@, i);
    }
    if forall|k: int|
        0 <= k < items.len() ==> (#[trigger] items[k]).text("iso_639_1"@) != Some("ru"@) {
        lemma_first_in_language(items, "ru"@, items.len() as int);
        if items[i].text("iso_639_1"@) == Some("en"@) && (forall|k: int|
            0 <= k < i ==> (#[trigger] items[k]).text("iso_639_1"@) != Some("en"@)) {
            lemma_first_in_language(items, "en"@, i);
        }
        if forall|k: int|
            0 <= k < items.len() ==> (#[trigger] items[k]).text("iso_639_1"@) != Some("en"@) {
            lemma_first_in_language(items, "en"@, items.len() as int);
        }
    }
}

} // verus!
