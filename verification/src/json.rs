//! JSON documents as the answers of TMDB hold them.
use crate::text::{same, str_opt};
use vstd::prelude::*;

verus! {

// ---------------------------------------------------------------------------
// The documents
// ---------------------------------------------------------------------------

/// A JSON document.
///
/// A number is held by its value as an unsigned integer, where it is one, and by its
/// value as a real number. A real number is held as the 64-bit key that
/// `tantivy::f64_to_u64` gives it: keys are in the order of the numbers.
pub enum Json {
    Null,
    Bool(bool),
    Number(Option<u64>, Option<u64>),
    Text(String),
    Array(Vec<Json>),
    Object(Vec<(String, Json)>),
}

/// What a JSON document holds.
pub enum JsonTree {
    Null,
    Bool(bool),
    Number(Option<u64>, Option<u64>),
    Text(Seq<char>),
    Array(Seq<JsonTree>),
    Object(Seq<(Seq<char>, JsonTree)>),
}

/// What a JSON document holds.
pub open spec fn tree(json: Json) -> JsonTree
    decreases json,
{
    match json {
        Json::Null => JsonTree::Null,
        Json::Bool(b) => JsonTree::Bool(b),
        Json::Number(uint, key) => JsonTree::Number(uint, key),
        Json::Text(s) => JsonTree::Text(s@),
        Json::Array(items) => JsonTree::Array(
            Seq::new(
                items@.len(),
                |i: int|
                    if 0 <= i < items@.len() {
                        tree(items@[i])
                    } else {
                        JsonTree::Null
                    },
            ),
        ),
        Json::Object(entries) => JsonTree::Object(
            Seq::new(
                entries@.len(),
                |i: int|
                    if 0 <= i < entries@.len() {
                        (entries@[i].0@, tree(entries@[i].1))
                    } else {
                        (Seq::empty(), JsonTree::Null)
                    },
            ),
        ),
    }
}

impl View for Json {
    type V = JsonTree;

    open spec fn view(&self) -> JsonTree {
        tree(*self)
    }
}

/// What a list of JSON documents holds.
pub open spec fn trees(items: Seq<Json>) -> Seq<JsonTree> {
    Seq::new(items.len(), |i: int| items[i]@)
}

/// An array holds what its items hold.
pub proof fn lemma_array_view(items: Vec<Json>)
    ensures
        Json::Array(items)@ == JsonTree::Array(trees(items@)),
{
    let held = Json::Array(items)@;
    assert(held->Array_0 =~= trees(items@));
}

// ---------------------------------------------------------------------------
// Looking into a document
// ---------------------------------------------------------------------------

/// The first entry with a given key.
pub open spec fn entry(entries: Seq<(Seq<char>, JsonTree)>, key: Seq<char>) -> Option<JsonTree>
    decreases entries.len(),
{
    if entries.len() == 0 {
        None
    } else if entries[0].0 == key {
        Some(entries[0].1)
    } else {
        entry(entries.skip(1), key)
    }
}

impl JsonTree {
    /// The value under a key; nothing in what is not an object.
    pub open spec fn get(self, key: Seq<char>) -> Option<JsonTree> {
        match self {
            JsonTree::Object(entries) => entry(entries, key),
            _ => None,
        }
    }

    /// The value under the first of two keys that is there.
    pub open spec fn get_or(self, key: Seq<char>, other: Seq<char>) -> Option<JsonTree> {
        match self.get(key) {
            Some(t) => Some(t),
            None => self.get(other),
        }
    }

    /// The text under a key.
    pub open spec fn text(self, key: Seq<char>) -> Option<Seq<char>> {
        text_in(self.get(key))
    }

    /// The unsigned integer under a key.
    pub open spec fn uint(self, key: Seq<char>) -> Option<u64> {
        uint_in(self.get(key))
    }

    /// The key of the number under a key.
    pub open spec fn number_key(self, key: Seq<char>) -> Option<u64> {
        match self.get(key) {
            Some(JsonTree::Number(_, k)) => k,
            _ => None,
        }
    }

    /// The list under a key.
    pub open spec fn list(self, key: Seq<char>) -> Option<Seq<JsonTree>> {
        list_in(self.get(key))
    }
}

/// The text that a value is.
pub open spec fn text_in(t: Option<JsonTree>) -> Option<Seq<char>> {
    match t {
        Some(JsonTree::Text(s)) => Some(s),
        _ => None,
    }
}

/// The unsigned integer that a value is.
pub open spec fn uint_in(t: Option<JsonTree>) -> Option<u64> {
    match t {
        Some(JsonTree::Number(uint, _)) => uint,
        _ => None,
    }
}

/// The list that a value is.
pub open spec fn list_in(t: Option<JsonTree>) -> Option<Seq<JsonTree>> {
    match t {
        Some(JsonTree::Array(items)) => Some(items),
        _ => None,
    }
}

/// The list under a key of the value under another key.
pub open spec fn list_at(t: JsonTree, outer: Seq<char>, inner: Seq<char>) -> Option<Seq<JsonTree>> {
    match t.get(outer) {
        Some(u) => u.list(inner),
        None => None,
    }
}

/// A list that may be missing, as a list.
pub open spec fn or_none(items: Option<Seq<JsonTree>>) -> Seq<JsonTree> {
    match items {
        Some(s) => s,
        None => Seq::empty(),
    }
}

/// What an optional document holds.
pub open spec fn tree_opt(o: Option<&Json>) -> Option<JsonTree> {
    match o {
        Some(j) => Some(j@),
        None => None,
    }
}

/// What an optional list of documents holds.
pub open spec fn trees_opt(o: Option<&Vec<Json>>) -> Option<Seq<JsonTree>> {
    match o {
        Some(v) => Some(trees(v@)),
        None => None,
    }
}

/// The text that a value is.
pub fn text_of<'a>(o: Option<&'a Json>) -> (r: Option<&'a str>)
    ensures
        str_opt(r) == text_in(tree_opt(o)),
{
    match o {
        Some(Json::Text(s)) => Some(s.as_str()),
        _ => None,
    }
}

/// The unsigned integer that a value is.
pub fn uint_of(o: Option<&Json>) -> (r: Option<u64>)
    ensures
        r == uint_in(tree_opt(o)),
{
    match o {
        Some(Json::Number(uint, _)) => *uint,
        _ => None,
    }
}

/// The list that a value is.
pub fn list_of<'a>(o: Option<&'a Json>) -> (r: Option<&'a Vec<Json>>)
    ensures
        trees_opt(r) == list_in(tree_opt(o)),
{
    match o {
        Some(Json::Array(items)) => {
            proof {
                lemma_array_view(*items);
            }
            Some(items)
        },
        _ => None,
    }
}

impl Json {
    /// The value under a key; nothing in what is not an object.
    pub fn get<'a>(&'a self, key: &str) -> (r: Option<&'a Json>)
        ensures
            tree_opt(r) == self@.get(key@),
    {
        match self {
            Json::Object(entries) => {
                let ghost held = self@->Object_0;
                proof {
                    assert(held.skip(0) =~= held);
                }
                for i in 0..entries.len()
                    invariant
                        self@ == JsonTree::Object(held),
                        held.len() == entries@.len(),
                        forall|j: int|
                            0 <= j < held.len() ==> #[trigger] held[j] == (
                                entries@[j].0@,
                                entries@[j].1@,
                            ),
                        entry(held, key@) == entry(held.skip(i as int), key@),
                {
                    proof {
                        assert(held.skip(i as int)[0] == held[i as int]);
                        assert(held.skip(i as int).skip(1) =~= held.skip(i as int + 1));
                    }
                    if same(entries[i].0.as_str(), key) {
                        return Some(&entries[i].1);
                    }
                }
                None
            },
            _ => None,
        }
    }

    /// The value under the first of two keys that is there.
    pub fn get_or<'a>(&'a self, key: &str, other: &str) -> (r: Option<&'a Json>)
        ensures
            tree_opt(r) == self@.get_or(key@, other@),
    {
        match self.get(key) {
            Some(j) => Some(j),
            None => self.get(other),
        }
    }

    /// The text under a key.
    pub fn text<'a>(&'a self, key: &str) -> (r: Option<&'a str>)
        ensures
            str_opt(r) == self@.text(key@),
    {
        text_of(self.get(key))
    }

    /// The unsigned integer under a key.
    pub fn uint(&self, key: &str) -> (r: Option<u64>)
        ensures
            r == self@.uint(key@),
    {
        uint_of(self.get(key))
    }

    /// The key of the number under a key.
    pub fn number_key(&self, key: &str) -> (r: Option<u64>)
        ensures
            r == self@.number_key(key@),
    {
        match self.get(key) {
            Some(Json::Number(_, k)) => *k,
            _ => None,
        }
    }

    /// Whether the value under a key is `true`.
    pub fn is_true(&self, key: &str) -> (r: bool)
        ensures
            r == (self@.get(key@) == Some(JsonTree::Bool(true))),
    {
        match self.get(key) {
            Some(Json::Bool(b)) => *b,
            _ => false,
        }
    }

    /// The list under a key.
    pub fn list<'a>(&'a self, key: &str) -> (r: Option<&'a Vec<Json>>)
        ensures
            trees_opt(r) == self@.list(key@),
    {
        list_of(self.get(key))
    }

    /// The list under a key of the value under another key.
    pub fn list_at<'a>(&'a self, outer: &str, inner: &str) -> (r: Option<&'a Vec<Json>>)
        ensures
            trees_opt(r) == list_at(self@, outer@, inner@),
    {
        match self.get(outer) {
            Some(j) => j.list(inner),
            None => None,
        }
    }
}

// ---------------------------------------------------------------------------
// Reading a document
// ---------------------------------------------------------------------------

/// The parsed JSON value of `serde_json`.
#[verifier::external_type_specification]
#[verifier::external_body]
pub struct ExJsonValue(serde_json::Value);

/// The error of `serde_json`.
#[verifier::external_type_specification]
#[verifier::external_body]
pub struct ExJsonError(serde_json::Error);

/// The document that a body of bytes is to `serde_json`, if it is one.
pub uninterp spec fn document(body: Seq<u8>) -> Option<JsonTree>;

/// What a parsed value of `serde_json` holds.
pub uninterp spec fn value_tree(value: serde_json::Value) -> JsonTree;

/// One level of a parsed value.
pub enum JsonLevel {
    Null,
    Bool(bool),
    Number(Option<u64>, Option<u64>),
    Text(String),
    Array(Vec<serde_json::Value>),
    Object(Vec<(String, serde_json::Value)>),
}

/// What one level of a parsed value holds, its parts taken as they are.
pub open spec fn level_tree(level: JsonLevel) -> JsonTree {
    match level {
        JsonLevel::Null => JsonTree::Null,
        JsonLevel::Bool(b) => JsonTree::Bool(b),
        JsonLevel::Number(uint, key) => JsonTree::Number(uint, key),
        JsonLevel::Text(s) => JsonTree::Text(s@),
        JsonLevel::Array(items) => JsonTree::Array(
            Seq::new(items@.len(), |i: int| value_tree(items@[i])),
        ),
        JsonLevel::Object(entries) => JsonTree::Object(
            Seq::new(entries@.len(), |i: int| (entries@[i].0@, value_tree(entries@[i].1))),
        ),
    }
}

/// `serde_json::from_slice`: the value of a body that is a JSON document, an error for any other.
#[verifier::external_body]
fn parse_value(body: &[u8]) -> (r: Result<serde_json::Value, serde_json::Error>)
    ensures
        match r {
            Ok(value) => document(body@) == Some(value_tree(value)),
            Err(_) => document(body@) is None,
        },
{
    serde_json::from_slice(body)
}

/// The variants of `serde_json::Value`, one for one: a parsed value holds what its parts hold.
/// A number is taken by `as_u64` and by the key of its `as_f64`.
#[verifier::external_body]
fn open_value(value: serde_json::Value) -> (r: JsonLevel)
    ensures
        level_tree(r) == value_tree(value),
{
    match value {
        serde_json::Value::Null => JsonLevel::Null,
        serde_json::Value::Bool(b) => JsonLevel::Bool(b),
        serde_json::Value::Number(n) => JsonLevel::Number(n.as_u64(), n.as_f64().map(tantivy::f64_to_u64)),
        serde_json::Value::String(s) => JsonLevel::Text(s),
        serde_json::Value::Array(items) => JsonLevel::Array(items),
        serde_json::Value::Object(entries) => JsonLevel::Object(entries.into_iter().collect()),
    }
}

fn json_of_value(value: serde_json::Value) -> (r: Json)
    ensures
        r@ == value_tree(value),
    decreases value_tree(value),
{
    match open_value(value) {
        JsonLevel::Null => Json::Null,
        JsonLevel::Bool(b) => Json::Bool(b),
        JsonLevel::Number(uint, key) => Json::Number(uint, key),
        JsonLevel::Text(s) => Json::Text(s),
        JsonLevel::Array(items) => {
            let ghost all = items@;
            let ghost held = value_tree(value)->Array_0;
            let mut out: Vec<Json> = Vec::new();
            for item in it: items
                invariant
                    it.seq() == all,
                    held.len() == all.len(),
                    forall|j: int| 0 <= j < all.len() ==> #[trigger] held[j] == value_tree(all[j]),
                    value_tree(value) == JsonTree::Array(held),
                    trees(out@) =~= held.take(it.index() as int),
            {
                proof {
                    let i = it.index() as int;
                    assert(held[i] == value_tree(item));
                    assert(decreases_to!(value_tree(value) => value_tree(value)->Array_0));
                    assert(decreases_to!(held => held[i]));
                }
                let part = json_of_value(item);
                proof {
                    assert(trees(out@.push(part)) =~= trees(out@).push(part@));
                }
                out.push(part);
            }
            proof {
                lemma_array_view(out);
                assert(held.take(held.len() as int) =~= held);
            }
            Json::Array(out)
        },
        JsonLevel::Object(entries) => {
            let ghost all = entries@;
            let ghost held = value_tree(value)->Object_0;
            let mut out: Vec<(String, Json)> = Vec::new();
            for item in it: entries
                invariant
                    it.seq() == all,
                    held.len() == all.len(),
                    forall|j: int|
                        0 <= j < all.len() ==> #[trigger] held[j] == (
                            all[j].0@,
                            value_tree(all[j].1),
                        ),
                    value_tree(value) == JsonTree::Object(held),
                    out@.len() == it.index(),
                    forall|j: int|
                        0 <= j < out@.len() ==> (#[trigger] out@[j]).0@ == held[j].0 && out@[j].1@
                            == held[j].1,
            {
                proof {
                    let i = it.index() as int;
                    assert(held[i].1 == value_tree(item.1));
                    assert(decreases_to!(value_tree(value) => value_tree(value)->Object_0));
                    assert(decreases_to!(held => held[i]));
                    assert(decreases_to!(held[i] => held[i].1));
                }
                let part = json_of_value(item.1);
                out.push((item.0, part));
            }
            let r = Json::Object(out);
            proof {
                assert(r@->Object_0 =~= held);
            }
            r
        },
    }
}

/// Why a body could not be read.
#[derive(Debug, Clone, Copy, PartialEq, Eq, Structural)]
pub enum JsonError {
    Malformed,
}

/// Reads a body of bytes as a JSON document.
pub fn parse_json(body: &[u8]) -> (r: Result<Json, JsonError>)
    ensures
        match r {
            Ok(json) => document(body@) == Some(json@),
            Err(e) => e == JsonError::Malformed && document(body@) is None,
        },
{
    match parse_value(body) {
        Ok(value) => Ok(json_of_value(value)),
        Err(_) => Err(JsonError::Malformed),
    }
}

// ---------------------------------------------------------------------------
// What is found in a document
// ---------------------------------------------------------------------------

/// Under a key of an object stands the value of the first entry of that key, and nothing where there
/// is none; in what is not an object there is nothing.
pub proof fn law_values_are_found_by_key(
    before: Seq<(Seq<char>, JsonTree)>,
    key: Seq<char>,
    value: JsonTree,
    behind: Seq<(Seq<char>, JsonTree)>,
    other: Seq<char>,
)
    requires
        forall|i: int| 0 <= i < before.len() ==> (#[trigger] before[i]).0 != key,
    ensures
        JsonTree::Object(before + seq![(key, value)] + behind).get(key) == Some(value),
        JsonTree::Object(before).get(key) is None,
        JsonTree::Object(before + seq![(key, value)] + behind).get_or(key, other) == Some(value),
        JsonTree::Object(before).get_or(key, other) == JsonTree::Object(before).get(other),
        JsonTree::Null.get(key) is None,
        JsonTree::Text(other).get(key) is None,
    decreases before.len(),
{
    let whole = before + seq![(key, value)] + behind;
    if before.len() > 0 {
        let rest = before.skip(1);
        assert(whole[0] == before[0]);
        assert(whole.skip(1) =~= rest + seq![(key, value)] + behind);
        law_values_are_found_by_key(rest, key, value, behind, other);
    } else {
        assert(whole[0] == (key, value));
    }
}

/// A text is found where a text stands, a whole number where one stands, a list where one stands.
pub proof fn law_values_are_read_by_kind(
    t: JsonTree,
    key: Seq<char>,
    text: Seq<char>,
    number: u64,
    rank: Option<u64>,
    items: Seq<JsonTree>,
)
    ensures
        t.get(key) == Some(JsonTree::Text(text)) ==> t.text(key) == Some(text) && t.uint(
            key,
        ) is None && t.list(key) is None && t.number_key(key) is None,
        t.get(key) == Some(JsonTree::Number(Some(number), rank)) ==> t.uint(key) == Some(number)
            && t.number_key(key) == rank && t.text(key) is None && t.list(key) is None,
        t.get(key) == Some(JsonTree::Number(None, rank)) ==> t.uint(key) is None && t.number_key(key)
            == rank,
        t.get(key) == Some(JsonTree::Array(items)) ==> t.list(key) == Some(items) && t.text(
            key,
        ) is None && or_none(t.list(key)) == items,
        t.get(key) is None ==> t.text(key) is None && t.uint(key) is None && t.list(key) is None
            && t.number_key(key) is None && or_none(t.list(key)).len() == 0,
        t.get(key) == Some(JsonTree::Null) ==> t.text(key) is None && t.uint(key) is None && t.list(
            key,
        ) is None && t.number_key(key) is None,
{
}

/// A list below two keys is the list under the second key of what stands under the first.
pub proof fn law_lists_are_found_below(t: JsonTree, outer: Seq<char>, u: JsonTree, inner: Seq<char>)
    ensures
        t.get(outer) == Some(u) ==> list_at(t, outer, inner) == u.list(inner),
        t.get(outer) is None ==> list_at(t, outer, inner) is None,
{
}

} // verus!
