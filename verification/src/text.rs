//! Strings as sequences of characters: trimming, splitting, joining and numbers.
use crate::index::tokenizer::are_alike;
use vstd::arithmetic::div_mod::{lemma_fundamental_div_mod, lemma_mod_bound};
use vstd::prelude::*;

verus! {

// ---------------------------------------------------------------------------
// What is taken from std
// ---------------------------------------------------------------------------

/// Whether a character is a letter of the Russian alphabet.
pub open spec fn is_russian(c: char) -> bool {
    ('А' <= c && c <= 'я') || c == 'Ё' || c == 'ё'
}

/// Whether a character is in ASCII or a letter of the Russian alphabet.
pub open spec fn is_basic(c: char) -> bool {
    c <= '\u{7f}' || is_russian(c)
}

/// Whether a text is made of ASCII and of letters of the Russian alphabet alone.
pub open spec fn is_basic_text(s: Seq<char>) -> bool {
    forall|i: int| 0 <= i < s.len() ==> is_basic(#[trigger] s[i])
}

/// Whether a character of ASCII is whitespace.
pub open spec fn basic_whitespace(c: char) -> bool {
    ('\u{9}' <= c && c <= '\u{d}') || c == ' '
}

/// Whether a character is a digit, a letter of ASCII or one of the Russian alphabet.
pub open spec fn basic_alphanumeric(c: char) -> bool {
    ('0' <= c && c <= '9') || ('A' <= c && c <= 'Z') || ('a' <= c && c <= 'z') || is_russian(c)
}

/// The small letter of a capital one of ASCII or of the Russian alphabet, and any other character
/// as it is.
pub open spec fn basic_lower(c: char) -> char {
    if ('A' <= c && c <= 'Z') || ('А' <= c && c <= 'Я') {
        ((c as u32) + 32) as char
    } else if c == 'Ё' {
        'ё'
    } else {
        c
    }
}

/// A text with the small letter for each capital one of ASCII or of the Russian alphabet.
pub open spec fn basic_lowercased(s: Seq<char>) -> Seq<char> {
    Seq::new(s.len(), |i: int| basic_lower(s[i]))
}

/// Whether `char::is_alphanumeric` holds of a character, by std's Unicode tables.
pub uninterp spec fn char_alphanumeric(c: char) -> bool;

/// `char::is_alphanumeric`: a fixed function of the character. In ASCII and among the letters of
/// the Russian alphabet it holds of the letters and the digits.
pub assume_specification[ char::is_alphanumeric ](c: char) -> (r: bool)
    ensures
        is_basic(c) ==> r == basic_alphanumeric(c),
        !is_basic(c) ==> r == char_alphanumeric(c),
;

/// Whether a character is a letter or a digit.
pub open spec fn alphanumeric(c: char) -> bool {
    if is_basic(c) {
        basic_alphanumeric(c)
    } else {
        char_alphanumeric(c)
    }
}

/// Whether `char::is_whitespace` holds of a character, by std's Unicode tables.
pub uninterp spec fn char_whitespace(c: char) -> bool;

/// `char::is_whitespace`: a fixed function of the character. In ASCII it holds of the space and of
/// the tab, the line feed and the three characters behind it; of no Russian letter.
pub assume_specification[ char::is_whitespace ](c: char) -> (r: bool)
    ensures
        is_basic(c) ==> r == basic_whitespace(c),
        !is_basic(c) ==> r == char_whitespace(c),
;

/// Whether a character is whitespace.
pub open spec fn whitespace(c: char) -> bool {
    if is_basic(c) {
        basic_whitespace(c)
    } else {
        char_whitespace(c)
    }
}

/// The lower-case form that `str::to_lowercase` gives, by std's Unicode tables.
pub uninterp spec fn text_lowercased(s: Seq<char>) -> Seq<char>;

/// The lower-case form of a text.
pub open spec fn lowercased(s: Seq<char>) -> Seq<char> {
    if is_basic_text(s) {
        basic_lowercased(s)
    } else {
        text_lowercased(s)
    }
}

/// `str::to_lowercase`: a fixed function of the text, the default case conversion of Unicode. What
/// it gives is in lower case: it is its own lower-case form. In a text of ASCII and Russian letters
/// each capital letter becomes its small one, and nothing else changes. What else a text is made
/// of, the letters `ё`, `Ё` and `е` become `ё`, `ё` and `е`, and what becomes of the rest does not
/// depend on which of them stands in a place: each character is mapped by itself, but for `Σ`, which
/// is mapped by whether it ends a word. Whitespace is not changed, and nothing becomes whitespace.
pub assume_specification[ str::to_lowercase ](s: &str) -> (r: String)
    ensures
        is_basic_text(s@) ==> r@ == basic_lowercased(s@),
        !is_basic_text(s@) ==> r@ == text_lowercased(s@),
        lowercased(r@) == r@,
        forall|t: Seq<char>| are_alike(t, s@) || are_alike(t, r@) ==> #[trigger] are_alike(
            lowercased(t),
            r@,
        ),
        trimmed(s@) == s@ ==> trimmed(r@) == r@,
;

/// `String::push`: the text with one more character at its end.
pub assume_specification[ String::push ](s: &mut String, c: char)
    ensures
        final(s)@ == old(s)@.push(c),
;

/// `std::str::from_utf8`: the text whose UTF-8 encoding the bytes are, exactly when
/// they are the UTF-8 encoding of a text.
#[verifier::external_body]
fn utf8_text(bytes: &[u8]) -> (r: Option<&str>)
    ensures
        r is Some <==> vstd::utf8::valid_utf8(bytes@),
        r matches Some(s) ==> s@ == vstd::utf8::decode_utf8(bytes@),
{
    std::str::from_utf8(bytes).ok()
}

// ---------------------------------------------------------------------------
// Views of owned texts
// ---------------------------------------------------------------------------

/// The texts that a sequence of strings holds.
pub open spec fn texts(v: Seq<String>) -> Seq<Seq<char>> {
    Seq::new(v.len(), |i: int| v[i]@)
}

/// The text of an optional string.
pub open spec fn text_opt(o: Option<String>) -> Option<Seq<char>> {
    match o {
        Some(s) => Some(s@),
        None => None,
    }
}

/// The text of an optional string slice.
pub open spec fn str_opt(o: Option<&str>) -> Option<Seq<char>> {
    match o {
        Some(s) => Some(s@),
        None => None,
    }
}

/// An owned copy of an optional text.
pub fn own_opt(o: Option<&str>) -> (r: Option<String>)
    ensures
        text_opt(r) == str_opt(o),
{
    match o {
        Some(s) => Some(s.to_owned()),
        None => None,
    }
}

/// A copy of a list of texts.
pub fn copy_texts(v: &Vec<String>) -> (r: Vec<String>)
    ensures
        texts(r@) == texts(v@),
{
    let mut out: Vec<String> = Vec::new();
    for i in 0..v.len()
        invariant
            texts(out@) =~= texts(v@).take(i as int),
    {
        let copy = v[i].clone();
        proof {
            assert(texts(v@).take(i as int + 1) =~= texts(v@).take(i as int).push(v@[i as int]@));
            assert(texts(out@.push(copy)) =~= texts(out@).push(copy@));
        }
        out.push(copy);
    }
    proof {
        assert(texts(v@).take(v@.len() as int) =~= texts(v@));
    }
    out
}

// ---------------------------------------------------------------------------
// Characters
// ---------------------------------------------------------------------------

/// The characters of a text, in order.
pub fn chars_of(s: &str) -> (r: Vec<char>)
    ensures
        r@ == s@,
{
    let mut out: Vec<char> = Vec::new();
    for c in it: s.chars()
        invariant
            it.seq() == s@,
            out@ == s@.take(it.index() as int),
    {
        proof {
            assert(s@.take(it.index() as int).push(c) =~= s@.take(it.index() as int + 1));
        }
        out.push(c);
    }
    proof {
        assert(s@.take(s@.len() as int) =~= s@);
    }
    out
}

/// The text made of the characters `from..to`.
pub fn text_between(chars: &Vec<char>, from: usize, to: usize) -> (r: String)
    requires
        from <= to <= chars@.len(),
    ensures
        r@ == chars@.subrange(from as int, to as int),
{
    let mut out = String::new();
    for i in from..to
        invariant
            from <= to <= chars@.len(),
            out@ =~= chars@.subrange(from as int, i as int),
    {
        out.push(chars[i]);
    }
    out
}

/// The text of some bytes, or the empty text when they are not UTF-8.
pub open spec fn utf8_or_empty(bytes: Seq<u8>) -> Seq<char> {
    if vstd::utf8::valid_utf8(bytes) {
        vstd::utf8::decode_utf8(bytes)
    } else {
        Seq::empty()
    }
}

/// The text of some bytes, or the empty text when they are not UTF-8.
pub fn decode_or_empty(bytes: &[u8]) -> (r: String)
    ensures
        r@ == utf8_or_empty(bytes@),
{
    match utf8_text(bytes) {
        Some(s) => s.to_owned(),
        None => String::new(),
    }
}

/// How many bytes the UTF-8 encoding of a text has.
pub fn byte_len(s: &str) -> (r: usize)
    ensures
        r == vstd::utf8::encode_utf8(s@).len(),
{
    s.as_bytes().len()
}

/// Whether two texts are the same.
pub fn same(a: &str, b: &str) -> (r: bool)
    ensures
        r == (a@ == b@),
{
    let x = chars_of(a);
    let y = chars_of(b);
    if x.len() != y.len() {
        return false;
    }
    for i in 0..x.len()
        invariant
            x@ == a@,
            y@ == b@,
            x@.len() == y@.len(),
            forall|j: int| 0 <= j < i ==> x@[j] == y@[j],
    {
        if x[i] != y[i] {
            return false;
        }
    }
    proof {
        assert(x@ =~= y@);
    }
    true
}

/// Whether an optional text is a given text.
pub fn is_text(o: Option<&str>, b: &str) -> (r: bool)
    ensures
        r == (str_opt(o) == Some(b@)),
{
    match o {
        Some(s) => same(s, b),
        None => false,
    }
}

/// Whether a list of texts holds a given text.
pub fn contains_text(v: &Vec<String>, s: &str) -> (r: bool)
    ensures
        r == texts(v@).contains(s@),
{
    for i in 0..v.len()
        invariant
            forall|j: int| 0 <= j < i ==> texts(v@)[j] != s@,
    {
        if same(v[i].as_str(), s) {
            proof {
                assert(texts(v@)[i as int] == s@);
            }
            return true;
        }
    }
    false
}

/// Whether `s` begins with `prefix`.
pub open spec fn has_prefix(s: Seq<char>, prefix: Seq<char>) -> bool {
    prefix.len() <= s.len() && s.take(prefix.len() as int) == prefix
}

/// Whether `s` begins with `prefix`.
pub fn starts_with(s: &str, prefix: &str) -> (r: bool)
    ensures
        r == has_prefix(s@, prefix@),
{
    let x = chars_of(s);
    let y = chars_of(prefix);
    if x.len() < y.len() {
        return false;
    }
    for i in 0..y.len()
        invariant
            x@ == s@,
            y@ == prefix@,
            x@.len() >= y@.len(),
            forall|j: int| 0 <= j < i ==> x@[j] == y@[j],
    {
        if x[i] != y[i] {
            proof {
                assert(s@.take(prefix@.len() as int)[i as int] == x@[i as int]);
            }
            return false;
        }
    }
    proof {
        assert(s@.take(prefix@.len() as int) =~= prefix@);
    }
    true
}

/// The lower-case form of an ASCII letter, and any other character as it is.
pub open spec fn ascii_lower(c: char) -> char {
    if 'A' <= c && c <= 'Z' {
        ((c as u32) + 32) as char
    } else {
        c
    }
}

/// Whether two texts differ in the case of ASCII letters at most.
pub open spec fn same_ignoring_ascii_case(a: Seq<char>, b: Seq<char>) -> bool {
    a.len() == b.len() && forall|i: int|
        0 <= i < a.len() ==> ascii_lower(#[trigger] a[i]) == ascii_lower(b[i])
}

fn lower_code(c: char) -> (r: u32)
    ensures
        r == ascii_lower(c) as u32,
{
    let n: u32 = c as u32;
    if 65 <= n && n <= 90 {
        n + 32
    } else {
        n
    }
}

/// Whether two texts differ in the case of ASCII letters at most.
pub fn eq_ignore_ascii_case(a: &str, b: &str) -> (r: bool)
    ensures
        r == same_ignoring_ascii_case(a@, b@),
{
    let x = chars_of(a);
    let y = chars_of(b);
    if x.len() != y.len() {
        return false;
    }
    for i in 0..x.len()
        invariant
            x@ == a@,
            y@ == b@,
            x@.len() == y@.len(),
            forall|j: int| 0 <= j < i ==> ascii_lower(#[trigger] x@[j]) == ascii_lower(y@[j]),
    {
        if lower_code(x[i]) != lower_code(y[i]) {
            proof {
                assert(ascii_lower(a@[i as int]) != ascii_lower(b@[i as int]));
            }
            return false;
        }
    }
    true
}

// ---------------------------------------------------------------------------
// Trimming
// ---------------------------------------------------------------------------

/// A text without the characters of a kind at its start.
pub open spec fn trimmed_start_by(s: Seq<char>, kind: spec_fn(char) -> bool) -> Seq<char>
    decreases s.len(),
{
    if s.len() > 0 && kind(s[0]) {
        trimmed_start_by(s.skip(1), kind)
    } else {
        s
    }
}

/// A text without the characters of a kind at its end.
pub open spec fn trimmed_end_by(s: Seq<char>, kind: spec_fn(char) -> bool) -> Seq<char>
    decreases s.len(),
{
    if s.len() > 0 && kind(s.last()) {
        trimmed_end_by(s.drop_last(), kind)
    } else {
        s
    }
}

/// A text without the characters of a kind at both of its ends.
pub open spec fn trimmed_by(s: Seq<char>, kind: spec_fn(char) -> bool) -> Seq<char> {
    trimmed_end_by(trimmed_start_by(s, kind), kind)
}

/// A text without the whitespace at both of its ends.
pub open spec fn trimmed(s: Seq<char>) -> Seq<char> {
    trimmed_by(s, |c: char| whitespace(c))
}

proof fn lemma_trimmed_start_has_no_more(s: Seq<char>, kind: spec_fn(char) -> bool)
    ensures
        forall|c: char| #[trigger] trimmed_start_by(s, kind).contains(c) ==> s.contains(c),
    decreases s.len(),
{
    if s.len() > 0 && kind(s[0]) {
        lemma_trimmed_start_has_no_more(s.skip(1), kind);
        assert forall|c: char| #[trigger] trimmed_start_by(s, kind).contains(c) implies s.contains(
            c,
        ) by {
            assert(trimmed_start_by(s.skip(1), kind).contains(c));
            let k = choose|k: int| 0 <= k < s.skip(1).len() && s.skip(1)[k] == c;
            assert(s[k + 1] == c);
        }
    }
}

proof fn lemma_trimmed_end_has_no_more(s: Seq<char>, kind: spec_fn(char) -> bool)
    ensures
        forall|c: char| #[trigger] trimmed_end_by(s, kind).contains(c) ==> s.contains(c),
    decreases s.len(),
{
    if s.len() > 0 && kind(s.last()) {
        lemma_trimmed_end_has_no_more(s.drop_last(), kind);
        assert forall|c: char| #[trigger] trimmed_end_by(s, kind).contains(c) implies s.contains(
            c,
        ) by {
            assert(trimmed_end_by(s.drop_last(), kind).contains(c));
            let k = choose|k: int| 0 <= k < s.drop_last().len() && s.drop_last()[k] == c;
            assert(s[k] == c);
        }
    }
}

/// What is left of a text was in it.
pub proof fn lemma_trimmed_has_no_more(s: Seq<char>, kind: spec_fn(char) -> bool)
    ensures
        forall|c: char| #[trigger] trimmed_by(s, kind).contains(c) ==> s.contains(c),
{
    lemma_trimmed_start_has_no_more(s, kind);
    lemma_trimmed_end_has_no_more(trimmed_start_by(s, kind), kind);
}

proof fn lemma_trimmed_start_once(s: Seq<char>, kind: spec_fn(char) -> bool)
    ensures
        ({
            let start = trimmed_start_by(s, kind);
            &&& start.len() > 0 ==> !kind(start[0])
            &&& trimmed_start_by(start, kind) == start
        }),
    decreases s.len(),
{
    if s.len() > 0 && kind(s[0]) {
        lemma_trimmed_start_once(s.skip(1), kind);
    }
}

proof fn lemma_trimmed_end_once(s: Seq<char>, kind: spec_fn(char) -> bool)
    ensures
        ({
            let end = trimmed_end_by(s, kind);
            &&& end.len() <= s.len()
            &&& end.len() > 0 ==> end[0] == s[0]
            &&& trimmed_end_by(end, kind) == end
        }),
    decreases s.len(),
{
    if s.len() > 0 && kind(s.last()) {
        lemma_trimmed_end_once(s.drop_last(), kind);
    }
}

/// Trimming a text again changes nothing.
pub proof fn law_texts_are_trimmed_once(s: Seq<char>)
    ensures
        trimmed(trimmed(s)) == trimmed(s),
{
    let white = |c: char| whitespace(c);
    let start = trimmed_start_by(s, white);
    lemma_trimmed_start_once(s, white);
    lemma_trimmed_end_once(start, white);
    assert(trimmed_start_by(trimmed(s), white) == trimmed(s));
}

/// A text without the whitespace at both of its ends.
pub fn trim(s: &str) -> (r: String)
    ensures
        r@ == trimmed(s@),
{
    let chars = chars_of(s);
    let n = chars.len();
    let ghost white = |c: char| whitespace(c);
    let mut from: usize = 0;
    proof {
        assert(s@.skip(0) =~= s@);
    }
    while from < n && chars[from].is_whitespace()
        invariant
            chars@ == s@,
            n == chars@.len(),
            from <= n,
            white == (|c: char| whitespace(c)),
            trimmed_start_by(s@.skip(from as int), white) == trimmed_start_by(s@, white),
        ensures
            from < n ==> !white(s@[from as int]),
        decreases n - from,
    {
        proof {
            assert(s@.skip(from as int).skip(1) =~= s@.skip(from as int + 1));
        }
        from = from + 1;
    }
    let ghost rest = s@.skip(from as int);
    let mut to: usize = n;
    proof {
        assert(s@.subrange(from as int, n as int) =~= rest);
        assert(trimmed_start_by(s@, white) == rest);
    }
    while from < to && chars[to - 1].is_whitespace()
        invariant
            chars@ == s@,
            from <= to <= n,
            n == chars@.len(),
            white == (|c: char| whitespace(c)),
            trimmed_end_by(s@.subrange(from as int, to as int), white) == trimmed_end_by(
                rest,
                white,
            ),
        ensures
            from < to ==> !white(s@[to - 1]),
        decreases to - from,
    {
        proof {
            assert(s@.subrange(from as int, to as int).drop_last() =~= s@.subrange(
                from as int,
                to as int - 1,
            ));
        }
        to = to - 1;
    }
    text_between(&chars, from, to)
}

/// Whether nothing but whitespace is in a text.
pub fn is_blank(s: &str) -> (r: bool)
    ensures
        r == (trimmed(s@).len() == 0),
{
    trim(s).as_str().is_empty()
}

// ---------------------------------------------------------------------------
// Words
// ---------------------------------------------------------------------------

/// How many characters of a kind a text begins with.
pub open spec fn run_len(s: Seq<char>, kind: spec_fn(char) -> bool) -> nat
    decreases s.len(),
{
    if s.len() > 0 && kind(s[0]) {
        1 + run_len(s.skip(1), kind)
    } else {
        0
    }
}

/// The longest runs of characters of a kind in a text, in order.
pub open spec fn runs(s: Seq<char>, kind: spec_fn(char) -> bool) -> Seq<Seq<char>>
    decreases s.len(),
{
    if s.len() == 0 {
        Seq::empty()
    } else if run_len(s, kind) == 0 {
        runs(s.skip(1), kind)
    } else if run_len(s, kind) <= s.len() {
        seq![s.take(run_len(s, kind) as int)] + runs(s.skip(run_len(s, kind) as int), kind)
    } else {
        Seq::empty()
    }
}

/// The words of a text: its longest runs of letters and digits, in order.
pub open spec fn words(s: Seq<char>) -> Seq<Seq<char>> {
    runs(s, |c: char| alphanumeric(c))
}

/// A text begins with as many characters of a kind as are counted, and no more.
pub proof fn lemma_run_len(s: Seq<char>, kind: spec_fn(char) -> bool)
    ensures
        run_len(s, kind) <= s.len(),
        forall|i: int| 0 <= i < run_len(s, kind) ==> kind(#[trigger] s[i]),
        run_len(s, kind) < s.len() ==> !kind(s[run_len(s, kind) as int]),
    decreases s.len(),
{
    if s.len() > 0 && kind(s[0]) {
        lemma_run_len(s.skip(1), kind);
        assert forall|i: int| 0 <= i < run_len(s, kind) implies kind(#[trigger] s[i]) by {
            if i > 0 {
                assert(s.skip(1)[i - 1] == s[i]);
            }
        }
        if run_len(s, kind) < s.len() {
            assert(s.skip(1)[run_len(s.skip(1), kind) as int] == s[run_len(s, kind) as int]);
        }
    }
}

/// The words of a text: its longest runs of letters and digits, in order.
pub fn split_words(s: &str) -> (r: Vec<String>)
    ensures
        texts(r@) == words(s@),
{
    let chars = chars_of(s);
    let n = chars.len();
    let ghost kind = |c: char| alphanumeric(c);
    let mut out: Vec<String> = Vec::new();
    let mut i: usize = 0;
    proof {
        assert(s@.skip(0) =~= s@);
        assert(texts(out@) + words(s@) =~= words(s@));
    }
    while i < n
        invariant
            chars@ == s@,
            n == chars@.len(),
            i <= n,
            kind == (|c: char| alphanumeric(c)),
            texts(out@) + runs(s@.skip(i as int), kind) == words(s@),
        decreases n - i,
    {
        let mut j: usize = i;
        let ghost rest = s@.skip(i as int);
        proof {
            lemma_run_len(rest, kind);
        }
        while j < n && chars[j].is_alphanumeric()
            invariant
                chars@ == s@,
                n == chars@.len(),
                i <= j <= n,
                kind == (|c: char| alphanumeric(c)),
                rest == s@.skip(i as int),
                j - i <= run_len(rest, kind) <= rest.len(),
                run_len(rest, kind) < rest.len() ==> !kind(rest[run_len(rest, kind) as int]),
                forall|k: int| 0 <= k < run_len(rest, kind) ==> kind(#[trigger] rest[k]),
            ensures
                j < n ==> !kind(s@[j as int]),
            decreases n - j,
        {
            proof {
                assert(rest[j - i] == chars@[j as int]);
            }
            j = j + 1;
        }
        proof {
            if j < n {
                assert(rest[j - i] == chars@[j as int]);
            }
            assert(j - i == run_len(rest, kind));
        }
        if j == i {
            proof {
                assert(rest.skip(1) =~= s@.skip(i as int + 1));
            }
            i = i + 1;
        } else {
            let ghost before = texts(out@);
            out.push(text_between(&chars, i, j));
            proof {
                assert(rest.take(j - i) =~= chars@.subrange(i as int, j as int));
                assert(rest.skip(j - i) =~= s@.skip(j as int));
                assert(texts(out@) =~= before.push(rest.take(j - i)));
                assert(before + (seq![rest.take(j - i)] + runs(s@.skip(j as int), kind))
                    =~= texts(out@) + runs(s@.skip(j as int), kind));
            }
            i = j;
        }
    }
    proof {
        assert(s@.skip(n as int) =~= Seq::<char>::empty());
        assert(texts(out@) + runs(s@.skip(n as int), kind) =~= texts(out@));
    }
    out
}

// ---------------------------------------------------------------------------
// Splitting and joining
// ---------------------------------------------------------------------------

/// The place of the first `sep` in a text, or the text's length.
pub open spec fn find_char(s: Seq<char>, sep: char) -> nat
    decreases s.len(),
{
    if s.len() == 0 || s[0] == sep {
        0
    } else {
        1 + find_char(s.skip(1), sep)
    }
}

/// The separator is at its place, and at none before it.
pub proof fn lemma_find_char(s: Seq<char>, sep: char)
    ensures
        find_char(s, sep) <= s.len(),
        forall|i: int| 0 <= i < find_char(s, sep) ==> #[trigger] s[i] != sep,
        find_char(s, sep) < s.len() ==> s[find_char(s, sep) as int] == sep,
    decreases s.len(),
{
    if s.len() > 0 && s[0] != sep {
        lemma_find_char(s.skip(1), sep);
        assert forall|i: int| 0 <= i < find_char(s, sep) implies #[trigger] s[i] != sep by {
            if i > 0 {
                assert(s.skip(1)[i - 1] == s[i]);
            }
        }
        if find_char(s, sep) < s.len() {
            assert(s.skip(1)[find_char(s.skip(1), sep) as int] == s[find_char(s, sep) as int]);
        }
    }
}

/// `find_char` is the only place with these properties.
pub proof fn lemma_find_char_is(s: Seq<char>, sep: char, n: int)
    requires
        0 <= n <= s.len(),
        forall|i: int| 0 <= i < n ==> #[trigger] s[i] != sep,
        n < s.len() ==> s[n] == sep,
    ensures
        find_char(s, sep) == n,
{
    lemma_find_char(s, sep);
    let m = find_char(s, sep) as int;
    if m < n {
        assert(s[m] != sep);
    }
    if n < m {
        assert(s[n] != sep);
    }
}

/// The pieces of a text between the separators `sep`: one more than there are separators.
pub open spec fn pieces(s: Seq<char>, sep: char) -> Seq<Seq<char>>
    decreases s.len(),
{
    let n = find_char(s, sep) as int;
    if n < s.len() {
        seq![s.take(n)] + pieces(s.skip(n + 1), sep)
    } else {
        seq![s]
    }
}

/// The pieces of a text between the separators `sep`.
pub fn split_on(s: &str, sep: char) -> (r: Vec<String>)
    ensures
        texts(r@) == pieces(s@, sep),
{
    let chars = chars_of(s);
    let n = chars.len();
    let mut out: Vec<String> = Vec::new();
    let mut from: usize = 0;
    let mut i: usize = 0;
    proof {
        assert(s@.skip(0) =~= s@);
        assert(texts(out@) + pieces(s@, sep) =~= pieces(s@, sep));
    }
    while i < n
        invariant
            chars@ == s@,
            n == chars@.len(),
            from <= i <= n,
            forall|j: int| from <= j < i ==> chars@[j] != sep,
            texts(out@) + pieces(s@.skip(from as int), sep) == pieces(s@, sep),
        decreases n - i,
    {
        if chars[i] == sep {
            let ghost before = texts(out@);
            let ghost rest = s@.skip(from as int);
            out.push(text_between(&chars, from, i));
            proof {
                lemma_find_char_is(rest, sep, i - from);
                assert(rest.take(i - from) =~= chars@.subrange(from as int, i as int));
                assert(rest.skip(i - from + 1) =~= s@.skip(i as int + 1));
                assert(texts(out@) =~= before.push(rest.take(i - from)));
                assert(before + (seq![rest.take(i - from)] + pieces(s@.skip(i as int + 1), sep))
                    =~= texts(out@) + pieces(s@.skip(i as int + 1), sep));
            }
            from = i + 1;
        }
        i = i + 1;
    }
    let ghost before = texts(out@);
    let ghost rest = s@.skip(from as int);
    out.push(text_between(&chars, from, n));
    proof {
        lemma_find_char_is(rest, sep, n - from);
        assert(chars@.subrange(from as int, n as int) =~= rest);
        assert(texts(out@) =~= before + seq![rest]);
    }
    out
}

/// The first of the pieces of a text between the separators `sep`.
pub fn before_first(s: &str, sep: char) -> (r: String)
    ensures
        r@ == pieces(s@, sep)[0],
{
    let chars = chars_of(s);
    let n = chars.len();
    let mut i: usize = 0;
    while i < n && chars[i] != sep
        invariant
            chars@ == s@,
            n == chars@.len(),
            i <= n,
            forall|j: int| 0 <= j < i ==> chars@[j] != sep,
        decreases n - i,
    {
        i = i + 1;
    }
    proof {
        lemma_find_char_is(s@, sep, i as int);
        assert(s@.take(i as int) =~= chars@.subrange(0, i as int));
        assert(s@.take(s@.len() as int) =~= s@);
    }
    text_between(&chars, 0, i)
}

/// The place of the first `sep` in a text, or the text's length where there is none.
pub open spec fn find_text(s: Seq<char>, sep: Seq<char>) -> nat
    decreases s.len(),
{
    if s.len() == 0 || has_prefix(s, sep) {
        0
    } else {
        1 + find_text(s.skip(1), sep)
    }
}

/// The pieces of a text between the separators `sep`, which are not empty.
pub open spec fn pieces_by(s: Seq<char>, sep: Seq<char>) -> Seq<Seq<char>>
    decreases s.len(),
{
    let n = find_text(s, sep) as int;
    if sep.len() > 0 && n + sep.len() <= s.len() {
        seq![s.take(n)] + pieces_by(s.skip(n + sep.len()), sep)
    } else {
        seq![s]
    }
}

/// The separator is at its place, and at none before it.
pub proof fn lemma_find_text(s: Seq<char>, sep: Seq<char>)
    ensures
        find_text(s, sep) <= s.len(),
        forall|i: int| 0 <= i < find_text(s, sep) ==> !has_prefix(#[trigger] s.skip(i), sep),
        find_text(s, sep) < s.len() ==> has_prefix(s.skip(find_text(s, sep) as int), sep),
    decreases s.len(),
{
    assert(s.skip(0) =~= s);
    if s.len() > 0 && !has_prefix(s, sep) {
        let rest = s.skip(1);
        lemma_find_text(rest, sep);
        assert forall|i: int| 0 <= i < find_text(s, sep) implies !has_prefix(
            #[trigger] s.skip(i),
            sep,
        ) by {
            if i > 0 {
                assert(rest.skip(i - 1) =~= s.skip(i));
            }
        }
        assert(rest.skip(find_text(rest, sep) as int) =~= s.skip(find_text(s, sep) as int));
    }
}

/// `find_text` is the only place with these properties.
pub proof fn lemma_find_text_is(s: Seq<char>, sep: Seq<char>, n: int)
    requires
        0 <= n <= s.len(),
        forall|i: int| 0 <= i < n ==> !has_prefix(#[trigger] s.skip(i), sep),
        n < s.len() ==> has_prefix(s.skip(n), sep),
    ensures
        find_text(s, sep) == n,
{
    lemma_find_text(s, sep);
    let m = find_text(s, sep) as int;
    if m < n {
        assert(!has_prefix(s.skip(m), sep));
    }
    if n < m {
        assert(!has_prefix(s.skip(n), sep));
    }
}

fn prefix_at(chars: &Vec<char>, at: usize, sep: &Vec<char>) -> (r: bool)
    requires
        at <= chars@.len(),
    ensures
        r == has_prefix(chars@.skip(at as int), sep@),
{
    let n = chars.len();
    if n - at < sep.len() {
        return false;
    }
    for i in 0..sep.len()
        invariant
            n == chars@.len(),
            at + sep@.len() <= n,
            forall|j: int| 0 <= j < i ==> chars@[at + j] == sep@[j],
    {
        if chars[at + i] != sep[i] {
            proof {
                assert(chars@.skip(at as int).take(sep@.len() as int)[i as int] == chars@[at + i]);
            }
            return false;
        }
    }
    proof {
        assert(chars@.skip(at as int).take(sep@.len() as int) =~= sep@);
    }
    true
}

/// The pieces of a text between the separators `sep`.
pub fn split_on_text(s: &str, sep: &str) -> (r: Vec<String>)
    requires
        sep@.len() > 0,
    ensures
        texts(r@) == pieces_by(s@, sep@),
{
    let chars = chars_of(s);
    let mark = chars_of(sep);
    let n = chars.len();
    let mut out: Vec<String> = Vec::new();
    let mut from: usize = 0;
    let mut i: usize = 0;
    proof {
        assert(s@.skip(0) =~= s@);
        assert(texts(out@) + pieces_by(s@, sep@) =~= pieces_by(s@, sep@));
    }
    while i < n
        invariant
            chars@ == s@,
            mark@ == sep@,
            sep@.len() > 0,
            n == chars@.len(),
            from <= i <= n,
            forall|j: int| from <= j < i ==> !has_prefix(#[trigger] s@.skip(j), sep@),
            texts(out@) + pieces_by(s@.skip(from as int), sep@) == pieces_by(s@, sep@),
        decreases n - i,
    {
        let ghost rest = s@.skip(from as int);
        if prefix_at(&chars, i, &mark) {
            let ghost before = texts(out@);
            out.push(text_between(&chars, from, i));
            proof {
                assert forall|k: int| 0 <= k < i - from implies !has_prefix(
                    #[trigger] rest.skip(k),
                    sep@,
                ) by {
                    assert(rest.skip(k) =~= s@.skip(from + k));
                }
                assert(rest.skip(i - from) =~= s@.skip(i as int));
                lemma_find_text_is(rest, sep@, i - from);
                assert(rest.take(i - from) =~= chars@.subrange(from as int, i as int));
                assert(rest.skip(i - from + sep@.len()) =~= s@.skip(i + sep@.len()));
                assert(texts(out@) =~= before.push(rest.take(i - from)));
                let tail = pieces_by(s@.skip(i + sep@.len()), sep@);
                assert(before + (seq![rest.take(i - from)] + tail) =~= texts(out@) + tail);
            }
            i = i + mark.len();
            from = i;
        } else {
            i = i + 1;
        }
    }
    let ghost before = texts(out@);
    let ghost rest = s@.skip(from as int);
    out.push(text_between(&chars, from, n));
    proof {
        assert forall|k: int| 0 <= k < n - from implies !has_prefix(
            #[trigger] rest.skip(k),
            sep@,
        ) by {
            assert(rest.skip(k) =~= s@.skip(from + k));
        }
        lemma_find_text_is(rest, sep@, n - from);
        assert(chars@.subrange(from as int, n as int) =~= rest);
        assert(texts(out@) =~= before + seq![rest]);
    }
    out
}

/// The texts one after the other, with `sep` between each two.
pub open spec fn joined(parts: Seq<Seq<char>>, sep: Seq<char>) -> Seq<char>
    decreases parts.len(),
{
    if parts.len() == 0 {
        Seq::empty()
    } else if parts.len() == 1 {
        parts[0]
    } else {
        joined(parts.drop_last(), sep) + sep + parts.last()
    }
}

/// The texts one after the other, with `sep` between each two.
pub fn join(parts: &Vec<String>, sep: &str) -> (r: String)
    ensures
        r@ == joined(texts(parts@), sep@),
{
    let mut out = String::new();
    for i in 0..parts.len()
        invariant
            out@ == joined(texts(parts@).take(i as int), sep@),
    {
        proof {
            let upto = texts(parts@).take(i as int + 1);
            assert(upto.drop_last() =~= texts(parts@).take(i as int));
            assert(upto.last() == parts@[i as int]@);
        }
        if i > 0 {
            out.append(sep);
            out.append(parts[i].as_str());
        } else {
            out.append(parts[i].as_str());
            proof {
                assert(out@ =~= parts@[0]@);
            }
        }
    }
    proof {
        assert(texts(parts@).take(parts@.len() as int) =~= texts(parts@));
    }
    out
}

/// A text with another behind it.
pub fn concat(a: &str, b: &str) -> (r: String)
    ensures
        r@ == a@ + b@,
{
    let mut out = a.to_owned();
    out.append(b);
    out
}

// ---------------------------------------------------------------------------
// Numbers
// ---------------------------------------------------------------------------

/// Whether a character is one of `0` to `9`.
pub open spec fn is_digit(c: char) -> bool {
    '0' <= c && c <= '9'
}

/// Whether a text is made of `0` to `9` alone.
pub open spec fn all_digits(s: Seq<char>) -> bool {
    forall|i: int| 0 <= i < s.len() ==> is_digit(#[trigger] s[i])
}

/// The number that a run of decimal digits stands for.
pub open spec fn digits_value(s: Seq<char>) -> nat
    decreases s.len(),
{
    if s.len() == 0 {
        0
    } else {
        digits_value(s.drop_last()) * 10 + (s.last() as u32 - 48) as nat
    }
}

/// The number that a text stands for: decimal digits, at least one, behind an optional `+`.
pub open spec fn number_of(s: Seq<char>) -> Option<nat> {
    let digits = if s.len() > 0 && s[0] == '+' {
        s.skip(1)
    } else {
        s
    };
    if digits.len() > 0 && all_digits(digits) {
        Some(digits_value(digits))
    } else {
        None
    }
}

/// The number that a text stands for, when it is at most `max`.
pub open spec fn number_up_to(s: Seq<char>, max: nat) -> Option<nat> {
    match number_of(s) {
        Some(n) => if n <= max {
            Some(n)
        } else {
            None
        },
        None => None,
    }
}

fn digit_of(c: char) -> (r: Option<u64>)
    ensures
        match r {
            Some(d) => is_digit(c) && d == c as u32 - 48 && d < 10,
            None => !is_digit(c),
        },
{
    let code: u32 = c as u32;
    if code < 48 || code > 57 {
        None
    } else {
        Some((code - 48) as u64)
    }
}

fn parse_up_to(s: &str, max: u64) -> (r: Option<u64>)
    ensures
        match r {
            Some(n) => number_up_to(s@, max as nat) == Some(n as nat),
            None => number_up_to(s@, max as nat) is None,
        },
{
    let chars = chars_of(s);
    let n = chars.len();
    let start: usize = if n > 0 && chars[0] == '+' {
        1
    } else {
        0
    };
    let ghost digits = s@.skip(start as int);
    proof {
        assert(s@.skip(0) =~= s@);
        assert(number_of(s@) == (if digits.len() > 0 && all_digits(digits) {
            Some(digits_value(digits))
        } else {
            None
        }));
    }
    if start == n {
        return None;
    }
    let mut value: u64 = 0;
    let mut too_large = false;
    let mut i: usize = start;
    while i < n
        invariant
            chars@ == s@,
            n == chars@.len(),
            start <= i <= n,
            digits == s@.skip(start as int),
            all_digits(digits.take(i - start)),
            too_large ==> digits_value(digits.take(i - start)) > max,
            !too_large ==> value == digits_value(digits.take(i - start)) && value <= max,
            number_of(s@) == (if digits.len() > 0 && all_digits(digits) {
                Some(digits_value(digits))
            } else {
                None
            }),
        decreases n - i,
    {
        let c = chars[i];
        proof {
            assert(digits[i - start] == c);
            assert(digits.take(i + 1 - start).drop_last() =~= digits.take(i - start));
            assert(digits.take(i + 1 - start).last() == c);
        }
        let d: u64 = match digit_of(c) {
            Some(d) => d,
            None => {
                proof {
                    assert(!is_digit(digits[i - start]));
                }
                return None;
            },
        };
        proof {
            assert(all_digits(digits.take(i + 1 - start))) by {
                assert forall|j: int| 0 <= j < i + 1 - start implies is_digit(
                    #[trigger] digits.take(i + 1 - start)[j],
                ) by {
                    if j < i - start {
                        assert(digits.take(i - start)[j] == digits.take(i + 1 - start)[j]);
                    } else {
                        assert(digits.take(i + 1 - start)[j] == c);
                    }
                }
            }
        }
        if !too_large {
            if value > max / 10 || d > max || value * 10 > max - d {
                too_large = true;
            } else {
                value = value * 10 + d;
            }
        }
        i = i + 1;
    }
    proof {
        assert(digits.take(n - start) =~= digits);
    }
    if too_large {
        None
    } else {
        Some(value)
    }
}

/// The number that a text stands for, when it fits in 64 bits.
pub fn parse_u64(s: &str) -> (r: Option<u64>)
    ensures
        match r {
            Some(n) => number_up_to(s@, u64::MAX as nat) == Some(n as nat),
            None => number_up_to(s@, u64::MAX as nat) is None,
        },
{
    parse_up_to(s, u64::MAX)
}

/// The number that a text stands for, when it fits in 32 bits.
pub fn parse_u32(s: &str) -> (r: Option<u32>)
    ensures
        match r {
            Some(n) => number_up_to(s@, u32::MAX as nat) == Some(n as nat),
            None => number_up_to(s@, u32::MAX as nat) is None,
        },
{
    match parse_up_to(s, 0xffff_ffff) {
        Some(n) => Some(n as u32),
        None => None,
    }
}

/// The character of a digit: `0` to `9`, then `a` and on.
pub open spec fn digit_char(d: nat) -> char {
    if d < 10 {
        (48 + d) as char
    } else {
        (87 + d) as char
    }
}

/// A number written in a base, most significant digit first, without leading zeros.
pub open spec fn numeral(n: nat, base: nat) -> Seq<char>
    decreases n,
{
    if base < 2 || n < base {
        seq![digit_char(n)]
    } else {
        proof {
            assert(n / base < n) by (nonlinear_arith)
                requires
                    n >= base,
                    base >= 2,
            ;
        }
        numeral(n / base, base).push(digit_char(n % base))
    }
}

/// A number written in decimal.
pub open spec fn decimal(n: nat) -> Seq<char> {
    numeral(n, 10)
}

fn digit(d: u8) -> (r: char)
    requires
        d < 36,
    ensures
        r == digit_char(d as nat),
{
    if d < 10 {
        (48 + d) as char
    } else {
        (87 + d) as char
    }
}

/// A number written in a base, most significant digit first, without leading zeros.
pub fn format_radix(n: u128, base: u8) -> (r: String)
    requires
        2 <= base <= 36,
    ensures
        r@ == numeral(n as nat, base as nat),
    decreases n,
{
    let b: u128 = base as u128;
    if n < b {
        let mut out = String::new();
        out.push(digit(n as u8));
        proof {
            assert(out@ =~= seq![digit_char(n as nat)]);
        }
        out
    } else {
        proof {
            assert(n / b < n) by (nonlinear_arith)
                requires
                    n >= b,
                    b >= 2,
            ;
            assert(n % b < b);
        }
        let mut out = format_radix(n / b, base);
        out.push(digit((n % b) as u8));
        out
    }
}

/// A number written in decimal.
pub fn format_decimal(n: u64) -> (r: String)
    ensures
        r@ == decimal(n as nat),
{
    format_radix(n as u128, 10)
}

/// A number written in decimal is made of digits, and they stand for the number.
pub proof fn law_decimal_is_digits(n: nat)
    ensures
        decimal(n).len() > 0,
        all_digits(decimal(n)),
        digits_value(decimal(n)) == n,
    decreases n,
{
    if n < 10 {
        let s = decimal(n);
        assert(s =~= seq![digit_char(n)]);
        assert(s.drop_last() =~= Seq::<char>::empty());
        assert(digits_value(s) == digits_value(s.drop_last()) * 10 + (s.last() as u32 - 48) as nat);
    } else {
        law_decimal_is_digits(n / 10);
        let s = decimal(n);
        assert(s.drop_last() =~= decimal(n / 10));
        assert(s.last() == digit_char(n % 10));
        assert forall|i: int| 0 <= i < s.len() implies is_digit(#[trigger] s[i]) by {
            if i < s.len() - 1 {
                assert(s[i] == decimal(n / 10)[i]);
            }
        }
    }
}

/// Reading back a number written in decimal gives the number.
pub proof fn law_decimal_reads_back(n: nat)
    ensures
        number_of(decimal(n)) == Some(n),
{
    law_decimal_is_digits(n);
    assert(is_digit(decimal(n)[0]));
}

proof fn lemma_zeros_in_front(digits: Seq<char>, zeros: nat)
    requires
        all_digits(digits),
    ensures
        all_digits(Seq::new(zeros, |i: int| '0') + digits),
        digits_value(Seq::new(zeros, |i: int| '0') + digits) == digits_value(digits),
    decreases zeros + digits.len(),
{
    let front = Seq::new(zeros, |i: int| '0');
    let all = front + digits;
    if digits.len() > 0 {
        lemma_zeros_in_front(digits.drop_last(), zeros);
        assert(all.drop_last() =~= front + digits.drop_last());
        assert(all.last() == digits.last());
    } else if zeros > 0 {
        let fewer = Seq::new((zeros - 1) as nat, |i: int| '0');
        lemma_zeros_in_front(digits, (zeros - 1) as nat);
        assert(all.drop_last() =~= fewer + digits);
        assert(all.last() == '0');
    } else {
        assert(all =~= digits);
    }
}

/// Reading back a number written in decimal, with zeros before it, gives the number.
pub proof fn law_zeros_in_front_change_nothing(n: nat, zeros: nat)
    ensures
        number_of(Seq::new(zeros, |i: int| '0') + decimal(n)) == Some(n),
{
    law_decimal_is_digits(n);
    lemma_zeros_in_front(decimal(n), zeros);
    let all = Seq::new(zeros, |i: int| '0') + decimal(n);
    assert(is_digit(all[0]));
}

/// Two numbers written alike in decimal are the same number.
pub proof fn law_decimal_is_injective(a: nat, b: nat)
    requires
        decimal(a) == decimal(b),
    ensures
        a == b,
{
    law_decimal_reads_back(a);
    law_decimal_reads_back(b);
}

proof fn lemma_digit_char(d: nat, e: nat)
    requires
        d < 36,
        e < 36,
    ensures
        digit_char(d) == digit_char(e) ==> d == e,
        digit_char(d) != '-',
        digit_char(d) != '"',
{
}

/// A number written in a base is not empty, and there is no `-` and no `"` in it.
pub proof fn law_numeral_has_no_marks(n: nat, base: nat)
    requires
        2 <= base <= 36,
    ensures
        numeral(n, base).len() > 0,
        forall|i: int|
            0 <= i < numeral(n, base).len() ==> #[trigger] numeral(n, base)[i] != '-' && numeral(
                n,
                base,
            )[i] != '"',
    decreases n,
{
    if n < base {
        lemma_digit_char(n, n);
    } else {
        assert(n / base < n) by (nonlinear_arith)
            requires
                n >= base,
                base >= 2,
        ;
        law_numeral_has_no_marks(n / base, base);
        assert(n % base < base);
        lemma_digit_char(n % base, n % base);
        let before = numeral(n / base, base);
        assert forall|i: int| 0 <= i < numeral(n, base).len() implies #[trigger] numeral(
            n,
            base,
        )[i] != '-' && numeral(n, base)[i] != '"' by {
            if i < before.len() {
                assert(numeral(n, base)[i] == before[i]);
            }
        }
    }
}

proof fn lemma_divided_alike(a: nat, b: nat, base: nat)
    requires
        base > 0,
        a / base == b / base,
        a % base == b % base,
    ensures
        a == b,
{
    lemma_fundamental_div_mod(a as int, base as int);
    lemma_fundamental_div_mod(b as int, base as int);
}

/// A number below the base is one digit, and any other has its last digit behind the rest.
proof fn lemma_numeral_unfolds(n: nat, base: nat)
    requires
        2 <= base,
    ensures
        numeral(n, base).len() >= 1,
        n < base ==> numeral(n, base) == seq![digit_char(n)],
        n >= base ==> numeral(n, base) == numeral(n / base, base).push(digit_char(n % base))
            && numeral(n, base).len() >= 2 && n / base < n,
        n % base < base,
    decreases n,
{
    lemma_mod_bound(n as int, base as int);
    if n >= base {
        assert(n / base < n) by (nonlinear_arith)
            requires
                n >= base,
                base >= 2,
        ;
        lemma_numeral_unfolds(n / base, base);
    }
}

/// Two numbers written alike in a base are the same number.
#[verifier::spinoff_prover]
pub proof fn law_numeral_is_injective(a: nat, b: nat, base: nat)
    requires
        2 <= base <= 36,
        numeral(a, base) == numeral(b, base),
    ensures
        a == b,
    decreases a,
{
    let s = numeral(a, base);
    let t = numeral(b, base);
    lemma_numeral_unfolds(a, base);
    lemma_numeral_unfolds(b, base);
    if a < base && b < base {
        assert(s[0] == digit_char(a) && t[0] == digit_char(b));
        lemma_digit_char(a, b);
    } else if a >= base && b >= base {
        let before = numeral(a / base, base);
        let other = numeral(b / base, base);
        assert(s.drop_last() =~= before);
        assert(t.drop_last() =~= other);
        assert(s.last() == digit_char(a % base) && t.last() == digit_char(b % base));
        lemma_digit_char(a % base, b % base);
        law_numeral_is_injective(a / base, b / base, base);
        lemma_divided_alike(a, b, base);
    } else if a >= base {
        assert(t.len() == 1);
    } else {
        assert(s.len() == 1);
    }
}

/// The low 32 bits of a number.
pub fn low_32(n: u64) -> (r: u32)
    ensures
        r == n % 0x1_0000_0000,
{
    (n % 0x1_0000_0000) as u32
}

// ---------------------------------------------------------------------------
// What trimming, words and case mean
// ---------------------------------------------------------------------------

proof fn lemma_start_cut_off(before: Seq<char>, rest: Seq<char>)
    requires
        forall|i: int| 0 <= i < before.len() ==> whitespace(#[trigger] before[i]),
    ensures
        ({
            let white = |c: char| whitespace(c);
            trimmed_start_by(before + rest, white) == trimmed_start_by(rest, white)
        }),
    decreases before.len(),
{
    let whole = before + rest;
    if before.len() > 0 {
        let fewer = before.skip(1);
        assert(forall|i: int| 0 <= i < fewer.len() ==> #[trigger] fewer[i] == before[i + 1]);
        lemma_start_cut_off(fewer, rest);
        assert(whole[0] == before[0]);
        assert(whole.skip(1) =~= fewer + rest);
    } else {
        assert(whole =~= rest);
    }
}

proof fn lemma_end_cut_off(rest: Seq<char>, behind: Seq<char>)
    requires
        forall|i: int| 0 <= i < behind.len() ==> whitespace(#[trigger] behind[i]),
    ensures
        ({
            let white = |c: char| whitespace(c);
            trimmed_end_by(rest + behind, white) == trimmed_end_by(rest, white)
        }),
    decreases behind.len(),
{
    let whole = rest + behind;
    if behind.len() > 0 {
        let fewer = behind.drop_last();
        assert(forall|i: int| 0 <= i < fewer.len() ==> #[trigger] fewer[i] == behind[i]);
        lemma_end_cut_off(rest, fewer);
        assert(whole.last() == behind[behind.len() - 1]);
        assert(whole.drop_last() =~= rest + fewer);
    } else {
        assert(whole =~= rest);
    }
}

/// Trimming takes the whitespace before and behind a text away, and nothing else.
pub proof fn law_whitespace_is_cut_off(before: Seq<char>, core: Seq<char>, behind: Seq<char>)
    requires
        forall|i: int| 0 <= i < before.len() ==> whitespace(#[trigger] before[i]),
        forall|i: int| 0 <= i < behind.len() ==> whitespace(#[trigger] behind[i]),
        core.len() > 0 ==> !whitespace(core[0]) && !whitespace(core.last()),
    ensures
        trimmed(before + core + behind) == core,
{
    let white = |c: char| whitespace(c);
    assert(before + core + behind =~= before + (core + behind));
    lemma_start_cut_off(before, core + behind);
    if core.len() > 0 {
        assert((core + behind)[0] == core[0]);
        assert(trimmed_start_by(core + behind, white) == core + behind);
        lemma_end_cut_off(core, behind);
        assert(trimmed_end_by(core, white) == core);
    } else {
        assert(core + behind =~= behind + Seq::<char>::empty());
        lemma_start_cut_off(behind, Seq::empty());
        assert(core =~= Seq::<char>::empty());
    }
}

/// A run of letters and digits is a word, as far as it goes: what is neither stands between words
/// and in none of them.
pub proof fn law_words_are_runs(word: Seq<char>, mark: char, rest: Seq<char>)
    requires
        word.len() > 0,
        forall|i: int| 0 <= i < word.len() ==> alphanumeric(#[trigger] word[i]),
        !alphanumeric(mark),
    ensures
        words(word) == seq![word],
        words(word.push(mark) + rest) == seq![word] + words(rest),
        words(seq![mark] + rest) == words(rest),
        words(Seq::<char>::empty()) == Seq::<Seq<char>>::empty(),
{
    let kind = |c: char| alphanumeric(c);
    let n = word.len() as int;
    lemma_run_len(word, kind);
    if run_len(word, kind) < word.len() {
        assert(alphanumeric(word[run_len(word, kind) as int]));
    }
    assert(run_len(word, kind) == n);
    assert(word.take(n) =~= word);
    assert(word.skip(n) =~= Seq::<char>::empty());
    assert(runs(word.skip(n), kind) == Seq::<Seq<char>>::empty());
    assert(runs(word, kind) == seq![word] + runs(word.skip(n), kind));
    assert(seq![word] + Seq::<Seq<char>>::empty() =~= seq![word]);
    let left = seq![mark] + rest;
    assert(left[0] == mark);
    assert(run_len(left, kind) == 0);
    assert(left.skip(1) =~= rest);
    assert(runs(left, kind) == runs(rest, kind));
    let whole = word.push(mark) + rest;
    let m = run_len(whole, kind) as int;
    lemma_run_len(whole, kind);
    assert(whole[n] == mark);
    if m < n {
        assert(whole[m] == word[m]);
        assert(alphanumeric(word[m]));
    }
    if m > n {
        assert(kind(whole[n]));
    }
    assert(whole.take(n) =~= word);
    assert(whole.skip(n) =~= left);
    assert(runs(whole, kind) == seq![word] + runs(whole.skip(n), kind));
}

/// Two texts count as the same but for ASCII case exactly where each two of their characters are
/// the same, or the capital and the small form of one letter from A to Z.
pub proof fn law_ascii_case_does_not_count(a: Seq<char>, b: Seq<char>)
    ensures
        same_ignoring_ascii_case(a, b) == (a.len() == b.len() && forall|i: int|
            0 <= i < a.len() ==> {
                ||| #[trigger] a[i] == b[i]
                ||| 'A' <= a[i] && a[i] <= 'Z' && b[i] as u32 == a[i] as u32 + 32
                ||| 'A' <= b[i] && b[i] <= 'Z' && a[i] as u32 == b[i] as u32 + 32
            }),
{
    if a.len() == b.len() {
        assert forall|i: int| 0 <= i < a.len() implies (ascii_lower(#[trigger] a[i]) == ascii_lower(
            b[i],
        )) == {
            ||| a[i] == b[i]
            ||| 'A' <= a[i] && a[i] <= 'Z' && b[i] as u32 == a[i] as u32 + 32
            ||| 'A' <= b[i] && b[i] <= 'Z' && a[i] as u32 == b[i] as u32 + 32
        } by {
        }
    }
}

/// A text begins with another exactly where it is the other with something behind it.
pub proof fn law_beginnings_are_recognized(s: Seq<char>, prefix: Seq<char>, rest: Seq<char>)
    ensures
        has_prefix(prefix + rest, prefix),
        has_prefix(s, prefix) ==> s == prefix + s.skip(prefix.len() as int),
{
    assert((prefix + rest).take(prefix.len() as int) =~= prefix);
    if has_prefix(s, prefix) {
        assert(s =~= s.take(prefix.len() as int) + s.skip(prefix.len() as int));
    }
}

/// Numbers are written and read in base ten: one digit more is ten times as much and the digit. A `+`
/// may stand in front of the digits, and nothing else may stand anywhere.
pub proof fn law_numbers_are_decimal(n: nat, s: Seq<char>, digit: char)
    requires
        '0' <= digit && digit <= '9',
    ensures
        n < 10 ==> decimal(n) == seq![(48 + n) as char],
        n >= 10 ==> decimal(n) == decimal(n / 10).push((48 + n % 10) as char),
        number_of(seq![digit]) == Some((digit as u32 - 48) as nat),
        number_of(s) is Some ==> number_of(s.push(digit)) == Some(
            number_of(s).unwrap() * 10 + (digit as u32 - 48) as nat,
        ),
        number_of(s) is Some && s[0] != '+' ==> number_of(seq!['+'] + s) == number_of(s),
        number_of(s) is Some ==> forall|i: int|
            0 <= i < s.len() ==> '0' <= (#[trigger] s[i]) && s[i] <= '9' || i == 0 && s[i] == '+',
        number_of(Seq::empty()) is None,
{
    let one = seq![digit];
    assert(one.drop_last() =~= Seq::<char>::empty());
    assert(digits_value(one.drop_last()) == 0);
    if number_of(s) is Some {
        let longer = s.push(digit);
        assert(longer[0] == s[0]);
        if s[0] == '+' {
            let digits = s.skip(1);
            assert(longer.skip(1) =~= digits.push(digit));
            assert(digits.push(digit).drop_last() =~= digits);
            assert forall|i: int| 0 <= i < s.len() implies ('0' <= (#[trigger] s[i]) && s[i] <= '9'
                || i == 0 && s[i] == '+') by {
                if i > 0 {
                    assert(digits[i - 1] == s[i]);
                }
            }
        } else {
            assert(longer.drop_last() =~= s);
            assert((seq!['+'] + s).skip(1) =~= s);
        }
    }
}

/// A number that is too large is none.
pub proof fn law_numbers_have_a_limit(s: Seq<char>, max: nat, n: nat)
    requires
        number_of(s) == Some(n),
    ensures
        n <= max ==> number_up_to(s, max) == Some(n),
        n > max ==> number_up_to(s, max) is None,
{
}

/// Joining texts puts the separator between each two of them, and nowhere else.
pub proof fn law_texts_are_joined(parts: Seq<Seq<char>>, part: Seq<char>, sep: Seq<char>)
    ensures
        joined(Seq::empty(), sep).len() == 0,
        joined(seq![part], sep) == part,
        parts.len() > 0 ==> joined(parts.push(part), sep) == joined(parts, sep) + sep + part,
{
    assert(parts.push(part).drop_last() =~= parts);
}

/// A text is split at each separator: what stands before the first is the first piece, and what stands
/// behind it is split in its turn. A text without separators is one piece.
pub proof fn law_texts_are_split_at_separators(a: Seq<char>, sep: char, b: Seq<char>)
    requires
        !a.contains(sep),
    ensures
        pieces(a, sep) == seq![a],
        pieces(a.push(sep) + b, sep) == seq![a] + pieces(b, sep),
{
    let whole = a.push(sep) + b;
    let n = a.len() as int;
    assert forall|i: int| 0 <= i < n implies #[trigger] a[i] != sep by {
        assert(a.contains(a[i]));
    }
    assert(forall|i: int| 0 <= i < n ==> #[trigger] whole[i] == a[i]);
    assert(whole[n] == sep);
    lemma_find_char_is(a, sep, n);
    lemma_find_char_is(whole, sep, n);
    assert(whole.take(n) =~= a);
    assert(whole.skip(n + 1) =~= b);
}

/// The same holds of separators of several characters: the first that stands in the text counts.
pub proof fn law_texts_are_split_at_texts(a: Seq<char>, sep: Seq<char>, b: Seq<char>)
    requires
        sep.len() > 0,
    ensures
        (forall|i: int|
            0 <= i && i + sep.len() <= a.len() ==> #[trigger] a.subrange(i, i + sep.len()) != sep)
            ==> pieces_by(a, sep) == seq![a],
        (forall|i: int|
            0 <= i < a.len() ==> #[trigger] (a + sep + b).subrange(i, i + sep.len()) != sep)
            ==> pieces_by(a + sep + b, sep) == seq![a] + pieces_by(b, sep),
{
    let n = a.len() as int;
    let m = sep.len() as int;
    if forall|i: int| 0 <= i && i + m <= n ==> #[trigger] a.subrange(i, i + m) != sep {
        assert forall|i: int| 0 <= i < n implies !has_prefix(#[trigger] a.skip(i), sep) by {
            if has_prefix(a.skip(i), sep) {
                assert(a.skip(i).take(m) =~= a.subrange(i, i + m));
            }
        }
        lemma_find_text_is(a, sep, n);
    }
    let whole = a + sep + b;
    if forall|i: int| 0 <= i < n ==> #[trigger] whole.subrange(i, i + m) != sep {
        assert forall|i: int| 0 <= i < n implies !has_prefix(#[trigger] whole.skip(i), sep) by {
            if has_prefix(whole.skip(i), sep) {
                assert(whole.skip(i).take(m) =~= whole.subrange(i, i + m));
            }
        }
        assert(whole.skip(n).take(m) =~= sep);
        lemma_find_text_is(whole, sep, n);
        assert(whole.take(n) =~= a);
        assert(whole.skip(n + m) =~= b);
    }
}

} // verus!
