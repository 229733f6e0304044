//! Russian text in the index and in queries: `ё` counts as `е`.
use crate::text::lowercased;
use vstd::prelude::*;

verus! {

/// A character with `ё` and `Ё` taken for `е`.
pub open spec fn yo_as_ye(c: char) -> char {
    if c == 'ё' || c == 'Ё' {
        'е'
    } else {
        c
    }
}

/// A text with `ё` and `Ё` taken for `е`.
pub open spec fn without_yo(s: Seq<char>) -> Seq<char> {
    Seq::new(s.len(), |i: int| yo_as_ye(s[i]))
}

/// Whether there is a `ё` or `Ё` in a text.
pub open spec fn has_yo(s: Seq<char>) -> bool {
    s.contains('ё') || s.contains('Ё')
}

/// The text of a query as it is searched for.
pub open spec fn normalized(s: Seq<char>) -> Seq<char> {
    without_yo(lowercased(s))
}

/// Whether two texts differ in `ё`, `Ё` and `е` alone.
pub open spec fn are_alike(a: Seq<char>, b: Seq<char>) -> bool {
    a.len() == b.len() && forall|i: int|
        0 <= i < a.len() ==> #[trigger] a[i] == b[i] || (yo_as_ye(a[i]) == 'е' && yo_as_ye(b[i])
            == 'е')
}

/// A text with `ё` and `Ё` taken for `е`.
pub fn normalize_yo(s: &str) -> (r: String)
    ensures
        r@ == without_yo(s@),
{
    let mut out = String::new();
    for c in it: s.chars()
        invariant
            it.seq() == s@,
            out@ =~= without_yo(s@).take(it.index() as int),
    {
        if c == 'ё' || c == 'Ё' {
            out.push('е');
        } else {
            out.push(c);
        }
    }
    out
}

/// The text of a query as it is searched for: in lower case, with `ё` taken for `е`. Doing it again
/// changes nothing, nor does taking the lower-case form or `е` for `ё` before, and it is the same
/// for every text that differs in `ё`, `Ё` and `е` alone.
pub fn normalize_query_text(s: &str) -> (r: String)
    ensures
        r@ == normalized(s@),
        normalized(r@) == r@,
        normalized(lowercased(s@)) == r@,
        normalized(without_yo(s@)) == r@,
        !has_yo(r@),
        forall|t: Seq<char>| are_alike(t, s@) ==> #[trigger] normalized(t) == r@,
{
    let lower = s.to_lowercase();
    proof {
        law_yo_is_normalized_once(lower@);
        assert(are_alike(without_yo(s@), s@));
        assert(are_alike(without_yo(lower@), lower@));
        law_yo_and_ye_are_alike(lowercased(without_yo(lower@)), lower@);
        law_yo_and_ye_are_alike(lowercased(without_yo(s@)), lower@);
        assert forall|t: Seq<char>| are_alike(t, s@) implies #[trigger] normalized(t)
            == without_yo(lower@) by {
            law_yo_and_ye_are_alike(lowercased(t), lower@);
        }
    }
    normalize_yo(lower.as_str())
}

/// The filter through which the words of Russian titles go into the index.
#[derive(Debug, Clone, Copy, Default)]
pub struct RussianYoFilter;

impl RussianYoFilter {
    /// The word that goes into the index for a word of a title: in lower case, with `ё` taken for
    /// `е`, as in the text of a query. It is the same for every word that differs in `ё`, `Ё` and
    /// `е` alone, and is left as it is when it goes through the filter again.
    pub fn filter(&self, word: String) -> (r: String)
        ensures
            r@ == normalized(word@),
            normalized(r@) == r@,
            forall|other: Seq<char>| are_alike(other, word@) ==> #[trigger] normalized(other) == r@,
    {
        normalize_query_text(word.as_str())
    }
}

/// No `ё` is left in what is searched for or indexed.
pub proof fn law_no_yo_is_left(s: Seq<char>)
    ensures
        !has_yo(without_yo(s)),
        !has_yo(normalized(s)),
        without_yo(s).len() == s.len(),
{
}

/// Taking `ё` for `е` again changes nothing.
pub proof fn law_yo_is_normalized_once(s: Seq<char>)
    ensures
        without_yo(without_yo(s)) == without_yo(s),
{
    assert(without_yo(without_yo(s)) =~= without_yo(s));
}

/// Texts that differ in `ё` and `е` alone are the same with `ё` taken for `е`.
pub proof fn law_yo_and_ye_are_alike(a: Seq<char>, b: Seq<char>)
    requires
        are_alike(a, b),
    ensures
        without_yo(a) == without_yo(b),
{
    assert(without_yo(a) =~= without_yo(b));
}

/// Only `ё` and `Ё` are changed, into `е`: every other character stays as it is.
pub proof fn law_only_yo_is_changed(s: Seq<char>, i: int)
    requires
        0 <= i < s.len(),
    ensures
        without_yo(s).len() == s.len(),
        s[i] == 'ё' || s[i] == 'Ё' ==> without_yo(s)[i] == 'е',
        s[i] != 'ё' && s[i] != 'Ё' ==> without_yo(s)[i] == s[i],
{
}

/// What is searched for is in lower case: of two texts with the same lower-case form the same is
/// searched for, and apart from `ё` it is that form.
pub proof fn law_case_does_not_count(s: Seq<char>, other: Seq<char>)
    ensures
        lowercased(s) == lowercased(other) ==> normalized(s) == normalized(other),
        normalized(s).len() == lowercased(s).len(),
        !lowercased(s).contains('ё') && !lowercased(s).contains('Ё') ==> normalized(s) == lowercased(
            s,
        ),
{
    let lower = lowercased(s);
    if !lower.contains('ё') && !lower.contains('Ё') {
        assert(without_yo(lower) =~= lower);
    }
}

} // verus!
