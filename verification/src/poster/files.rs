//! The files in which posters are kept, and what is shown where there is none.
use crate::ingestion::temp_store::{parse_tconst_id, tconst_number};
use crate::moment::Moment;
use crate::text::{
    concat, decimal, format_decimal, format_radix, law_numeral_has_no_marks,
    law_numeral_is_injective, law_numbers_are_decimal, law_whitespace_is_cut_off, numeral, same,
    str_opt, trim, trimmed, whitespace,
};
use vstd::prelude::*;

verus! {

// ---------------------------------------------------------------------------
// Places
// ---------------------------------------------------------------------------

/// A number below 100 in two digits.
pub open spec fn two_digits(n: nat) -> Seq<char> {
    if n < 10 {
        "0"@ + decimal(n)
    } else {
        decimal(n)
    }
}

/// The directory of a poster: the last two digits of the IMDb id, `00` where it has no number.
pub open spec fn shard_of(tconst: Seq<char>) -> Seq<char> {
    match tconst_number(tconst) {
        Some(n) => two_digits(n % 100),
        None => two_digits(0),
    }
}

/// The name of the file of a poster.
pub open spec fn poster_file_name(tconst: Seq<char>, size: Seq<char>) -> Seq<char> {
    tconst + "_"@ + size + ".jpg"@
}

/// The directory of a poster, below the directory of the cache.
pub fn poster_shard(tconst: &str) -> (r: String)
    ensures
        r@ == shard_of(tconst@),
{
    let id: u32 = parse_tconst_id(tconst).unwrap_or(0);
    let n: u64 = (id % 100) as u64;
    let digits = format_decimal(n);
    if n < 10 {
        concat("0", digits.as_str())
    } else {
        digits
    }
}

/// The name of the file of a poster.
pub fn poster_file(tconst: &str, size: &str) -> (r: String)
    ensures
        r@ == poster_file_name(tconst@, size@),
{
    let mut name = tconst.to_owned();
    name.append("_");
    name.append(size);
    name.append(".jpg");
    name
}

/// The key under which a poster is being fetched.
pub fn flight_key(tconst: &str, size: &str) -> (r: String)
    ensures
        r@ == tconst@ + "_"@ + size@,
        poster_file_name(tconst@, size@) == r@ + ".jpg"@,
{
    let mut key = tconst.to_owned();
    key.append("_");
    key.append(size);
    key
}

// ---------------------------------------------------------------------------
// Files that are there
// ---------------------------------------------------------------------------

/// What is known of the file of a poster.
#[derive(Debug, Clone)]
pub struct PosterFileMetadata {
    pub path: String,
    pub size: u64,
    pub modified: Moment,
    pub etag: String,
}

/// The tag of a file: when it was changed and how large it is.
pub open spec fn etag_of(modified: Moment, size: u64) -> Seq<char> {
    "W/\""@ + numeral(modified.since_epoch(), 16) + "-"@ + numeral(size as nat, 16) + "\""@
}

/// Whether this is what is known of a poster in a file: nothing where it is no file or empty.
pub open spec fn is_found_file(
    r: Option<PosterFileMetadata>,
    path: Seq<char>,
    is_file: bool,
    size: u64,
    modified: Moment,
) -> bool {
    match r {
        Some(meta) => is_file && size > 0 && meta.path@ == path && meta.size == size
            && meta.modified == modified && meta.etag@ == etag_of(modified, size),
        None => !is_file || size == 0,
    }
}

/// The poster in a file, if it is a file and not empty.
pub fn poster_file_metadata(path: &str, is_file: bool, size: u64, modified: Moment) -> (r: Option<
    PosterFileMetadata,
>)
    ensures
        is_found_file(r, path@, is_file, size, modified),
{
    if !is_file || size == 0 {
        return None;
    }
    let mut etag = "W/\"".to_owned();
    etag.append(format_radix(modified.nanos_since_epoch(), 16).as_str());
    etag.append("-");
    etag.append(format_radix(size as u128, 16).as_str());
    etag.append("\"");
    Some(PosterFileMetadata { path: path.to_owned(), size, modified, etag })
}

/// Whether the tag that a client names is a given one, but for whitespace round them.
pub open spec fn names_tag(if_none_match: Option<Seq<char>>, etag: Seq<char>) -> bool {
    match if_none_match {
        Some(s) => trimmed(s) == trimmed(etag),
        None => false,
    }
}

/// Whether the client has the file that a tag is of.
pub fn is_not_modified(if_none_match: Option<&str>, etag: &str) -> (r: bool)
    ensures
        r == names_tag(str_opt(if_none_match), etag@),
{
    match if_none_match {
        Some(s) => {
            let theirs = trim(s);
            let ours = trim(etag);
            same(theirs.as_str(), ours.as_str())
        },
        None => false,
    }
}

proof fn lemma_dashed(a: Seq<char>, b: Seq<char>, c: Seq<char>, d: Seq<char>)
    requires
        a + "-"@ + b == c + "-"@ + d,
        forall|i: int| 0 <= i < a.len() ==> #[trigger] a[i] != '-',
        forall|i: int| 0 <= i < c.len() ==> #[trigger] c[i] != '-',
    ensures
        a == c,
        b == d,
{
    reveal_strlit("-");
    let first = a + "-"@ + b;
    let second = c + "-"@ + d;
    assert(first[a.len() as int] == '-');
    assert(second[c.len() as int] == '-');
    if a.len() < c.len() {
        assert(second[a.len() as int] == c[a.len() as int]);
    }
    if c.len() < a.len() {
        assert(first[c.len() as int] == a[c.len() as int]);
    }
    assert(a =~= first.take(a.len() as int));
    assert(c =~= second.take(c.len() as int));
    assert(b =~= first.skip(a.len() as int + 1));
    assert(d =~= second.skip(c.len() as int + 1));
}

/// Files with the same tag were changed at the same time since the epoch and are as large.
pub proof fn law_tags_tell_files_apart(m: Moment, size: u64, n: Moment, other: u64)
    requires
        etag_of(m, size) == etag_of(n, other),
    ensures
        m.since_epoch() == n.since_epoch(),
        size == other,
{
    reveal_strlit("W/\"");
    reveal_strlit("-");
    reveal_strlit("\"");
    let a = numeral(m.since_epoch(), 16);
    let b = numeral(size as nat, 16);
    let c = numeral(n.since_epoch(), 16);
    let d = numeral(other as nat, 16);
    law_numeral_has_no_marks(m.since_epoch(), 16);
    law_numeral_has_no_marks(n.since_epoch(), 16);
    let first = etag_of(m, size);
    let second = etag_of(n, other);
    assert(a + "-"@ + b =~= first.subrange(3, first.len() - 1));
    assert(c + "-"@ + d =~= second.subrange(3, second.len() - 1));
    lemma_dashed(a, b, c, d);
    law_numeral_is_injective(m.since_epoch(), n.since_epoch(), 16);
    law_numeral_is_injective(size as nat, other as nat, 16);
}

// ---------------------------------------------------------------------------
// The placeholder
// ---------------------------------------------------------------------------

/// What stands before the id in the placeholder.
pub const PLACEHOLDER_HEAD: &'static str = "<svg xmlns=\"http://www.w3.org/2000/svg\" viewBox=\"0 0 300 450\" width=\"100%\" height=\"100%\">\n  <defs>\n    <linearGradient id=\"bg\" x1=\"0\" y1=\"0\" x2=\"1\" y2=\"1\">\n      <stop offset=\"0%\" stop-color=\"#141824\"/>\n      <stop offset=\"100%\" stop-color=\"#0b0e14\"/>\n    </linearGradient>\n  </defs>\n  <rect width=\"300\" height=\"450\" fill=\"url(#bg)\"/>\n  <rect x=\"15\" y=\"15\" width=\"270\" height=\"420\" rx=\"8\" fill=\"none\" stroke=\"#252c3d\" stroke-width=\"2\" stroke-dasharray=\"6 4\"/>\n  <g fill=\"#4e5d78\" transform=\"translate(115, 175) scale(2.8)\">\n    <path d=\"M18 4l2 4h-3l-2-4h-2l2 4h-3l-2-4H8l2 4H7L5 4H4c-1.1 0-1.99.9-1.99 2L2 18c0 1.1.9 2 2 2h16c1.1 0 2-.9 2-2V4h-4z\"/>\n  </g>\n  <text x=\"150\" y=\"270\" fill=\"#7a8b9e\" font-family=\"-apple-system, BlinkMacSystemFont, Segoe UI, Roboto, sans-serif\" font-size=\"14\" font-weight=\"500\" text-anchor=\"middle\">Нет постера</text>\n  <text x=\"150\" y=\"295\" fill=\"#424c5e\" font-family=\"monospace\" font-size=\"12\" text-anchor=\"middle\">";

/// What stands behind the id in the placeholder.
pub const PLACEHOLDER_TAIL: &'static str = "</text>\n</svg>";

/// The picture that is shown where there is no poster.
pub fn render_svg_placeholder(tconst: &str) -> (r: String)
    ensures
        r@ == PLACEHOLDER_HEAD@ + tconst@ + PLACEHOLDER_TAIL@,
{
    let mut svg = PLACEHOLDER_HEAD.to_owned();
    svg.append(tconst);
    svg.append(PLACEHOLDER_TAIL);
    svg
}

// ---------------------------------------------------------------------------
// Laws
// ---------------------------------------------------------------------------

/// The directory of a poster is named by the last two digits of the id, and `00` where the id has no
/// number.
pub proof fn law_directories_are_the_last_two_digits(tconst: Seq<char>, n: nat)
    ensures
        tconst_number(tconst) == Some(n) ==> shard_of(tconst) == seq![
            (48 + (n / 10) % 10) as char,
            (48 + n % 10) as char,
        ],
        tconst_number(tconst) is None ==> shard_of(tconst) == seq!['0', '0'],
{
    reveal_strlit("0");
    let m = n % 100;
    law_numbers_are_decimal(m, Seq::empty(), '0');
    law_numbers_are_decimal(m / 10, Seq::empty(), '0');
    law_numbers_are_decimal(0, Seq::empty(), '0');
    assert(m % 10 == n % 10 && (m / 10) % 10 == (n / 10) % 10);
    assert(two_digits(0) =~= seq!['0', '0']);
    assert(two_digits(m) =~= seq![(48 + (m / 10) % 10) as char, (48 + m % 10) as char]);
}

/// A file is named by the id and the size of a poster: where the sizes have no underscore, different
/// posters and different sizes are in different files.
pub proof fn law_files_are_told_apart(
    tconst: Seq<char>,
    size: Seq<char>,
    other: Seq<char>,
    width: Seq<char>,
)
    requires
        poster_file_name(tconst, size) == poster_file_name(other, width),
        !size.contains('_'),
        !width.contains('_'),
    ensures
        tconst == other,
        size == width,
{
    reveal_strlit("_");
    reveal_strlit(".jpg");
    let a = poster_file_name(tconst, size);
    let b = poster_file_name(other, width);
    let m = tconst.len() as int;
    let n = other.len() as int;
    assert(a[m] == '_');
    assert(b[n] == '_');
    assert(a.len() == m + 1 + size.len() + 4);
    assert(b.len() == n + 1 + width.len() + 4);
    assert(a[a.len() - 4] == '.');
    assert(b[b.len() - 4] == '.');
    if m < n {
        assert(n < a.len());
        if n < a.len() - 4 {
            assert(a[n] == size[n - m - 1]);
        } else {
            assert(a[n] == ".jpg"@[n - (a.len() - 4)]);
        }
    } else if n < m {
        if m < b.len() - 4 {
            assert(b[m] == width[m - n - 1]);
        } else {
            assert(b[m] == ".jpg"@[m - (b.len() - 4)]);
        }
    }
    assert(a.take(m) =~= tconst);
    assert(b.take(n) =~= other);
    assert(a.subrange(m + 1, a.len() - 4) =~= size);
    assert(b.subrange(n + 1, b.len() - 4) =~= width);
}

/// A file that is there and not empty is found, with its size, when it was changed, and a weak tag of
/// both; nothing else is.
pub proof fn law_files_are_found(
    r: Option<PosterFileMetadata>,
    path: Seq<char>,
    is_file: bool,
    size: u64,
    modified: Moment,
)
    requires
        is_found_file(r, path, is_file, size, modified),
    ensures
        r is Some <==> is_file && size != 0,
        r is Some ==> r.unwrap().path@ == path && r.unwrap().size == size && r.unwrap().modified
            == modified && r.unwrap().etag@ == "W/\""@ + numeral(modified.since_epoch(), 16) + "-"@
            + numeral(size as nat, 16) + "\""@,
{
}

/// Whitespace round a tag does not count, everything else does; a client that names none has nothing.
pub proof fn law_tags_are_compared(
    before: Seq<char>,
    tag: Seq<char>,
    behind: Seq<char>,
    other: Seq<char>,
)
    requires
        forall|i: int| 0 <= i < before.len() ==> whitespace(#[trigger] before[i]),
        forall|i: int| 0 <= i < behind.len() ==> whitespace(#[trigger] behind[i]),
        tag.len() > 0 && !whitespace(tag[0]) && !whitespace(tag.last()),
        other.len() > 0 && !whitespace(other[0]) && !whitespace(other.last()),
    ensures
        names_tag(Some(before + tag + behind), other) == (tag == other),
        !names_tag(None, tag),
{
    let none = Seq::<char>::empty();
    law_whitespace_is_cut_off(before, tag, behind);
    law_whitespace_is_cut_off(none, other, none);
    assert(none + other + none =~= other);
}

} // verus!
