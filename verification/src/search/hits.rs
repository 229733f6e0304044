//! The hits of a search.
//!
//! Scores are held as the 64-bit keys that `tantivy::f64_to_u64` gives them: keys are in the
//! order of the scores.
use crate::index::document::MovieDoc;
use crate::ranking::{descending, keys_ascend, law_sorted_by_key, ranked, sorted_by_key, take_ranked};
use vstd::prelude::*;

verus! {

/// Where the poster of a movie is served, in four sizes.
#[derive(Debug, Clone)]
pub struct PosterUrls {
    pub thumbnail: String,
    pub small: String,
    pub medium: String,
    pub large: String,
}

/// A movie that was found.
#[derive(Debug, Clone)]
pub struct SearchHit {
    pub movie: MovieDoc,
    pub score: u64,
    pub bm25_score: u64,
    pub popularity_multiplier: u64,
    pub poster_url: String,
    pub posters: PosterUrls,
}

/// Where the poster of a movie is served in a size.
pub open spec fn poster_address(tconst: Seq<char>, size: Seq<char>) -> Seq<char> {
    "/poster/"@ + tconst + "?size="@ + size + "&v=2"@
}

/// Where the poster of a movie is served in a size.
pub fn poster_url(tconst: &str, size: &str) -> (r: String)
    ensures
        r@ == poster_address(tconst@, size@),
{
    let mut url = "/poster/".to_owned();
    url.append(tconst);
    url.append("?size=");
    url.append(size);
    url.append("&v=2");
    url
}

/// The multiplier for the year that a query names, in tenths.
pub open spec fn year_weight(asked: Option<u64>, year: Option<u32>) -> u32 {
    match asked {
        Some(y) => if year == Some((y % 0x1_0000_0000) as u32) {
            25
        } else {
            10
        },
        None => 10,
    }
}

/// The multiplier for the year that a query names, in tenths: a movie of that year counts more.
pub fn year_multiplier(asked: Option<u64>, year: Option<u32>) -> (r: u32)
    ensures
        r == year_weight(asked, year),
{
    match (asked, year) {
        (Some(y), Some(n)) => if crate::text::low_32(y) == n {
            25
        } else {
            10
        },
        _ => 10,
    }
}

/// A movie that was found, with where its posters are served.
pub fn make_hit(movie: MovieDoc, score: u64, bm25_score: u64, popularity_multiplier: u64) -> (r:
    SearchHit)
    ensures
        r.movie == movie,
        r.score == score,
        r.bm25_score == bm25_score,
        r.popularity_multiplier == popularity_multiplier,
        r.poster_url@ == poster_address(movie.tconst@, "w185"@),
        r.posters.thumbnail@ == poster_address(movie.tconst@, "w92"@),
        r.posters.small@ == poster_address(movie.tconst@, "w154"@),
        r.posters.medium@ == poster_address(movie.tconst@, "w185"@),
        r.posters.large@ == poster_address(movie.tconst@, "w342"@),
        r.poster_url@ == r.posters.medium@,
{
    let tconst = movie.tconst.as_str();
    let poster = poster_url(tconst, "w185");
    let posters = PosterUrls {
        thumbnail: poster_url(tconst, "w92"),
        small: poster_url(tconst, "w154"),
        medium: poster_url(tconst, "w185"),
        large: poster_url(tconst, "w342"),
    };
    SearchHit { movie, score, bm25_score, popularity_multiplier, poster_url: poster, posters }
}

/// Hits with the keys that bring the highest score to the front.
pub open spec fn keyed_hits(hits: Seq<SearchHit>) -> Seq<(u64, SearchHit)> {
    Seq::new(hits.len(), |i: int| (descending(hits[i].score), hits[i]))
}

/// The hits that are shown: the ones with the highest scores, the highest first.
pub open spec fn best_hits(hits: Seq<SearchHit>, limit: nat) -> Seq<SearchHit> {
    ranked(keyed_hits(hits), limit)
}

/// The hits that are shown: the ones with the highest scores, the highest first, and hits with
/// the same score in the order in which they were found.
pub fn rank_hits(hits: Vec<SearchHit>, limit: usize) -> (r: Vec<SearchHit>)
    ensures
        r@ == best_hits(hits@, limit as nat),
{
    let ghost all = hits@;
    let mut keyed: Vec<(u64, SearchHit)> = Vec::new();
    for hit in it: hits
        invariant
            it.seq() == all,
            keyed@ =~= keyed_hits(all).take(it.index() as int),
    {
        let key: u64 = u64::MAX - hit.score;
        keyed.push((key, hit));
    }
    proof {
        assert(keyed@ =~= keyed_hits(all));
    }
    take_ranked(keyed, limit)
}

proof fn lemma_sorted_hits(hits: Seq<SearchHit>, k: int)
    requires
        0 <= k < sorted_by_key(keyed_hits(hits)).len(),
    ensures
        sorted_by_key(keyed_hits(hits))[k].0 == descending(
            sorted_by_key(keyed_hits(hits))[k].1.score,
        ),
        hits.contains(sorted_by_key(keyed_hits(hits))[k].1),
{
    broadcast use vstd::seq_lib::group_to_multiset_ensures;

    let keyed = keyed_hits(hits);
    let sorted = sorted_by_key(keyed);
    law_sorted_by_key(keyed);
    assert(sorted.contains(sorted[k]));
    assert(sorted.to_multiset().count(sorted[k]) > 0);
    assert(keyed.contains(sorted[k]));
    let m = choose|m: int| 0 <= m < keyed.len() && keyed[m] == sorted[k];
    assert(hits[m] == sorted[k].1);
}

/// No more hits are shown than are asked for, every one of them was found, and their scores do
/// not rise along the list.
pub proof fn law_best_hits(hits: Seq<SearchHit>, limit: nat, i: int, j: int)
    requires
        0 <= i <= j < best_hits(hits, limit).len(),
    ensures
        best_hits(hits, limit).len() <= limit,
        hits.contains(best_hits(hits, limit)[i]),
        best_hits(hits, limit)[i].score >= best_hits(hits, limit)[j].score,
{
    law_sorted_by_key(keyed_hits(hits));
    lemma_sorted_hits(hits, i);
    lemma_sorted_hits(hits, j);
    assert(keys_ascend(sorted_by_key(keyed_hits(hits))));
}

/// A hit that was found is shown, or none of the hits that are shown has a lower score.
pub proof fn law_the_best_are_shown(hits: Seq<SearchHit>, limit: nat, found: int, shown: int)
    requires
        0 <= found < hits.len(),
        0 <= shown < best_hits(hits, limit).len(),
    ensures
        best_hits(hits, limit).contains(hits[found]) || best_hits(hits, limit)[shown].score
            >= hits[found].score,
{
    broadcast use vstd::seq_lib::group_to_multiset_ensures;

    let keyed = keyed_hits(hits);
    let sorted = sorted_by_key(keyed);
    law_sorted_by_key(keyed);
    assert(keyed.contains(keyed[found]));
    assert(keyed.to_multiset().count(keyed[found]) > 0);
    assert(sorted.contains(keyed[found]));
    let k = choose|k: int| 0 <= k < sorted.len() && sorted[k] == keyed[found];
    lemma_sorted_hits(hits, shown);
    lemma_sorted_hits(hits, k);
    if k < limit {
        assert(best_hits(hits, limit)[k] == hits[found]);
    } else {
        assert(sorted[shown].0 <= sorted[k].0);
    }
}

/// As many hits are shown as are asked for, or all where fewer were found.
pub proof fn law_no_hit_is_lost(hits: Seq<SearchHit>, limit: nat)
    ensures
        best_hits(hits, limit).len() == (if hits.len() <= limit {
            hits.len()
        } else {
            limit
        }),
{
    law_sorted_by_key(keyed_hits(hits));
}

/// A movie of the year that is asked for counts two and a half times. Where no year is asked for, and
/// for every other movie, nothing is changed.
pub proof fn law_the_year_counts(asked: u32, year: Option<u32>)
    ensures
        year_weight(Some(asked as u64), Some(asked)) == 25,
        year != Some(asked) ==> year_weight(Some(asked as u64), year) == 10,
        year_weight(None, year) == 10,
{
}

/// A poster is served below `/poster/`, under the id of the movie, in a size: where the ids have no
/// question mark, posters of different movies or in different sizes are at different places.
pub proof fn law_posters_have_addresses(
    tconst: Seq<char>,
    size: Seq<char>,
    other: Seq<char>,
    width: Seq<char>,
)
    ensures
        poster_address(tconst, size) == "/poster/"@ + tconst + "?size="@ + size + "&v=2"@,
        poster_address(tconst, size) == poster_address(other, width) && !tconst.contains('?')
            && !other.contains('?') ==> tconst == other && size == width,
{
    if poster_address(tconst, size) == poster_address(other, width) && !tconst.contains('?')
        && !other.contains('?') {
        reveal_strlit("/poster/");
        reveal_strlit("?size=");
        reveal_strlit("&v=2");
        let a = poster_address(tconst, size);
        let b = poster_address(other, width);
        let m = tconst.len() as int;
        let n = other.len() as int;
        assert(a[8 + m] == '?');
        assert(b[8 + n] == '?');
        assert(a.len() == 8 + m + 6 + size.len() + 4);
        assert(b.len() == 8 + n + 6 + width.len() + 4);
        if m < n {
            assert(b[8 + m] == other[m]);
        } else if n < m {
            assert(a[8 + n] == tconst[n]);
        }
        assert(a.subrange(8, 8 + m) =~= tconst);
        assert(b.subrange(8, 8 + n) =~= other);
        assert(a.subrange(8 + m + 6, a.len() - 4) =~= size);
        assert(b.subrange(8 + n + 6, b.len() - 4) =~= width);
    }
}

} // verus!
