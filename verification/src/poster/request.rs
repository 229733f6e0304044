//! What is asked of TMDB: the addresses and how a request is authorized.
use crate::text::{
    byte_len, decimal, format_decimal, is_blank, law_decimal_is_injective,
    law_whitespace_is_cut_off, trimmed, whitespace,
};
use vstd::prelude::*;
use vstd::utf8::encode_utf8;

verus! {

/// Keys longer than this, in bytes, are access tokens.
pub const API_KEY_MAX_LEN: usize = 40;

/// Whether there is a key to ask TMDB with.
pub open spec fn key_is_set(api_key: Seq<char>) -> bool {
    trimmed(api_key).len() > 0
}

/// Whether there is a key to ask TMDB with.
pub fn has_key(api_key: &str) -> (r: bool)
    ensures
        r == key_is_set(api_key@),
{
    !is_blank(api_key)
}

/// How a request shows that it is authorized.
#[derive(Debug, Clone)]
pub enum Authorization {
    /// The value of the `Authorization` header.
    Header(String),
    /// The value of the `api_key` parameter.
    Parameter(String),
}

/// Whether this is how a key is shown.
pub open spec fn shows_key(r: Authorization, api_key: Seq<char>) -> bool {
    match r {
        Authorization::Header(value) => encode_utf8(api_key).len() > API_KEY_MAX_LEN && value@
            == "Bearer "@ + api_key,
        Authorization::Parameter(value) => encode_utf8(api_key).len() <= API_KEY_MAX_LEN && value@
            == api_key,
    }
}

/// Shows a long key as a bearer token in the header, and any other as a parameter.
pub fn authorize(api_key: &str) -> (r: Authorization)
    ensures
        shows_key(r, api_key@),
{
    if byte_len(api_key) > API_KEY_MAX_LEN {
        let mut value = "Bearer ".to_owned();
        value.append(api_key);
        Authorization::Header(value)
    } else {
        Authorization::Parameter(api_key.to_owned())
    }
}

/// The kind of media in an address.
pub open spec fn media_word(is_tv: bool) -> Seq<char> {
    if is_tv {
        "tv"@
    } else {
        "movie"@
    }
}

/// The kind of media in an address.
pub fn media_kind(is_tv: bool) -> (r: &'static str)
    ensures
        r@ == media_word(is_tv),
{
    if is_tv {
        "tv"
    } else {
        "movie"
    }
}

/// Where the media with an IMDb id are found.
pub fn find_url(tconst: &str) -> (r: String)
    ensures
        r@ == "https://api.themoviedb.org/3/find/"@ + tconst@
            + "?external_source=imdb_id&language=ru-RU"@,
{
    let mut url = "https://api.themoviedb.org/3/find/".to_owned();
    url.append(tconst);
    url.append("?external_source=imdb_id&language=ru-RU");
    url
}

/// Where the images of a movie or a series are listed.
pub fn images_url(is_tv: bool, id: u64) -> (r: String)
    ensures
        r@ == "https://api.themoviedb.org/3/"@ + media_word(is_tv) + "/"@ + decimal(id as nat)
            + "/images?include_image_language=ru,en,null"@,
{
    let mut url = "https://api.themoviedb.org/3/".to_owned();
    url.append(media_kind(is_tv));
    url.append("/");
    url.append(format_decimal(id).as_str());
    url.append("/images?include_image_language=ru,en,null");
    url
}

/// Where the details of a movie or a series are.
pub fn details_url(is_tv: bool, id: u64) -> (r: String)
    ensures
        r@ == "https://api.themoviedb.org/3/"@ + media_word(is_tv) + "/"@ + decimal(id as nat) + (
        if is_tv {
            "?language=ru-RU&append_to_response=aggregate_credits,credits,videos,images&include_image_language=ru,en,null&include_video_language=ru,en,null"@
        } else {
            "?language=ru-RU&append_to_response=credits,videos,images&include_image_language=ru,en,null&include_video_language=ru,en,null"@
        }),
{
    let mut url = "https://api.themoviedb.org/3/".to_owned();
    url.append(media_kind(is_tv));
    url.append("/");
    url.append(format_decimal(id).as_str());
    if is_tv {
        url.append(
            "?language=ru-RU&append_to_response=aggregate_credits,credits,videos,images&include_image_language=ru,en,null&include_video_language=ru,en,null",
        );
    } else {
        url.append(
            "?language=ru-RU&append_to_response=credits,videos,images&include_image_language=ru,en,null&include_video_language=ru,en,null",
        );
    }
    url
}

/// Where the details of a movie or a series are in English.
pub fn english_url(is_tv: bool, id: u64) -> (r: String)
    ensures
        r@ == "https://api.themoviedb.org/3/"@ + media_word(is_tv) + "/"@ + decimal(id as nat)
            + "?language=en-US"@,
{
    let mut url = "https://api.themoviedb.org/3/".to_owned();
    url.append(media_kind(is_tv));
    url.append("/");
    url.append(format_decimal(id).as_str());
    url.append("?language=en-US");
    url
}

/// Where the details of a series and its seasons are.
pub fn series_url(id: u64) -> (r: String)
    ensures
        r@ == "https://api.themoviedb.org/3/tv/"@ + decimal(id as nat)
            + "?language=ru-RU&append_to_response=images&include_image_language=ru,en,null"@,
{
    let mut url = "https://api.themoviedb.org/3/tv/".to_owned();
    url.append(format_decimal(id).as_str());
    url.append("?language=ru-RU&append_to_response=images&include_image_language=ru,en,null");
    url
}

/// Where the episodes of a season are.
pub fn season_url(id: u64, season: u32) -> (r: String)
    ensures
        r@ == "https://api.themoviedb.org/3/tv/"@ + decimal(id as nat) + "/season/"@ + decimal(
            season as nat,
        ) + "?language=ru-RU"@,
{
    let mut url = "https://api.themoviedb.org/3/tv/".to_owned();
    url.append(format_decimal(id).as_str());
    url.append("/season/");
    url.append(format_decimal(season as u64).as_str());
    url.append("?language=ru-RU");
    url
}

/// Where the details of a person are.
pub fn person_url(id: u64) -> (r: String)
    ensures
        r@ == "https://api.themoviedb.org/3/person/"@ + decimal(id as nat)
            + "?language=ru-RU&append_to_response=combined_credits,external_ids"@,
{
    let mut url = "https://api.themoviedb.org/3/person/".to_owned();
    url.append(format_decimal(id).as_str());
    url.append("?language=ru-RU&append_to_response=combined_credits,external_ids");
    url
}

/// Where the details of a person are in English.
pub fn person_english_url(id: u64) -> (r: String)
    ensures
        r@ == "https://api.themoviedb.org/3/person/"@ + decimal(id as nat) + "?language=en-US"@,
{
    let mut url = "https://api.themoviedb.org/3/person/".to_owned();
    url.append(format_decimal(id).as_str());
    url.append("?language=en-US");
    url
}

/// Where the details of media are that are known by their TMDB id.
pub fn media_url(media_type: &str, id: u64) -> (r: String)
    ensures
        r@ == "https://api.themoviedb.org/3/"@ + media_type@ + "/"@ + decimal(id as nat)
            + "?language=ru-RU&append_to_response=external_ids"@,
{
    let mut url = "https://api.themoviedb.org/3/".to_owned();
    url.append(media_type);
    url.append("/");
    url.append(format_decimal(id).as_str());
    url.append("?language=ru-RU&append_to_response=external_ids");
    url
}

/// Where a poster is in a size.
pub fn image_url(size: &str, path: &str) -> (r: String)
    ensures
        r@ == "https://image.tmdb.org/t/p/"@ + size@ + path@,
{
    let mut url = "https://image.tmdb.org/t/p/".to_owned();
    url.append(size);
    url.append(path);
    url
}

/// A key of more than forty bytes is an access token and stands in the header; any other stands, as it
/// is, in the address.
pub proof fn law_long_keys_are_tokens(r: Authorization, api_key: Seq<char>)
    requires
        shows_key(r, api_key),
    ensures
        encode_utf8(api_key).len() > 40 ==> r is Header && r->Header_0@ == "Bearer "@ + api_key,
        encode_utf8(api_key).len() <= 40 ==> r is Parameter && r->Parameter_0@ == api_key,
{
}

/// There is a key exactly where there is more to it than whitespace.
pub proof fn law_keys_are_more_than_whitespace(
    before: Seq<char>,
    core: Seq<char>,
    behind: Seq<char>,
)
    requires
        forall|i: int| 0 <= i < before.len() ==> whitespace(#[trigger] before[i]),
        forall|i: int| 0 <= i < behind.len() ==> whitespace(#[trigger] behind[i]),
        core.len() > 0 ==> !whitespace(core[0]) && !whitespace(core.last()),
    ensures
        key_is_set(before + core + behind) == (core.len() > 0),
{
    law_whitespace_is_cut_off(before, core, behind);
}

/// A movie is asked for as a movie, and a series as a series.
pub proof fn law_media_are_named()
    ensures
        media_word(true) == "tv"@,
        media_word(false) == "movie"@,
        media_word(true) != media_word(false),
{
    reveal_strlit("tv");
    reveal_strlit("movie");
    assert("tv"@.len() == 2 && "movie"@.len() == 5);
}

/// Where the same stands before and behind them, different numbers make different addresses.
pub proof fn law_addresses_tell_ids_apart(start: Seq<char>, a: u64, b: u64, end: Seq<char>)
    ensures
        start + decimal(a as nat) + end == start + decimal(b as nat) + end ==> a == b,
{
    let x = start + decimal(a as nat) + end;
    let y = start + decimal(b as nat) + end;
    if x == y {
        let n = start.len() as int;
        assert(x.len() == n + decimal(a as nat).len() + end.len());
        assert(y.len() == n + decimal(b as nat).len() + end.len());
        assert(x.subrange(n, x.len() - end.len()) =~= decimal(a as nat));
        assert(y.subrange(n, y.len() - end.len()) =~= decimal(b as nat));
        law_decimal_is_injective(a as nat, b as nat);
    }
}

} // verus!
