//! The seasons and episodes of a series.
use crate::lists::{lemma_read_in_order, shows_in_order};
use crate::poster::model::{EpisodeMetadataItem, SeriesSeasonItem, SeriesSeasonsResponse};
use crate::ranking::{
    keys_ascend, law_sorted_by_key, lemma_sorted_is_from, sort_by_key, sorted_by_key, without_keys,
};
use crate::text::{is_text, text_opt};
use vstd::prelude::*;

verus! {

// ---------------------------------------------------------------------------
// The series
// ---------------------------------------------------------------------------

/// An image of a series.
#[derive(Debug, Clone)]
pub struct ImageItem {
    pub file_path: String,
    pub iso_639_1: Option<String>,
}

/// The images of a series.
#[derive(Debug, Clone)]
pub struct SeriesImages {
    pub logos: Vec<ImageItem>,
    pub backdrops: Vec<ImageItem>,
}

/// The details of a series, as TMDB gives them.
#[derive(Debug, Clone)]
pub struct TvDetails {
    pub id: u64,
    pub name: String,
    pub original_name: String,
    pub overview: Option<String>,
    pub first_air_date: Option<String>,
    pub vote_average: Option<u64>,
    pub backdrop_path: Option<String>,
    pub poster_path: Option<String>,
    pub number_of_seasons: u32,
    pub number_of_episodes: u32,
    pub genres: Vec<String>,
    pub networks: Vec<String>,
    pub status: Option<String>,
    pub seasons: Vec<SeriesSeasonItem>,
    pub images: Option<SeriesImages>,
}

/// Where the first of the images in a language is.
pub open spec fn first_image(items: Seq<ImageItem>, language: Seq<char>) -> Option<Seq<char>>
    decreases items.len(),
{
    if items.len() == 0 {
        None
    } else if text_opt(items[0].iso_639_1) == Some(language) {
        Some(items[0].file_path@)
    } else {
        first_image(items.skip(1), language)
    }
}

/// Where the logo is that is shown: the first Russian one, else the first English one, else
/// the first.
pub open spec fn series_logo(logos: Seq<ImageItem>) -> Option<Seq<char>> {
    match (first_image(logos, "ru"@), first_image(logos, "en"@)) {
        (Some(path), _) => Some(path),
        (None, Some(path)) => Some(path),
        (None, None) => if logos.len() > 0 {
            Some(logos[0].file_path@)
        } else {
            None
        },
    }
}

/// Where the backdrop is that is shown: the one of the series, else the first of its images.
pub open spec fn series_backdrop(
    known: Option<Seq<char>>,
    images: Option<SeriesImages>,
) -> Option<Seq<char>> {
    match (known, images) {
        (Some(path), _) => Some(path),
        (None, Some(block)) => if block.backdrops@.len() > 0 {
            Some(block.backdrops@[0].file_path@)
        } else {
            None
        },
        (None, None) => None,
    }
}

fn find_image(items: &Vec<ImageItem>, language: &str) -> (r: Option<String>)
    ensures
        text_opt(r) == first_image(items@, language@),
{
    proof {
        assert(items@.skip(0) =~= items@);
    }
    for i in 0..items.len()
        invariant
            first_image(items@, language@) == first_image(items@.skip(i as int), language@),
    {
        proof {
            assert(items@.skip(i as int)[0] == items@[i as int]);
            assert(items@.skip(i as int).skip(1) =~= items@.skip(i as int + 1));
        }
        let spoken = match &items[i].iso_639_1 {
            Some(s) => Some(s.as_str()),
            None => None,
        };
        if is_text(spoken, language) {
            return Some(items[i].file_path.clone());
        }
    }
    None
}

fn find_logo(logos: &Vec<ImageItem>) -> (r: Option<String>)
    ensures
        text_opt(r) == series_logo(logos@),
{
    match find_image(logos, "ru") {
        Some(path) => Some(path),
        None => match find_image(logos, "en") {
            Some(path) => Some(path),
            None => if logos.len() > 0 {
                Some(logos[0].file_path.clone())
            } else {
                None
            },
        },
    }
}

/// Whether a series is shown as its details are.
pub open spec fn is_series_of(
    shown: SeriesSeasonsResponse,
    tconst: Seq<char>,
    details: TvDetails,
) -> bool {
    &&& shown.tconst@ == tconst
    &&& shown.tmdb_id == details.id
    &&& shown.name == details.name
    &&& shown.original_name == details.original_name
    &&& shown.overview == details.overview
    &&& shown.premiered == details.first_air_date
    &&& shown.rating == details.vote_average
    &&& shown.genres == details.genres
    &&& text_opt(shown.studio) == (if details.networks@.len() > 0 {
        Some(details.networks@[0]@)
    } else {
        None
    })
    &&& shown.status == details.status
    &&& shown.poster_path == details.poster_path
    &&& text_opt(shown.backdrop_path) == series_backdrop(
        text_opt(details.backdrop_path),
        details.images,
    )
    &&& text_opt(shown.logo_path) == (match details.images {
        Some(block) => series_logo(block.logos@),
        None => None,
    })
    &&& shown.number_of_seasons == details.number_of_seasons
    &&& shown.number_of_episodes == details.number_of_episodes
    &&& shown.seasons == details.seasons
}

/// The series as it is shown.
pub fn series_seasons(tconst: &str, details: TvDetails) -> (r: SeriesSeasonsResponse)
    ensures
        is_series_of(r, tconst@, details),
{
    let (logo_path, first_backdrop) = match &details.images {
        Some(block) => {
            let backdrop = if block.backdrops.len() > 0 {
                Some(block.backdrops[0].file_path.clone())
            } else {
                None
            };
            (find_logo(&block.logos), backdrop)
        },
        None => (None, None),
    };
    let backdrop_path = match details.backdrop_path {
        Some(path) => Some(path),
        None => first_backdrop,
    };
    let studio = if details.networks.len() > 0 {
        Some(details.networks[0].clone())
    } else {
        None
    };
    SeriesSeasonsResponse {
        tconst: tconst.to_owned(),
        tmdb_id: details.id,
        name: details.name,
        original_name: details.original_name,
        overview: details.overview,
        premiered: details.first_air_date,
        rating: details.vote_average,
        genres: details.genres,
        studio,
        status: details.status,
        poster_path: details.poster_path,
        backdrop_path,
        logo_path,
        number_of_seasons: details.number_of_seasons,
        number_of_episodes: details.number_of_episodes,
        seasons: details.seasons,
    }
}

// ---------------------------------------------------------------------------
// The episodes
// ---------------------------------------------------------------------------

/// How the number of a season is read: specials, which are season 0, are left out.
pub open spec fn season_reader() -> spec_fn(SeriesSeasonItem) -> Option<u32> {
    |s: SeriesSeasonItem|
        if s.season_number > 0 {
            Some(s.season_number)
        } else {
            None
        }
}

/// The numbers of the seasons whose episodes are asked for.
pub fn numbered_seasons(seasons: &Vec<SeriesSeasonItem>) -> (r: Vec<u32>)
    ensures
        r@ == seasons@.filter_map(season_reader()),
{
    let mut out: Vec<u32> = Vec::new();
    for i in 0..seasons.len()
        invariant
            out@ =~= seasons@.take(i as int).filter_map(season_reader()),
    {
        proof {
            seasons@.lemma_filter_map_take_succ(season_reader(), i as int);
        }
        let number: u32 = seasons[i].season_number;
        if number > 0 {
            out.push(number);
        }
    }
    proof {
        assert(seasons@.take(seasons@.len() as int) =~= seasons@);
    }
    out
}

/// The key of an episode: seasons come one after the other, and so do the episodes of each.
pub open spec fn episode_key(episode: EpisodeMetadataItem) -> u64 {
    (episode.season_number * 0x1_0000_0000 + episode.episode_number) as u64
}

/// The episodes of a season with their keys.
pub open spec fn keyed_episodes(episodes: Seq<EpisodeMetadataItem>) -> Seq<
    (u64, EpisodeMetadataItem),
> {
    Seq::new(episodes.len(), |i: int| (episode_key(episodes[i]), episodes[i]))
}

/// The episodes of all seasons with their keys, season by season.
pub open spec fn gathered_episodes(seasons: Seq<Vec<EpisodeMetadataItem>>) -> Seq<
    (u64, EpisodeMetadataItem),
>
    decreases seasons.len(),
{
    if seasons.len() == 0 {
        Seq::empty()
    } else {
        gathered_episodes(seasons.drop_last()) + keyed_episodes(seasons.last()@)
    }
}

/// The episodes of all seasons, in order.
pub open spec fn ordered_episodes(seasons: Seq<Vec<EpisodeMetadataItem>>) -> Seq<
    EpisodeMetadataItem,
> {
    without_keys(sorted_by_key(gathered_episodes(seasons)))
}

/// The episodes of all seasons, in the order of season and episode.
pub fn series_episodes(seasons: Vec<Vec<EpisodeMetadataItem>>) -> (r: Vec<EpisodeMetadataItem>)
    ensures
        r@ == ordered_episodes(seasons@),
{
    let ghost all = seasons@;
    let mut keyed: Vec<(u64, EpisodeMetadataItem)> = Vec::new();
    for episodes in it: seasons
        invariant
            it.seq() == all,
            keyed@ == gathered_episodes(all.take(it.index() as int)),
    {
        let ghost before = keyed@;
        let ghost held = episodes@;
        for episode in inner: episodes
            invariant
                inner.seq() == held,
                keyed@ =~= before + keyed_episodes(held).take(inner.index() as int),
        {
            let key: u64 = (episode.season_number as u64) * 0x1_0000_0000
                + episode.episode_number as u64;
            keyed.push((key, episode));
        }
        proof {
            let next = all.take(it.index() as int + 1);
            assert(next.drop_last() =~= all.take(it.index() as int));
            assert(keyed_episodes(held).take(held.len() as int) =~= keyed_episodes(held));
        }
    }
    proof {
        assert(all.take(all.len() as int) =~= all);
    }
    let sorted = sort_by_key(keyed);
    let ghost ordered = sorted@;
    let mut out: Vec<EpisodeMetadataItem> = Vec::new();
    for item in it: sorted
        invariant
            it.seq() == ordered,
            out@ =~= without_keys(ordered).take(it.index() as int),
    {
        out.push(item.1);
    }
    out
}

proof fn lemma_gathered_keys(seasons: Seq<Vec<EpisodeMetadataItem>>, i: int)
    requires
        0 <= i < gathered_episodes(seasons).len(),
    ensures
        gathered_episodes(seasons)[i].0 == episode_key(gathered_episodes(seasons)[i].1),
    decreases seasons.len(),
{
    if seasons.len() > 0 {
        let before = gathered_episodes(seasons.drop_last());
        if i < before.len() {
            lemma_gathered_keys(seasons.drop_last(), i);
        }
    }
}

/// The episodes of a series stand in the order of their seasons and numbers, and none is lost
/// or added.
pub proof fn law_episodes_are_ordered(seasons: Seq<Vec<EpisodeMetadataItem>>, i: int, j: int)
    requires
        0 <= i <= j < ordered_episodes(seasons).len(),
    ensures
        ({
            let a = ordered_episodes(seasons)[i];
            let b = ordered_episodes(seasons)[j];
            a.season_number < b.season_number || (a.season_number == b.season_number
                && a.episode_number <= b.episode_number)
        }),
        ordered_episodes(seasons).len() == gathered_episodes(seasons).len(),
        sorted_by_key(gathered_episodes(seasons)).to_multiset() == gathered_episodes(
            seasons,
        ).to_multiset(),
{
    let found = gathered_episodes(seasons);
    let sorted = sorted_by_key(found);
    law_sorted_by_key(found);
    assert(keys_ascend(sorted));
    assert forall|k: int| 0 <= k < sorted.len() implies (#[trigger] sorted[k]).0 == episode_key(
        sorted[k].1,
    ) by {
        broadcast use vstd::seq_lib::group_to_multiset_ensures;

        assert(sorted.contains(sorted[k]));
        assert(sorted.to_multiset().count(sorted[k]) > 0);
        assert(found.contains(sorted[k]));
        let m = choose|m: int| 0 <= m < found.len() && found[m] == sorted[k];
        lemma_gathered_keys(seasons, m);
    }
    assert(sorted[i].0 <= sorted[j].0);
}

proof fn lemma_first_image(items: Seq<ImageItem>, language: Seq<char>, i: int)
    requires
        0 <= i <= items.len(),
        forall|k: int|
            0 <= k < i ==> text_opt((#[trigger] items[k]).iso_639_1) != Some(language),
        i < items.len() ==> text_opt(items[i].iso_639_1) == Some(language),
    ensures
        first_image(items, language) == (if i < items.len() {
            Some(items[i].file_path@)
        } else {
            None
        }),
    decreases items.len(),
{
    if i > 0 {
        let rest = items.skip(1);
        assert(text_opt(items[0].iso_639_1) != Some(language));
        assert forall|k: int| 0 <= k < i - 1 implies text_opt((#[trigger] rest[k]).iso_639_1)
            != Some(language) by {
            assert(rest[k] == items[k + 1]);
        }
        lemma_first_image(rest, language, i - 1);
    }
}

/// The first logo in Russian is shown; where there is none, the first in English; where there is none
/// either, the first. Without images there is no logo.
pub proof fn law_russian_logos_of_series_come_first(
    shown: SeriesSeasonsResponse,
    tconst: Seq<char>,
    details: TvDetails,
    i: int,
)
    requires
        is_series_of(shown, tconst, details),
    ensures
        details.images is None ==> shown.logo_path is None,
        details.images is Some && details.images.unwrap().logos@.len() == 0
            ==> shown.logo_path is None,
        details.images is Some && 0 <= i < details.images.unwrap().logos@.len() ==> {
            let logos = details.images.unwrap().logos@;
            &&& text_opt(logos[i].iso_639_1) == Some("ru"@) && (forall|k: int|
                0 <= k < i ==> text_opt((#[trigger] logos[k]).iso_639_1) != Some("ru"@))
                ==> text_opt(shown.logo_path) == Some(logos[i].file_path@)
            &&& text_opt(logos[i].iso_639_1) == Some("en"@) && (forall|k: int|
                0 <= k < i ==> text_opt((#[trigger] logos[k]).iso_639_1) != Some("en"@)) && (forall|
                k: int,
            |
                0 <= k < logos.len() ==> text_opt((#[trigger] logos[k]).iso_639_1) != Some("ru"@))
                ==> text_opt(shown.logo_path) == Some(logos[i].file_path@)
            &&& (forall|k: int|
                0 <= k < logos.len() ==> text_opt((#[trigger] logos[k]).iso_639_1) != Some("ru"@)
                    && text_opt(logos[k].iso_639_1) != Some("en"@)) ==> text_opt(shown.logo_path)
                == Some(logos[0].file_path@)
        },
{
    if details.images is Some && 0 <= i < details.images.unwrap().logos@.len() {
        let logos = details.images.unwrap().logos@;
        if text_opt(logos[i].iso_639_1) == Some("ru"@) && (forall|k: int|
            0 <= k < i ==> text_opt((#[trigger] logos[k]).iso_639_1) != Some("ru"@)) {
            lemma_first_image(logos, "ru"@, i);
        }
        if forall|k: int|
            0 <= k < logos.len() ==> text_opt((#[trigger] logos[k]).iso_639_1) != Some("ru"@) {
            lemma_first_image(logos, "ru"@, logos.len() as int);
            if text_opt(logos[i].iso_639_1) == Some("en"@) && (forall|k: int|
                0 <= k < i ==> text_opt((#[trigger] logos[k]).iso_639_1) != Some("en"@)) {
                lemma_first_image(logos, "en"@, i);
            }
            if forall|k: int|
                0 <= k < logos.len() ==> text_opt((#[trigger] logos[k]).iso_639_1) != Some("en"@) {
                lemma_first_image(logos, "en"@, logos.len() as int);
            }
        }
    }
}

/// A series is shown as its details say. Its studio is the first of its networks, and its backdrop
/// the one of the series or else the first of its images.
pub proof fn law_series_are_described(
    shown: SeriesSeasonsResponse,
    tconst: Seq<char>,
    details: TvDetails,
)
    requires
        is_series_of(shown, tconst, details),
    ensures
        shown.tconst@ == tconst,
        shown.tmdb_id == details.id,
        shown.name@ == details.name@,
        shown.original_name@ == details.original_name@,
        shown.overview == details.overview,
        shown.premiered == details.first_air_date,
        shown.rating == details.vote_average,
        shown.genres@ == details.genres@,
        shown.status == details.status,
        shown.poster_path == details.poster_path,
        shown.number_of_seasons == details.number_of_seasons,
        shown.number_of_episodes == details.number_of_episodes,
        shown.seasons@ == details.seasons@,
        details.networks@.len() > 0 ==> shown.studio is Some && shown.studio.unwrap()@
            == details.networks@[0]@,
        details.networks@.len() == 0 ==> shown.studio is None,
        details.backdrop_path is Some ==> shown.backdrop_path is Some
            && shown.backdrop_path.unwrap()@ == details.backdrop_path.unwrap()@,
        details.backdrop_path is None && details.images is Some
            && details.images.unwrap().backdrops@.len() > 0 ==> shown.backdrop_path is Some
            && shown.backdrop_path.unwrap()@ == details.images.unwrap().backdrops@[0].file_path@,
        details.backdrop_path is None && (details.images is None
            || details.images.unwrap().backdrops@.len() == 0) ==> shown.backdrop_path is None,
{
}

/// The episodes of all seasons but the specials are asked for, in the order of the details.
pub proof fn law_specials_are_left_out(seasons: Seq<SeriesSeasonItem>)
    ensures
        shows_in_order(
            seasons,
            seasons.filter_map(season_reader()),
            |s: SeriesSeasonItem| s.season_number != 0,
            |n: u32, s: SeriesSeasonItem| n == s.season_number,
        ),
{
    lemma_read_in_order(
        seasons,
        season_reader(),
        |s: SeriesSeasonItem| s.season_number != 0,
        |n: u32, s: SeriesSeasonItem| n == s.season_number,
    );
}

proof fn lemma_gathered(seasons: Seq<Vec<EpisodeMetadataItem>>, a: int, b: int)
    requires
        0 <= a < seasons.len(),
        0 <= b < seasons[a]@.len(),
    ensures
        gathered_episodes(seasons).contains((episode_key(seasons[a]@[b]), seasons[a]@[b])),
    decreases seasons.len(),
{
    let before = gathered_episodes(seasons.drop_last());
    let whole = gathered_episodes(seasons);
    let wanted = (episode_key(seasons[a]@[b]), seasons[a]@[b]);
    if a < seasons.len() - 1 {
        lemma_gathered(seasons.drop_last(), a, b);
        let k = choose|k: int| 0 <= k < before.len() && before[k] == wanted;
        assert(whole[k] == wanted);
    } else {
        assert(whole[before.len() + b] == wanted);
    }
}

proof fn lemma_gathered_from(seasons: Seq<Vec<EpisodeMetadataItem>>, i: int)
    requires
        0 <= i < gathered_episodes(seasons).len(),
    ensures
        exists|a: int, b: int|
            0 <= a < seasons.len() && 0 <= b < seasons[a]@.len() && gathered_episodes(seasons)[i].1
                == #[trigger] seasons[a]@[b],
    decreases seasons.len(),
{
    if seasons.len() > 0 {
        let rest = seasons.drop_last();
        let before = gathered_episodes(rest);
        let whole = gathered_episodes(seasons);
        if i < before.len() {
            lemma_gathered_from(rest, i);
            let (a, b) = choose|a: int, b: int|
                0 <= a < rest.len() && 0 <= b < rest[a]@.len() && before[i].1
                    == #[trigger] rest[a]@[b];
            assert(whole[i].1 == seasons[a]@[b]);
        } else {
            assert(whole[i].1 == seasons[seasons.len() - 1]@[i - before.len()]);
        }
    }
}

/// Every episode of every season is shown, and no other.
pub proof fn law_every_episode_is_shown(
    seasons: Seq<Vec<EpisodeMetadataItem>>,
    a: int,
    b: int,
    i: int,
)
    ensures
        0 <= a < seasons.len() && 0 <= b < seasons[a]@.len() ==> ordered_episodes(
            seasons,
        ).contains(seasons[a]@[b]),
        0 <= i < ordered_episodes(seasons).len() ==> exists|c: int, d: int|
            0 <= c < seasons.len() && 0 <= d < seasons[c]@.len() && ordered_episodes(seasons)[i]
                == #[trigger] seasons[c]@[d],
{
    let found = gathered_episodes(seasons);
    let ordered = ordered_episodes(seasons);
    law_sorted_by_key(found);
    if 0 <= a < seasons.len() && 0 <= b < seasons[a]@.len() {
        broadcast use vstd::seq_lib::group_to_multiset_ensures;

        lemma_gathered(seasons, a, b);
        let wanted = (episode_key(seasons[a]@[b]), seasons[a]@[b]);
        let sorted = sorted_by_key(found);
        assert(sorted.to_multiset().count(wanted) > 0);
        assert(sorted.contains(wanted));
        let k = choose|k: int| 0 <= k < sorted.len() && sorted[k] == wanted;
        assert(ordered[k] == seasons[a]@[b]);
    }
    if 0 <= i < ordered.len() {
        lemma_sorted_is_from(found, i);
        let m = choose|m: int| 0 <= m < found.len() && found[m] == sorted_by_key(found)[i];
        lemma_gathered_from(seasons, m);
    }
}

} // verus!
