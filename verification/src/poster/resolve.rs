//! The document of media that are known by their TMDB id.
use crate::index::document::{MovieDoc, MovieView};
use crate::json::{or_none, trees, Json, JsonTree};
use crate::poster::fields::{
    either_text, low_part, names, or_empty, owned_either, read_low_part, read_names, read_year,
    year_of,
};
use crate::poster::person::{read_text_at, text_at};
use crate::text::{
    decimal, format_decimal, law_decimal_is_injective, low_32, same, texts,
};
use vstd::prelude::*;

verus! {

/// The id of media: the IMDb one, or one made of the TMDB id where there is none.
pub open spec fn resolved_tconst(details: JsonTree, tmdb_id: u64) -> Seq<char> {
    let imdb_id = or_empty(text_at(details, "external_ids"@, "imdb_id"@));
    if imdb_id.len() == 0 {
        "tmdb-"@ + decimal(tmdb_id as nat)
    } else {
        imdb_id
    }
}

/// The document of media that are known by their TMDB id.
pub open spec fn resolved_doc(media_type: Seq<char>, tmdb_id: u64, details: JsonTree) -> MovieView {
    let title = or_empty(either_text(details, "title"@, "name"@));
    let original = or_empty(either_text(details, "original_title"@, "original_name"@));
    MovieView {
        tconst: resolved_tconst(details, tmdb_id),
        title_ru: if title.len() == 0 {
            None
        } else {
            Some(title)
        },
        title_orig: original,
        title_primary: if title.len() == 0 {
            original
        } else {
            title
        },
        russian_titles: if title.len() == 0 {
            Seq::empty()
        } else {
            seq![title]
        },
        year: year_of(either_text(details, "release_date"@, "first_air_date"@)),
        title_type: if media_type == "tv"@ {
            "tvSeries"@
        } else {
            "movie"@
        },
        rating: details.number_key("vote_average"@),
        num_votes: low_part(Some(details.uint("vote_count"@).unwrap_or(0))).unwrap(),
        genres: names(or_none(details.list("genres"@))),
        runtime_minutes: low_part(details.uint("runtime"@)),
    }
}

/// The document of media that are known by their TMDB id.
pub fn resolve_media(media_type: &str, tmdb_id: u64, details: &Json) -> (r: MovieDoc)
    ensures
        r@ == resolved_doc(media_type@, tmdb_id, details@),
{
    let none: Vec<Json> = Vec::new();
    proof {
        assert(trees(none@) =~= Seq::<JsonTree>::empty());
    }
    let imdb_id = match read_text_at(details, "external_ids", "imdb_id") {
        Some(s) => s,
        None => String::new(),
    };
    let tconst = if imdb_id.as_str().is_empty() {
        let mut made = "tmdb-".to_owned();
        made.append(format_decimal(tmdb_id).as_str());
        made
    } else {
        imdb_id
    };
    let title = match owned_either(details, "title", "name") {
        Some(s) => s,
        None => String::new(),
    };
    let title_orig = match owned_either(details, "original_title", "original_name") {
        Some(s) => s,
        None => String::new(),
    };
    let date = owned_either(details, "release_date", "first_air_date");
    let votes: u64 = details.uint("vote_count").unwrap_or(0);
    let genres = match details.list("genres") {
        Some(items) => read_names(items),
        None => read_names(&none),
    };
    let title_type = if same(media_type, "tv") {
        "tvSeries".to_owned()
    } else {
        "movie".to_owned()
    };
    let mut russian_titles: Vec<String> = Vec::new();
    let (title_ru, title_primary) = if title.as_str().is_empty() {
        (None, title_orig.clone())
    } else {
        russian_titles.push(title.clone());
        (Some(title.clone()), title)
    };
    let doc = MovieDoc {
        tconst,
        title_ru,
        title_orig,
        title_primary,
        russian_titles,
        year: read_year(&date),
        title_type,
        rating: details.number_key("vote_average"),
        num_votes: low_32(votes),
        genres,
        runtime_minutes: read_low_part(details.uint("runtime")),
    };
    proof {
        assert(texts(doc.russian_titles@) =~= resolved_doc(
            media_type@,
            tmdb_id,
            details@,
        ).russian_titles);
    }
    doc
}

/// Media are known by their IMDb id where they have one, and otherwise by an id made of the TMDB id:
/// then media of different TMDB ids have different ids.
pub proof fn law_media_have_an_id(details: JsonTree, ids: JsonTree, tmdb_id: u64, other: u64)
    ensures
        details.get("external_ids"@) == Some(ids) && ids.text("imdb_id"@) is Some && ids.text(
            "imdb_id"@,
        ).unwrap().len() > 0 ==> resolved_tconst(details, tmdb_id) == ids.text("imdb_id"@).unwrap(),
        details.get("external_ids"@) is None || details.get("external_ids"@) == Some(ids) && (
        ids.text("imdb_id"@) is None || ids.text("imdb_id"@) == Some(Seq::<char>::empty())) ==> {
            &&& resolved_tconst(details, tmdb_id) == "tmdb-"@ + decimal(tmdb_id as nat)
            &&& resolved_tconst(details, tmdb_id) == resolved_tconst(details, other) ==> tmdb_id
                == other
        },
{
    let a = "tmdb-"@ + decimal(tmdb_id as nat);
    let b = "tmdb-"@ + decimal(other as nat);
    if a == b {
        let n = "tmdb-"@.len() as int;
        assert(a.skip(n) =~= decimal(tmdb_id as nat));
        assert(b.skip(n) =~= decimal(other as nat));
        law_decimal_is_injective(tmdb_id as nat, other as nat);
    }
}

/// The title in the details is the Russian one, and the primary one; without one the original title
/// is the primary one. A series is a series, everything else a movie.
pub proof fn law_media_are_described(media_type: Seq<char>, tmdb_id: u64, details: JsonTree)
    ensures
        ({
            let doc = resolved_doc(media_type, tmdb_id, details);
            let title = either_text(details, "title"@, "name"@);
            let original = either_text(details, "original_title"@, "original_name"@);
            let date = either_text(details, "release_date"@, "first_air_date"@);
            &&& doc.tconst == resolved_tconst(details, tmdb_id)
            &&& title is Some && title.unwrap().len() > 0 ==> doc.title_ru == title
                && doc.title_primary == title.unwrap() && doc.russian_titles == seq![title.unwrap()]
            &&& title is None || title.unwrap().len() == 0 ==> doc.title_ru is None
                && doc.title_primary == doc.title_orig && doc.russian_titles.len() == 0
            &&& original is Some ==> doc.title_orig == original.unwrap()
            &&& original is None ==> doc.title_orig.len() == 0
            &&& doc.year == year_of(date)
            &&& media_type == "tv"@ <==> doc.title_type == "tvSeries"@
            &&& media_type != "tv"@ <==> doc.title_type == "movie"@
            &&& doc.rating == details.number_key("vote_average"@)
            &&& details.uint("vote_count"@) is None ==> doc.num_votes == 0
            &&& details.uint("vote_count"@) is Some && details.uint("vote_count"@).unwrap()
                <= u32::MAX ==> doc.num_votes == details.uint("vote_count"@).unwrap()
            &&& details.list("genres"@) is Some ==> doc.genres == names(
                details.list("genres"@).unwrap(),
            )
            &&& details.uint("runtime"@) is None ==> doc.runtime_minutes is None
            &&& details.uint("runtime"@) is Some && details.uint("runtime"@).unwrap() <= u32::MAX
                ==> doc.runtime_minutes == Some(details.uint("runtime"@).unwrap() as u32)
        }),
{
    reveal_strlit("tvSeries");
    reveal_strlit("movie");
    assert("tvSeries"@.len() == 8 && "movie"@.len() == 5);
}

} // verus!
