//! The metadata of a movie or a series, from the details that TMDB gives of it.
use crate::json::{list_at, or_none, tree_opt, trees, Json, JsonTree};
use crate::lists::{
    lemma_filter_map_keeps, lemma_filter_map_len, lemma_read_in_order, lemma_views_push,
    shows_in_order, views,
};
use crate::poster::crew::{crew_of, extract_crew};
use crate::poster::fields::{
    either_text, is_either, logo_path, low_part, names, or_empty, owned_either, owned_or_empty,
    read_logo_path, read_low_part, read_names, read_real_text, read_real_text_or, read_year,
    real_text, real_text_or, year_of,
};
use crate::poster::model::{
    CastMember, CastView, MovieMetadataResponse, MovieMetadataView, VideoItem, VideoView,
};
use crate::ranking::{
    at_most, descending, has_up_to, keyed_views, law_the_first_are_taken,
    law_those_taken_are_in_order, lemma_sorted_views, ranked, take_ranked,
};
use crate::text::{eq_ignore_ascii_case, own_opt, same, same_ignoring_ascii_case};
use vstd::prelude::*;

verus! {

/// How many of the cast are looked at.
pub const CAST_LIMIT: usize = 15;

/// How many videos are shown.
pub const VIDEO_LIMIT: usize = 6;

// ---------------------------------------------------------------------------
// The cast
// ---------------------------------------------------------------------------

/// How one of the cast is read: only somebody with a name is.
pub open spec fn cast_reader() -> spec_fn(JsonTree) -> Option<CastView> {
    |t: JsonTree|
        match t.text("name"@) {
            Some(name) => Some(
                CastView {
                    id: t.uint("id"@).unwrap_or(0),
                    name,
                    character: t.text("character"@),
                    profile_path: t.text("profile_path"@),
                    order: low_part(t.uint("order"@)),
                },
            ),
            None => None,
        }
}

/// Those with a name among the first of the cast.
pub open spec fn cast_of(details: JsonTree) -> Seq<CastView> {
    at_most(or_none(list_at(details, "credits"@, "cast"@)), CAST_LIMIT as nat).filter_map(
        cast_reader(),
    )
}

fn extract_cast(items: &Vec<Json>) -> (r: Vec<CastMember>)
    ensures
        views(r@) == at_most(trees(items@), CAST_LIMIT as nat).filter_map(cast_reader()),
{
    let ghost all = trees(items@);
    let n: usize = if items.len() < CAST_LIMIT {
        items.len()
    } else {
        CAST_LIMIT
    };
    let mut out: Vec<CastMember> = Vec::new();
    for i in 0..n
        invariant
            all == trees(items@),
            n <= items@.len(),
            views(out@) =~= all.take(i as int).filter_map(cast_reader()),
    {
        let item = &items[i];
        proof {
            all.lemma_filter_map_take_succ(cast_reader(), i as int);
            assert(all[i as int] == item@);
        }
        match item.text("name") {
            Some(name) => {
                let id: u64 = item.uint("id").unwrap_or(0);
                let member = CastMember {
                    id,
                    name: name.to_owned(),
                    character: own_opt(item.text("character")),
                    profile_path: own_opt(item.text("profile_path")),
                    order: read_low_part(item.uint("order")),
                };
                proof {
                    lemma_views_push(out@, member);
                    assert(cast_reader()(item@) == Some(member@));
                }
                out.push(member);
            },
            None => {},
        }
    }
    proof {
        assert(at_most(all, CAST_LIMIT as nat) =~= all.take(n as int));
    }
    out
}

// ---------------------------------------------------------------------------
// The videos
// ---------------------------------------------------------------------------

/// Whether a video is on YouTube and can be found there.
pub open spec fn is_shown_video(t: JsonTree) -> bool {
    same_ignoring_ascii_case(or_empty(t.text("site"@)), "YouTube"@) && or_empty(
        t.text("key"@),
    ).len() > 0
}

/// What a video is called that does not say what it is.
pub open spec fn video_type(t: JsonTree) -> Seq<char> {
    match t.text("type"@) {
        Some(s) => s,
        None => "Trailer"@,
    }
}

/// Whether a video is official.
pub open spec fn is_official(t: JsonTree) -> bool {
    t.get("official"@) == Some(JsonTree::Bool(true))
}

/// The weight of a video: Russian before others, then trailers, then official ones.
pub open spec fn video_weight(t: JsonTree) -> u64 {
    ((if t.text("iso_639_1"@) == Some("ru"@) {
        4int
    } else {
        0
    }) + (if video_type(t) == "Trailer"@ {
        2int
    } else {
        0
    }) + (if is_official(t) {
        1int
    } else {
        0
    })) as u64
}

/// A video as it is shown.
pub open spec fn video_view(t: JsonTree) -> VideoView {
    VideoView {
        id: or_empty(t.text("id"@)),
        name: or_empty(t.text("name"@)),
        key: or_empty(t.text("key"@)),
        site: or_empty(t.text("site"@)),
        video_type: video_type(t),
        official: is_official(t),
        published_at: t.text("published_at"@),
    }
}

/// How a video is read, with the key by which it is ranked.
pub open spec fn video_reader() -> spec_fn(JsonTree) -> Option<(u64, VideoView)> {
    |t: JsonTree|
        if is_shown_video(t) {
            Some((descending(video_weight(t)), video_view(t)))
        } else {
            None
        }
}

/// The videos that are shown, the weightiest first.
pub open spec fn videos_of(details: JsonTree) -> Seq<VideoView> {
    ranked(
        or_none(list_at(details, "videos"@, "results"@)).filter_map(video_reader()),
        VIDEO_LIMIT as nat,
    )
}

fn read_video(item: &Json) -> (r: Option<(u64, VideoItem)>)
    ensures
        match r {
            Some(p) => video_reader()(item@) == Some((p.0, p.1@)),
            None => video_reader()(item@) is None,
        },
{
    let site = owned_or_empty(item.text("site"));
    let key = owned_or_empty(item.text("key"));
    if !eq_ignore_ascii_case(site.as_str(), "YouTube") || key.as_str().is_empty() {
        return None;
    }
    let kind = match item.text("type") {
        Some(s) => s.to_owned(),
        None => "Trailer".to_owned(),
    };
    let official = item.is_true("official");
    let mut weight: u64 = 0;
    match item.text("iso_639_1") {
        Some(language) => {
            if same(language, "ru") {
                weight = weight + 4;
            }
        },
        None => {},
    }
    if same(kind.as_str(), "Trailer") {
        weight = weight + 2;
    }
    if official {
        weight = weight + 1;
    }
    let video = VideoItem {
        id: owned_or_empty(item.text("id")),
        name: owned_or_empty(item.text("name")),
        key,
        site,
        video_type: kind,
        official,
        published_at: own_opt(item.text("published_at")),
    };
    Some((u64::MAX - weight, video))
}

fn extract_videos(items: &Vec<Json>) -> (r: Vec<VideoItem>)
    ensures
        views(r@) == ranked(trees(items@).filter_map(video_reader()), VIDEO_LIMIT as nat),
{
    let ghost all = trees(items@);
    let mut out: Vec<(u64, VideoItem)> = Vec::new();
    for i in 0..items.len()
        invariant
            all == trees(items@),
            keyed_views(out@) =~= all.take(i as int).filter_map(video_reader()),
    {
        proof {
            all.lemma_filter_map_take_succ(video_reader(), i as int);
            assert(all[i as int] == items@[i as int]@);
        }
        match read_video(&items[i]) {
            Some(video) => {
                proof {
                    assert(keyed_views(out@.push(video)) =~= keyed_views(out@).push(
                        (video.0, video.1@),
                    ));
                }
                out.push(video);
            },
            None => {},
        }
    }
    proof {
        assert(all.take(all.len() as int) =~= all);
        lemma_sorted_views(out@);
        assert(views(ranked(out@, VIDEO_LIMIT as nat)) =~= ranked(
            keyed_views(out@),
            VIDEO_LIMIT as nat,
        ));
    }
    take_ranked(out, VIDEO_LIMIT)
}

// ---------------------------------------------------------------------------
// The whole
// ---------------------------------------------------------------------------

/// Whether the details have no overview, so that the English one is to be asked for.
pub fn needs_english_overview(details: &Json) -> (r: bool)
    ensures
        r == (real_text(details@, "overview"@) is None),
        forall|tconst: Seq<char>, id: u64, is_tv: bool|
            r == ((#[trigger] movie_metadata_of(tconst, id, is_tv, details@, None)).overview is None),
{
    read_real_text(details, "overview").is_none()
}

/// The metadata of a movie or a series.
///
/// `english` is the document in English, if there is one: its overview stands in for a
/// missing one.
pub open spec fn movie_metadata_of(
    tconst: Seq<char>,
    media_id: u64,
    is_tv: bool,
    details: JsonTree,
    english: Option<JsonTree>,
) -> MovieMetadataView {
    let premiered = either_text(details, "release_date"@, "first_air_date"@);
    MovieMetadataView {
        tconst,
        tmdb_id: media_id,
        title: or_empty(either_text(details, "title"@, "name"@)),
        original_title: or_empty(either_text(details, "original_title"@, "original_name"@)),
        overview: real_text_or(details, english, "overview"@),
        premiered,
        year: year_of(premiered),
        rating: details.number_key("vote_average"@),
        genres: names(or_none(details.list("genres"@))),
        poster_path: details.text("poster_path"@),
        backdrop_path: details.text("backdrop_path"@),
        logo_path: logo_path(or_none(list_at(details, "images"@, "logos"@))),
        cast: cast_of(details),
        crew: crew_of(is_tv, details),
        videos: videos_of(details),
    }
}

/// The metadata of a movie or a series.
pub fn movie_metadata(
    tconst: &str,
    media_id: u64,
    is_tv: bool,
    details: &Json,
    english: Option<&Json>,
) -> (r: MovieMetadataResponse)
    ensures
        r@ == movie_metadata_of(tconst@, media_id, is_tv, details@, tree_opt(english)),
{
    let none: Vec<Json> = Vec::new();
    proof {
        assert(trees(none@) =~= Seq::<JsonTree>::empty());
    }
    let premiered = owned_either(details, "release_date", "first_air_date");
    let year = read_year(&premiered);
    let genres = match details.list("genres") {
        Some(items) => read_names(items),
        None => read_names(&none),
    };
    let logo_path = match details.list_at("images", "logos") {
        Some(items) => read_logo_path(items),
        None => read_logo_path(&none),
    };
    let cast = match details.list_at("credits", "cast") {
        Some(items) => extract_cast(items),
        None => extract_cast(&none),
    };
    let videos = match details.list_at("videos", "results") {
        Some(items) => extract_videos(items),
        None => extract_videos(&none),
    };
    let title = match owned_either(details, "title", "name") {
        Some(s) => s,
        None => String::new(),
    };
    let original_title = match owned_either(details, "original_title", "original_name") {
        Some(s) => s,
        None => String::new(),
    };
    MovieMetadataResponse {
        tconst: tconst.to_owned(),
        tmdb_id: media_id,
        title,
        original_title,
        overview: read_real_text_or(details, english, "overview"),
        premiered,
        year,
        rating: details.number_key("vote_average"),
        genres,
        poster_path: own_opt(details.text("poster_path")),
        backdrop_path: own_opt(details.text("backdrop_path")),
        logo_path,
        cast,
        crew: extract_crew(is_tv, details),
        videos,
    }
}

/// No more of the cast and of the videos are shown than are wanted.
pub proof fn law_cast_and_videos_are_few(details: JsonTree)
    ensures
        cast_of(details).len() <= CAST_LIMIT,
        videos_of(details).len() <= VIDEO_LIMIT,
{
    lemma_filter_map_len(
        at_most(or_none(list_at(details, "credits"@, "cast"@)), CAST_LIMIT as nat),
        cast_reader(),
    );
}

/// Whether one of the cast is shown as the credits say.
pub open spec fn is_cast(member: CastView, t: JsonTree) -> bool {
    &&& t.text("name"@) == Some(member.name)
    &&& t.uint("id"@) == Some(member.id) || t.uint("id"@) is None && member.id == 0
    &&& member.character == t.text("character"@)
    &&& member.profile_path == t.text("profile_path"@)
    &&& t.uint("order"@) is None ==> member.order is None
    &&& t.uint("order"@) is Some && t.uint("order"@).unwrap() <= u32::MAX ==> member.order == Some(
        t.uint("order"@).unwrap() as u32,
    )
}

/// Of the first fifteen of the cast everybody with a name is shown, in the order of the credits, and
/// nobody else.
pub proof fn law_the_first_of_the_cast_are_shown(details: JsonTree)
    ensures
        ({
            let all = or_none(list_at(details, "credits"@, "cast"@));
            let first = if all.len() < 15 {
                all
            } else {
                all.take(15)
            };
            shows_in_order(
                first,
                cast_of(details),
                |t: JsonTree| t.text("name"@) is Some,
                |member: CastView, t: JsonTree| is_cast(member, t),
            )
        }),
{
    let all = or_none(list_at(details, "credits"@, "cast"@));
    let first = at_most(all, CAST_LIMIT as nat);
    assert(all.len() == 15 ==> all.take(15) =~= all);
    lemma_read_in_order(
        first,
        cast_reader(),
        |t: JsonTree| t.text("name"@) is Some,
        |member: CastView, t: JsonTree| is_cast(member, t),
    );
}

/// Whether a video is on YouTube, under some key.
pub open spec fn is_on_youtube(t: JsonTree) -> bool {
    &&& t.text("site"@) is Some && same_ignoring_ascii_case(t.text("site"@).unwrap(), "YouTube"@)
    &&& t.text("key"@) is Some && t.text("key"@).unwrap().len() > 0
}

/// Whether a video is a trailer: what does not say what it is, is one.
pub open spec fn is_trailer(t: JsonTree) -> bool {
    t.text("type"@) is None || t.text("type"@) == Some("Trailer"@)
}

/// Whether a video comes no later than another by what they are: one in Russian before one that is
/// not, else a trailer before what is none, else an official one before one that is not.
pub open spec fn comes_first(t: JsonTree, other: JsonTree) -> bool {
    let russian = t.text("iso_639_1"@) == Some("ru"@);
    let official = t.get("official"@) == Some(JsonTree::Bool(true));
    if russian != (other.text("iso_639_1"@) == Some("ru"@)) {
        russian
    } else if is_trailer(t) != is_trailer(other) {
        is_trailer(t)
    } else {
        official || other.get("official"@) != Some(JsonTree::Bool(true))
    }
}

/// Whether a video is shown as the document says.
pub open spec fn is_video(video: VideoView, t: JsonTree) -> bool {
    &&& is_on_youtube(t)
    &&& t.text("key"@) == Some(video.key)
    &&& t.text("site"@) == Some(video.site)
    &&& t.text("id"@) == Some(video.id) || t.text("id"@) is None && video.id.len() == 0
    &&& t.text("name"@) == Some(video.name) || t.text("name"@) is None && video.name.len() == 0
    &&& t.text("type"@) == Some(video.video_type) || t.text("type"@) is None && video.video_type
        == "Trailer"@
    &&& video.official == (t.get("official"@) == Some(JsonTree::Bool(true)))
    &&& video.published_at == t.text("published_at"@)
}

proof fn lemma_video_is_read(t: JsonTree)
    ensures
        is_on_youtube(t) <==> video_reader()(t) is Some,
        is_on_youtube(t) ==> is_video(video_reader()(t).unwrap().1, t),
{
    reveal_strlit("YouTube");
}

proof fn lemma_weights(t: JsonTree, other: JsonTree)
    ensures
        comes_first(t, other) <==> descending(video_weight(t)) <= descending(video_weight(other)),
{
}

/// Whether a video that is shown is one of a list, and comes no later than a given one.
pub open spec fn is_before(video: VideoView, items: Seq<JsonTree>, t: JsonTree) -> bool {
    exists|k: int|
        0 <= k < items.len() && is_video(video, #[trigger] items[k]) && comes_first(items[k], t)
}

/// Every video on YouTube is shown, unless six others are, each of which comes no later than it.
pub proof fn law_videos_are_shown(details: JsonTree, i: int)
    requires
        0 <= i < or_none(list_at(details, "videos"@, "results"@)).len(),
        is_on_youtube(or_none(list_at(details, "videos"@, "results"@))[i]),
    ensures
        ({
            let items = or_none(list_at(details, "videos"@, "results"@));
            ||| exists|r: int|
                0 <= r < videos_of(details).len() && is_video(
                    #[trigger] videos_of(details)[r],
                    items[i],
                )
            ||| videos_of(details).len() == 6 && forall|r: int|
                0 <= r < 6 ==> is_before(#[trigger] videos_of(details)[r], items, items[i])
        }),
{
    let items = or_none(list_at(details, "videos"@, "results"@));
    let read = items.filter_map(video_reader());
    let shown = videos_of(details);
    lemma_video_is_read(items[i]);
    lemma_filter_map_keeps(items, video_reader(), i);
    let wanted = video_reader()(items[i]).unwrap();
    let c = choose|c: int| 0 <= c < read.len() && read[c] == wanted;
    law_the_first_are_taken(read, 6, c);
    if shown.contains(wanted.1) {
        let r = choose|r: int| 0 <= r < shown.len() && shown[r] == wanted.1;
        assert(is_video(shown[r], items[i]));
    } else {
        assert forall|r: int| 0 <= r < 6 implies is_before(#[trigger] shown[r], items, items[i]) by {
            assert(has_up_to(read, shown[r], wanted.0));
            let d = choose|d: int|
                0 <= d < read.len() && (#[trigger] read[d]).1 == shown[r] && read[d].0 <= wanted.0;
            let k = lemma_video_is_from(items, d);
            lemma_weights(items[k], items[i]);
        }
    }
}

/// The place of the video that was read as the `d`-th.
proof fn lemma_video_is_from(items: Seq<JsonTree>, d: int) -> (k: int)
    requires
        0 <= d < items.filter_map(video_reader()).len(),
    ensures
        0 <= k < items.len(),
        video_reader()(items[k]) == Some(items.filter_map(video_reader())[d]),
        is_video(items.filter_map(video_reader())[d].1, items[k]),
{
    let read = items.filter_map(video_reader());
    assert(read.contains(read[d]));
    items.lemma_filter_map_contains(video_reader(), read[d]);
    let k = choose|k: int|
        0 <= k < items.len() && video_reader()(#[trigger] items[k]) == Some(read[d]);
    lemma_video_is_read(items[k]);
    k
}

/// The videos that are shown are videos of the details, at most six, and stand in the order of what
/// they are.
pub proof fn law_videos_stand_in_order(details: JsonTree, r: int, s: int)
    requires
        0 <= r <= s < videos_of(details).len(),
    ensures
        videos_of(details).len() <= 6,
        ({
            let items = or_none(list_at(details, "videos"@, "results"@));
            exists|k: int, l: int|
                0 <= k < items.len() && 0 <= l < items.len() && is_video(
                    videos_of(details)[r],
                    #[trigger] items[k],
                ) && is_video(videos_of(details)[s], #[trigger] items[l]) && comes_first(
                    items[k],
                    items[l],
                )
        }),
{
    let items = or_none(list_at(details, "videos"@, "results"@));
    let read = items.filter_map(video_reader());
    let shown = videos_of(details);
    law_those_taken_are_in_order(read, VIDEO_LIMIT as nat, r, s);
    let (a, b) = choose|a: int, b: int|
        0 <= a < read.len() && 0 <= b < read.len() && (#[trigger] read[a]).1 == shown[r] && (
        #[trigger] read[b]).1 == shown[s] && read[a].0 <= read[b].0;
    let k = lemma_video_is_from(items, a);
    let l = lemma_video_is_from(items, b);
    lemma_weights(items[k], items[l]);
}

/// The metadata are those of the details: what a movie has under its own keys, a series has under
/// others. A missing overview is that in English.
pub proof fn law_metadata_are_those_of_the_details(
    tconst: Seq<char>,
    media_id: u64,
    is_tv: bool,
    details: JsonTree,
    english: Option<JsonTree>,
)
    ensures
        ({
            let movie = movie_metadata_of(tconst, media_id, is_tv, details, english);
            let title = either_text(details, "title"@, "name"@);
            let original = either_text(details, "original_title"@, "original_name"@);
            &&& movie.tconst == tconst
            &&& movie.tmdb_id == media_id
            &&& title is Some ==> movie.title == title.unwrap()
            &&& title is None ==> movie.title.len() == 0
            &&& original is Some ==> movie.original_title == original.unwrap()
            &&& original is None ==> movie.original_title.len() == 0
            &&& is_either(movie.premiered, details, "release_date"@, "first_air_date"@)
            &&& movie.year == year_of(movie.premiered)
            &&& real_text(details, "overview"@) is Some ==> movie.overview == details.text(
                "overview"@,
            )
            &&& real_text(details, "overview"@) is None && english is None ==> movie.overview is None
            &&& real_text(details, "overview"@) is None && english is Some ==> movie.overview
                == real_text(english.unwrap(), "overview"@)
            &&& movie.rating == details.number_key("vote_average"@)
            &&& movie.poster_path == details.text("poster_path"@)
            &&& movie.backdrop_path == details.text("backdrop_path"@)
            &&& details.list("genres"@) is Some ==> movie.genres == names(
                details.list("genres"@).unwrap(),
            )
            &&& list_at(details, "images"@, "logos"@) is Some ==> movie.logo_path == logo_path(
                list_at(details, "images"@, "logos"@).unwrap(),
            )
            &&& movie.cast == cast_of(details)
            &&& movie.crew == crew_of(is_tv, details)
            &&& movie.videos == videos_of(details)
        }),
{
}

} // verus!
