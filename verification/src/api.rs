//! What is asked of the service, and what it answers.
use crate::config::SearchConfig;
use crate::downloader::DownloaderState;
use crate::poster::files::{is_not_modified, PosterFileMetadata};
use crate::search::hits::SearchHit;
use crate::search::plan::SearchParams;
use crate::text::{
    chars_of, law_whitespace_is_cut_off, str_opt, text_between, trimmed, whitespace,
};
use vstd::prelude::*;

verus! {

/// The name of the service.
pub const SERVICE: &'static str = "imdb-indexer";

/// The version of the service.
pub const VERSION: &'static str = "1.0.0";

// ---------------------------------------------------------------------------
// Questions
// ---------------------------------------------------------------------------

/// What is searched for.
#[derive(Debug, Clone)]
pub struct SearchQuery {
    pub q: String,
    pub limit: Option<usize>,
    pub title_type: Option<String>,
    pub year_from: Option<u64>,
    pub year_to: Option<u64>,
    pub min_votes: Option<u64>,
}

/// How the index is to be updated.
#[derive(Debug, Clone, Copy)]
pub struct UpdateQuery {
    pub force: Option<bool>,
}

impl UpdateQuery {
    /// Whether the index is built anew though nothing has changed.
    pub fn is_forced(&self) -> (r: bool)
        ensures
            r == (self.force == Some(true)),
    {
        match self.force {
            Some(force) => force,
            None => false,
        }
    }
}

/// In which size a poster is asked for.
#[derive(Debug, Clone)]
pub struct PosterQuery {
    pub size: Option<String>,
}

/// The number of a page that is asked for: the first where none is.
pub open spec fn page_number(asked: Option<u32>) -> u32 {
    match asked {
        Some(n) => if n < 1 {
            1
        } else {
            n
        },
        None => 1,
    }
}

/// Which page of a shelf is asked for.
#[derive(Debug, Clone, Copy)]
pub struct ShelfPageQuery {
    pub page: Option<u32>,
}

impl ShelfPageQuery {
    /// The number of the page: the first where none is asked for.
    pub fn number(&self) -> (r: u32)
        ensures
            r == page_number(self.page),
    {
        match self.page {
            Some(n) => if n < 1 {
                1
            } else {
                n
            },
            None => 1,
        }
    }
}

/// What is to be searched for, by what is asked and how the service is configured.
pub fn search_params(query: SearchQuery, config: &SearchConfig) -> (r: SearchParams)
    requires
        config.max_limit >= 1,
    ensures
        r.query == query.q,
        ({
            let wanted = match query.limit {
                Some(n) => n,
                None => config.default_limit,
            };
            r.limit == (if wanted < 1 {
                1
            } else if wanted > config.max_limit {
                config.max_limit
            } else {
                wanted
            })
        }),
        1 <= r.limit <= config.max_limit,
        query.limit is Some && 1 <= query.limit.unwrap() <= config.max_limit ==> r.limit
            == query.limit.unwrap(),
        query.limit is None && 1 <= config.default_limit <= config.max_limit ==> r.limit
            == config.default_limit,
        r.title_type == query.title_type,
        r.year_from == query.year_from,
        r.year_to == query.year_to,
        r.min_votes == query.min_votes,
        r.popularity_boost_weight == config.popularity_boost_weight,
        r.rating_boost_weight == config.rating_boost_weight,
{
    let limit: usize = config.effective_limit(query.limit);
    SearchParams {
        query: query.q,
        limit,
        title_type: query.title_type,
        year_from: query.year_from,
        year_to: query.year_to,
        min_votes: query.min_votes,
        popularity_boost_weight: config.popularity_boost_weight,
        rating_boost_weight: config.rating_boost_weight,
    }
}

/// An id without the endings `.jpg`, of which it may have several.
pub open spec fn without_jpg(s: Seq<char>) -> Seq<char>
    decreases s.len(),
{
    if s.len() >= 4 && s.skip(s.len() - 4) == ".jpg"@ {
        without_jpg(s.take(s.len() - 4))
    } else {
        s
    }
}

/// The id in the address of a poster: the address may end like that of a file.
pub fn poster_id(raw: &str) -> (r: String)
    ensures
        r@ == without_jpg(raw@),
{
    let chars = chars_of(raw);
    let mut to: usize = chars.len();
    proof {
        reveal_strlit(".jpg");
        assert(chars@.take(to as int) =~= raw@);
    }
    while to >= 4 && chars[to - 4] == '.' && chars[to - 3] == 'j' && chars[to - 2] == 'p' && chars[to
        - 1] == 'g'
        invariant
            chars@ == raw@,
            to <= chars@.len(),
            ".jpg"@ =~= seq!['.', 'j', 'p', 'g'],
            without_jpg(chars@.take(to as int)) == without_jpg(raw@),
        decreases to,
    {
        proof {
            let s = chars@.take(to as int);
            assert(s.skip(s.len() - 4) =~= ".jpg"@);
            assert(s.take(s.len() - 4) =~= chars@.take(to as int - 4));
        }
        to = to - 4;
    }
    proof {
        let s = chars@.take(to as int);
        if s.len() >= 4 && s.skip(s.len() - 4) == ".jpg"@ {
            assert(s.skip(s.len() - 4)[0] == chars@[to - 4]);
            assert(s.skip(s.len() - 4)[1] == chars@[to - 3]);
            assert(s.skip(s.len() - 4)[2] == chars@[to - 2]);
            assert(s.skip(s.len() - 4)[3] == chars@[to - 1]);
        }
        assert(s =~= chars@.subrange(0, to as int));
    }
    text_between(&chars, 0, to)
}

// ---------------------------------------------------------------------------
// Answers
// ---------------------------------------------------------------------------

/// The hits of a search. How long it took is in nanoseconds.
#[derive(Debug, Clone)]
pub struct SearchResponse {
    pub query: String,
    pub total_hits: usize,
    pub took_nanos: u64,
    pub hits: Vec<SearchHit>,
}

/// The answer to a search.
pub fn search_response(query: String, took_nanos: u64, hits: Vec<SearchHit>) -> (r: SearchResponse)
    ensures
        r.query == query,
        r.total_hits == hits@.len(),
        r.took_nanos == took_nanos,
        r.hits == hits,
{
    let total_hits: usize = hits.len();
    SearchResponse { query, total_hits, took_nanos, hits }
}

/// How the service is.
#[derive(Debug, Clone)]
pub struct StatusResponse {
    pub status: String,
    pub service: String,
    pub version: String,
    pub is_indexing: bool,
    pub total_documents: u64,
    pub downloader_state: DownloaderState,
}

/// How the service is.
pub fn status_response(
    is_indexing: bool,
    total_documents: u64,
    downloader_state: DownloaderState,
) -> (r: StatusResponse)
    ensures
        r.status@ == "ready"@,
        r.service@ == "imdb-indexer"@,
        r.version@ == "1.0.0"@,
        r.is_indexing == is_indexing,
        r.total_documents == total_documents,
        r.downloader_state == downloader_state,
{
    StatusResponse {
        status: "ready".to_owned(),
        service: SERVICE.to_owned(),
        version: VERSION.to_owned(),
        is_indexing,
        total_documents,
        downloader_state,
    }
}

/// What was done.
#[derive(Debug, Clone)]
pub struct ActionResponse {
    pub status: String,
    pub message: String,
}

/// The status code and the answer to a request to update the index. Only one update is made at a
/// time.
pub fn update_reply(is_indexing: bool) -> (r: (u16, ActionResponse))
    ensures
        is_indexing ==> r.0 == 409 && r.1.status@ == "busy"@ && r.1.message@
            == "Indexing pipeline is already running in background"@,
        !is_indexing ==> r.0 == 202 && r.1.status@ == "started"@ && r.1.message@
            == "IMDb dump download and indexing started in background"@,
{
    if is_indexing {
        (
            409,
            ActionResponse {
                status: "busy".to_owned(),
                message: "Indexing pipeline is already running in background".to_owned(),
            },
        )
    } else {
        (
            202,
            ActionResponse {
                status: "started".to_owned(),
                message: "IMDb dump download and indexing started in background".to_owned(),
            },
        )
    }
}

// ---------------------------------------------------------------------------
// Posters
// ---------------------------------------------------------------------------

/// What is answered to a request for a poster.
#[derive(Debug, Clone, Copy, PartialEq, Eq, Structural)]
pub enum PosterReply {
    /// The client has it.
    NotModified,
    /// The file.
    Image,
    /// A picture that says that there is none.
    Placeholder,
}

/// What is answered, by the tag of the poster that there is and by the tag of the one that the client
/// has.
pub open spec fn reply_for(
    tag: Option<Seq<char>>,
    if_none_match: Option<Seq<char>>,
) -> PosterReply {
    match (tag, if_none_match) {
        (Some(ours), Some(theirs)) => if trimmed(theirs) == trimmed(ours) {
            PosterReply::NotModified
        } else {
            PosterReply::Image
        },
        (Some(_), None) => PosterReply::Image,
        (None, _) => PosterReply::Placeholder,
    }
}

/// The status code of an answer.
pub open spec fn status_of(reply: PosterReply) -> u16 {
    if reply == PosterReply::NotModified {
        304
    } else {
        200
    }
}

/// For how long an answer may be kept.
pub open spec fn cache_control_of(reply: PosterReply) -> Seq<char> {
    if reply == PosterReply::Placeholder {
        "no-cache, no-store, must-revalidate"@
    } else {
        "public, max-age=2592000, immutable"@
    }
}

impl PosterReply {
    /// What is answered, by the poster that there is and by the tag of the one that the client has.
    pub fn choose_for(poster: Option<&PosterFileMetadata>, if_none_match: Option<&str>) -> (r:
        PosterReply)
        ensures
            r == reply_for(
                match poster {
                    Some(meta) => Some(meta.etag@),
                    None => None,
                },
                str_opt(if_none_match),
            ),
    {
        match poster {
            Some(meta) => if is_not_modified(if_none_match, meta.etag.as_str()) {
                PosterReply::NotModified
            } else {
                PosterReply::Image
            },
            None => PosterReply::Placeholder,
        }
    }

    /// The status code of the answer.
    pub fn status(self) -> (r: u16)
        ensures
            r == status_of(self),
    {
        match self {
            PosterReply::NotModified => 304,
            _ => 200,
        }
    }

    /// For how long the answer may be kept.
    pub fn cache_control(self) -> (r: &'static str)
        ensures
            r@ == cache_control_of(self),
    {
        match self {
            PosterReply::Placeholder => "no-cache, no-store, must-revalidate",
            _ => "public, max-age=2592000, immutable",
        }
    }

    /// What the answer is, where it has a body.
    pub fn content_type(self) -> (r: Option<&'static str>)
        ensures
            crate::text::str_opt(r) == (match self {
                PosterReply::NotModified => None,
                PosterReply::Image => Some("image/jpeg"@),
                PosterReply::Placeholder => Some("image/svg+xml; charset=utf-8"@),
            }),
    {
        match self {
            PosterReply::NotModified => None,
            PosterReply::Image => Some("image/jpeg"),
            PosterReply::Placeholder => Some("image/svg+xml; charset=utf-8"),
        }
    }
}

// ---------------------------------------------------------------------------
// Errors
// ---------------------------------------------------------------------------

/// What can be asked about movies, series and persons.
#[derive(Debug, Clone, Copy, PartialEq, Eq, Structural)]
pub enum Topic {
    Seasons,
    Episodes,
    Movie,
    Person,
    Media,
    Feeds,
    ShelfPage,
}

/// A status code, and what is said about the error.
#[derive(Debug, Clone)]
pub struct ErrorReply {
    pub status: u16,
    pub error: String,
}

/// What is said where nothing was found. The shelves of the home page are always found.
pub open spec fn missing_text(topic: Topic, id: Seq<char>) -> Seq<char> {
    match topic {
        Topic::Seasons => "Series not found on TMDB"@,
        Topic::Episodes => "Episodes not found on TMDB"@,
        Topic::Movie => "Movie not found on TMDB"@,
        Topic::Person => "Person not found on TMDB"@,
        Topic::Media => "Media not found on TMDB"@,
        Topic::Feeds => Seq::empty(),
        Topic::ShelfPage => "Shelf '"@ + id + "' not found"@,
    }
}

/// What is said before the reason where something went wrong.
pub open spec fn failure_text(topic: Topic) -> Seq<char> {
    match topic {
        Topic::Seasons => "Failed to fetch seasons: "@,
        Topic::Episodes => "Failed to fetch episodes: "@,
        Topic::Movie => "Failed to fetch movie metadata: "@,
        Topic::Person => "Failed to fetch person details: "@,
        Topic::Media => "Failed to resolve TMDB media: "@,
        Topic::Feeds => "Failed to fetch home feeds: "@,
        Topic::ShelfPage => "Failed to fetch shelf page: "@,
    }
}

/// The answer where nothing was found.
pub fn missing_reply(topic: Topic, id: &str) -> (r: ErrorReply)
    requires
        topic != Topic::Feeds,
    ensures
        r.status == 404,
        r.error@ == missing_text(topic, id@),
{
    let error = match topic {
        Topic::Seasons => "Series not found on TMDB".to_owned(),
        Topic::Episodes => "Episodes not found on TMDB".to_owned(),
        Topic::Movie => "Movie not found on TMDB".to_owned(),
        Topic::Person => "Person not found on TMDB".to_owned(),
        Topic::Media => "Media not found on TMDB".to_owned(),
        Topic::Feeds => String::new(),
        Topic::ShelfPage => {
            let mut text = "Shelf '".to_owned();
            text.append(id);
            text.append("' not found");
            text
        },
    };
    ErrorReply { status: 404, error }
}

/// The answer where something went wrong.
pub fn failed_reply(topic: Topic, reason: &str) -> (r: ErrorReply)
    ensures
        r.status == 500,
        r.error@ == failure_text(topic) + reason@,
{
    let mut error = match topic {
        Topic::Seasons => "Failed to fetch seasons: ".to_owned(),
        Topic::Episodes => "Failed to fetch episodes: ".to_owned(),
        Topic::Movie => "Failed to fetch movie metadata: ".to_owned(),
        Topic::Person => "Failed to fetch person details: ".to_owned(),
        Topic::Media => "Failed to resolve TMDB media: ".to_owned(),
        Topic::Feeds => "Failed to fetch home feeds: ".to_owned(),
        Topic::ShelfPage => "Failed to fetch shelf page: ".to_owned(),
    };
    error.append(reason);
    ErrorReply { status: 500, error }
}

// ---------------------------------------------------------------------------
// Laws
// ---------------------------------------------------------------------------

/// An id loses the endings `.jpg`, however many it has, and nothing else.
pub proof fn law_endings_are_cut_off(id: Seq<char>, endings: Seq<Seq<char>>)
    requires
        id.len() < 4 || id.skip(id.len() - 4) != ".jpg"@,
        forall|i: int| 0 <= i < endings.len() ==> #[trigger] endings[i] == ".jpg"@,
    ensures
        without_jpg(with_endings(id, endings)) == id,
    decreases endings.len(),
{
    reveal_strlit(".jpg");
    if endings.len() > 0 {
        let before = with_endings(id, endings.drop_last());
        let whole = before + endings.last();
        assert(endings.last() == endings[endings.len() - 1]);
        assert(whole.skip(whole.len() - 4) =~= ".jpg"@);
        assert(whole.take(whole.len() - 4) =~= before);
        law_endings_are_cut_off(id, endings.drop_last());
    }
}

/// An id with endings behind it.
pub open spec fn with_endings(id: Seq<char>, endings: Seq<Seq<char>>) -> Seq<char>
    decreases endings.len(),
{
    if endings.len() == 0 {
        id
    } else {
        with_endings(id, endings.drop_last()) + endings.last()
    }
}

/// Pages are counted from one: a page that is asked for by such a number is that page, and otherwise
/// it is the first.
pub proof fn law_pages_are_counted_from_one(n: u32)
    ensures
        n >= 1 ==> page_number(Some(n)) == n,
        page_number(Some(0)) == 1,
        page_number(None) == 1,
{
}

/// A client that names the tag of the poster, with any whitespace round it, is told that it has it;
/// one that names another, or none, gets the poster. Where there is no poster everybody gets the
/// placeholder, which is not to be kept.
pub proof fn law_clients_are_told_what_they_have(
    before: Seq<char>,
    tag: Seq<char>,
    behind: Seq<char>,
    other: Seq<char>,
)
    requires
        forall|i: int| 0 <= i < before.len() ==> whitespace(#[trigger] before[i]),
        forall|i: int| 0 <= i < behind.len() ==> whitespace(#[trigger] behind[i]),
        tag.len() > 0 && !whitespace(tag[0]) && !whitespace(tag.last()),
        other.len() > 0 && !whitespace(other[0]) && !whitespace(other.last()),
    ensures
        reply_for(Some(tag), Some(before + tag + behind)) == PosterReply::NotModified,
        tag != other ==> reply_for(Some(other), Some(before + tag + behind)) == PosterReply::Image,
        reply_for(Some(tag), None) == PosterReply::Image,
        reply_for(None, Some(tag)) == PosterReply::Placeholder,
        reply_for(None, None) == PosterReply::Placeholder,
        status_of(PosterReply::NotModified) == 304,
        status_of(PosterReply::Image) == 200,
        status_of(PosterReply::Placeholder) == 200,
        cache_control_of(PosterReply::Placeholder) == "no-cache, no-store, must-revalidate"@,
        cache_control_of(PosterReply::Image) == "public, max-age=2592000, immutable"@,
        cache_control_of(PosterReply::NotModified) == cache_control_of(PosterReply::Image),
{
    let none = Seq::<char>::empty();
    law_whitespace_is_cut_off(before, tag, behind);
    law_whitespace_is_cut_off(none, tag, none);
    law_whitespace_is_cut_off(none, other, none);
    assert(none + tag + none =~= tag);
    assert(none + other + none =~= other);
}

/// What is said names what was asked about: of a shelf that there is not its id, and of a failure what
/// was to be done.
pub proof fn law_errors_name_the_topic(id: Seq<char>)
    ensures
        missing_text(Topic::Seasons, id) == "Series not found on TMDB"@,
        missing_text(Topic::Episodes, id) == "Episodes not found on TMDB"@,
        missing_text(Topic::Movie, id) == "Movie not found on TMDB"@,
        missing_text(Topic::Person, id) == "Person not found on TMDB"@,
        missing_text(Topic::Media, id) == "Media not found on TMDB"@,
        missing_text(Topic::ShelfPage, id) == "Shelf '"@ + id + "' not found"@,
        failure_text(Topic::Seasons) == "Failed to fetch seasons: "@,
        failure_text(Topic::Episodes) == "Failed to fetch episodes: "@,
        failure_text(Topic::Movie) == "Failed to fetch movie metadata: "@,
        failure_text(Topic::Person) == "Failed to fetch person details: "@,
        failure_text(Topic::Media) == "Failed to resolve TMDB media: "@,
        failure_text(Topic::Feeds) == "Failed to fetch home feeds: "@,
        failure_text(Topic::ShelfPage) == "Failed to fetch shelf page: "@,
{
}

} // verus!
