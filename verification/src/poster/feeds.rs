//! The shelves of the home page.
use crate::json::{or_none, tree_opt, trees, Json, JsonTree};
use crate::lists::{lemma_read_in_order, lemma_views_push, shows_in_order, views};
use crate::poster::fields::{
    either_text, is_either, low_part, or_empty, owned_either, read_low_part, read_real_text,
    read_year, real_text, year_of,
};
use crate::poster::model::{FeedItem, FeedItemView, FeedShelf, FeedShelfView};
use crate::poster::person::{media_type_or, read_media_type};
use crate::text::{decimal, format_decimal, law_decimal_is_injective, own_opt, same};
use vstd::prelude::*;

verus! {

// ---------------------------------------------------------------------------
// The items of a shelf
// ---------------------------------------------------------------------------

/// How an item is read: only one with an id and a title is.
pub open spec fn feed_reader(default_media_type: Seq<char>) -> spec_fn(JsonTree) -> Option<
    FeedItemView,
> {
    |t: JsonTree|
        {
            let title = or_empty(either_text(t, "title"@, "name"@));
            match t.uint("id"@) {
                Some(id) => if title.len() > 0 {
                    Some(
                        FeedItemView {
                            id,
                            media_type: media_type_or(t, default_media_type),
                            title,
                            original_title: either_text(t, "original_title"@, "original_name"@),
                            year: year_of(either_text(t, "release_date"@, "first_air_date"@)),
                            rating: t.number_key("vote_average"@),
                            vote_count: t.uint("vote_count"@).unwrap_or(0),
                            poster_path: t.text("poster_path"@),
                            backdrop_path: t.text("backdrop_path"@),
                            overview: real_text(t, "overview"@),
                        },
                    )
                } else {
                    None
                },
                None => None,
            }
        }
}

/// The items of an answer.
pub open spec fn feed_items(answer: JsonTree, default_media_type: Seq<char>) -> Seq<FeedItemView> {
    or_none(answer.list("results"@)).filter_map(feed_reader(default_media_type))
}

fn read_feed_item(item: &Json, default_media_type: &str) -> (r: Option<FeedItem>)
    ensures
        match r {
            Some(f) => feed_reader(default_media_type@)(item@) == Some(f@),
            None => feed_reader(default_media_type@)(item@) is None,
        },
{
    let id: u64 = match item.uint("id") {
        Some(id) => id,
        None => {
            return None;
        },
    };
    let title = match owned_either(item, "title", "name") {
        Some(s) => s,
        None => String::new(),
    };
    if title.as_str().is_empty() {
        return None;
    }
    let date = owned_either(item, "release_date", "first_air_date");
    let vote_count: u64 = item.uint("vote_count").unwrap_or(0);
    Some(
        FeedItem {
            id,
            media_type: read_media_type(item, default_media_type),
            title,
            original_title: owned_either(item, "original_title", "original_name"),
            year: read_year(&date),
            rating: item.number_key("vote_average"),
            vote_count,
            poster_path: own_opt(item.text("poster_path")),
            backdrop_path: own_opt(item.text("backdrop_path")),
            overview: read_real_text(item, "overview"),
        },
    )
}

/// The items of an answer: those with an id and a title.
pub fn parse_tmdb_results_to_feed_items(answer: &Json, default_media_type: &str) -> (r: Vec<
    FeedItem,
>)
    ensures
        views(r@) == feed_items(answer@, default_media_type@),
{
    let none: Vec<Json> = Vec::new();
    proof {
        assert(trees(none@) =~= Seq::<JsonTree>::empty());
    }
    let items = match answer.list("results") {
        Some(items) => items,
        None => &none,
    };
    let ghost all = trees(items@);
    let ghost reader = feed_reader(default_media_type@);
    let mut out: Vec<FeedItem> = Vec::new();
    for i in 0..items.len()
        invariant
            all == trees(items@),
            reader == feed_reader(default_media_type@),
            views(out@) =~= all.take(i as int).filter_map(reader),
    {
        proof {
            all.lemma_filter_map_take_succ(reader, i as int);
            assert(all[i as int] == items@[i as int]@);
        }
        match read_feed_item(&items[i], default_media_type) {
            Some(item) => {
                proof {
                    lemma_views_push(out@, item);
                }
                out.push(item);
            },
            None => {},
        }
    }
    proof {
        assert(all.take(all.len() as int) =~= all);
    }
    out
}

// ---------------------------------------------------------------------------
// The shelves
// ---------------------------------------------------------------------------

/// The shelves that there are.
#[derive(Debug, Clone, Copy, PartialEq, Eq, Structural)]
pub enum Shelf {
    Trending,
    Digital,
    PopularSeries,
    TopRated,
}

/// The id of a shelf.
pub open spec fn shelf_id(shelf: Shelf) -> Seq<char> {
    match shelf {
        Shelf::Trending => "trending"@,
        Shelf::Digital => "digital"@,
        Shelf::PopularSeries => "popular_series"@,
        Shelf::TopRated => "top_rated"@,
    }
}

/// The title of a shelf.
pub open spec fn shelf_title(shelf: Shelf) -> Seq<char> {
    match shelf {
        Shelf::Trending => "В тренде на этой неделе"@,
        Shelf::Digital => "Свежие цифровые релизы"@,
        Shelf::PopularSeries => "Популярные сериалы"@,
        Shelf::TopRated => "Шедевры всех времён"@,
    }
}

/// The icon of a shelf.
pub open spec fn shelf_icon(shelf: Shelf) -> Seq<char> {
    match shelf {
        Shelf::Trending => "flame"@,
        Shelf::Digital => "film"@,
        Shelf::PopularSeries => "tv"@,
        Shelf::TopRated => "star"@,
    }
}

/// What the items of a shelf are where they do not say it.
pub open spec fn shelf_media_type(shelf: Shelf) -> Seq<char> {
    match shelf {
        Shelf::PopularSeries => "tv"@,
        _ => "movie"@,
    }
}

/// Where the first page of a shelf is, given the date of the day.
pub open spec fn shelf_address(shelf: Shelf, today: Seq<char>) -> Seq<char> {
    match shelf {
        Shelf::Trending => "https://api.themoviedb.org/3/trending/all/week?language=ru-RU"@,
        Shelf::Digital =>
        "https://api.themoviedb.org/3/discover/movie?language=ru-RU&sort_by=primary_release_date.desc&release_date.lte="@
            + today + "&with_release_type=4%7C5&vote_count.gte=30"@,
        Shelf::PopularSeries => "https://api.themoviedb.org/3/tv/popular?language=ru-RU"@,
        Shelf::TopRated =>
        "https://api.themoviedb.org/3/movie/top_rated?language=ru-RU&vote_count.gte=1000"@,
    }
}

/// Where a page of a shelf is, given the date of the day.
pub open spec fn shelf_page_address(shelf: Shelf, today: Seq<char>, page: u32) -> Seq<char> {
    shelf_address(shelf, today) + "&page="@ + decimal(page as nat)
}

/// The shelves of the home page, in order.
pub open spec fn home_shelves() -> Seq<Shelf> {
    seq![Shelf::Trending, Shelf::Digital, Shelf::PopularSeries, Shelf::TopRated]
}

impl Shelf {
    /// The shelves of the home page, in order.
    pub fn home() -> (r: Vec<Shelf>)
        ensures
            r@ == home_shelves(),
    {
        let r = vec![Shelf::Trending, Shelf::Digital, Shelf::PopularSeries, Shelf::TopRated];
        proof {
            assert(r@ =~= home_shelves());
        }
        r
    }

    /// The shelf with an id, if there is one.
    pub fn with_id(id: &str) -> (r: Option<Shelf>)
        ensures
            match r {
                Some(shelf) => shelf_id(shelf) == id@,
                None => forall|shelf: Shelf| #[trigger] shelf_id(shelf) != id@,
            },
    {
        if same(id, "trending") {
            Some(Shelf::Trending)
        } else if same(id, "digital") {
            Some(Shelf::Digital)
        } else if same(id, "popular_series") {
            Some(Shelf::PopularSeries)
        } else if same(id, "top_rated") {
            Some(Shelf::TopRated)
        } else {
            None
        }
    }

    /// The id of the shelf.
    pub fn id(self) -> (r: &'static str)
        ensures
            r@ == shelf_id(self),
    {
        match self {
            Shelf::Trending => "trending",
            Shelf::Digital => "digital",
            Shelf::PopularSeries => "popular_series",
            Shelf::TopRated => "top_rated",
        }
    }

    /// The title of the shelf.
    pub fn title(self) -> (r: &'static str)
        ensures
            r@ == shelf_title(self),
    {
        match self {
            Shelf::Trending => "В тренде на этой неделе",
            Shelf::Digital => "Свежие цифровые релизы",
            Shelf::PopularSeries => "Популярные сериалы",
            Shelf::TopRated => "Шедевры всех времён",
        }
    }

    /// The icon of the shelf.
    pub fn icon(self) -> (r: &'static str)
        ensures
            r@ == shelf_icon(self),
    {
        match self {
            Shelf::Trending => "flame",
            Shelf::Digital => "film",
            Shelf::PopularSeries => "tv",
            Shelf::TopRated => "star",
        }
    }

    /// What the items of the shelf are where they do not say it.
    pub fn media_type(self) -> (r: &'static str)
        ensures
            r@ == shelf_media_type(self),
    {
        match self {
            Shelf::PopularSeries => "tv",
            _ => "movie",
        }
    }

    /// Where the first page of the shelf is, given the date of the day.
    pub fn url(self, today: &str) -> (r: String)
        ensures
            r@ == shelf_address(self, today@),
    {
        match self {
            Shelf::Trending =>
            "https://api.themoviedb.org/3/trending/all/week?language=ru-RU".to_owned(),
            Shelf::Digital => {
                let mut url =
                    "https://api.themoviedb.org/3/discover/movie?language=ru-RU&sort_by=primary_release_date.desc&release_date.lte=".to_owned();
                url.append(today);
                url.append("&with_release_type=4%7C5&vote_count.gte=30");
                url
            },
            Shelf::PopularSeries =>
            "https://api.themoviedb.org/3/tv/popular?language=ru-RU".to_owned(),
            Shelf::TopRated =>
            "https://api.themoviedb.org/3/movie/top_rated?language=ru-RU&vote_count.gte=1000".to_owned(),
        }
    }

    /// Where a page of the shelf is, given the date of the day.
    pub fn page_url(self, today: &str, page: u32) -> (r: String)
        ensures
            r@ == shelf_page_address(self, today@, page),
    {
        let mut url = self.url(today);
        url.append("&page=");
        url.append(format_decimal(page as u64).as_str());
        url
    }
}

/// The shelf on the home page, given the answer of TMDB: without one it is empty.
pub open spec fn home_shelf_of(shelf: Shelf, answer: Option<JsonTree>) -> FeedShelfView {
    FeedShelfView {
        id: shelf_id(shelf),
        title: shelf_title(shelf),
        icon: shelf_icon(shelf),
        items: match answer {
            Some(t) => feed_items(t, shelf_media_type(shelf)),
            None => Seq::empty(),
        },
        page: Some(1),
        total_pages: None,
        total_results: None,
    }
}

/// A page of a shelf, given the answer of TMDB. A page that does not say its number is the one
/// that was asked for.
pub open spec fn shelf_page_of(shelf: Shelf, page: u32, answer: JsonTree) -> FeedShelfView {
    FeedShelfView {
        id: shelf_id(shelf),
        title: shelf_title(shelf),
        icon: shelf_icon(shelf),
        items: feed_items(answer, shelf_media_type(shelf)),
        page: match low_part(answer.uint("page"@)) {
            Some(n) => Some(n),
            None => Some(page),
        },
        total_pages: low_part(answer.uint("total_pages"@)),
        total_results: answer.uint("total_results"@),
    }
}

/// The shelf on the home page, given the answer of TMDB: without one it is empty.
pub fn home_shelf(shelf: Shelf, answer: Option<&Json>) -> (r: FeedShelf)
    ensures
        r@ == home_shelf_of(shelf, tree_opt(answer)),
{
    let items = match answer {
        Some(json) => parse_tmdb_results_to_feed_items(json, shelf.media_type()),
        None => Vec::new(),
    };
    let r = FeedShelf {
        id: shelf.id().to_owned(),
        title: shelf.title().to_owned(),
        icon: shelf.icon().to_owned(),
        items,
        page: Some(1),
        total_pages: None,
        total_results: None,
    };
    proof {
        assert(r@.items =~= home_shelf_of(shelf, tree_opt(answer)).items);
    }
    r
}

/// A page of a shelf, given the answer of TMDB.
pub fn shelf_page(shelf: Shelf, page: u32, answer: &Json) -> (r: FeedShelf)
    ensures
        r@ == shelf_page_of(shelf, page, answer@),
{
    let number = match read_low_part(answer.uint("page")) {
        Some(n) => Some(n),
        None => Some(page),
    };
    FeedShelf {
        id: shelf.id().to_owned(),
        title: shelf.title().to_owned(),
        icon: shelf.icon().to_owned(),
        items: parse_tmdb_results_to_feed_items(answer, shelf.media_type()),
        page: number,
        total_pages: read_low_part(answer.uint("total_pages")),
        total_results: answer.uint("total_results"),
    }
}

/// Shelves with the same id are the same.
pub proof fn law_shelf_ids_differ(a: Shelf, b: Shelf)
    requires
        shelf_id(a) == shelf_id(b),
    ensures
        a == b,
{
    reveal_strlit("trending");
    reveal_strlit("digital");
    reveal_strlit("popular_series");
    reveal_strlit("top_rated");
    assert("trending"@.len() == 8 && "digital"@.len() == 7);
    assert("popular_series"@.len() == 14 && "top_rated"@.len() == 9);
}

/// Every item of a shelf has a title.
pub proof fn law_feed_items_have_titles(answer: JsonTree, default_media_type: Seq<char>, i: int)
    requires
        0 <= i < feed_items(answer, default_media_type).len(),
    ensures
        feed_items(answer, default_media_type)[i].title.len() > 0,
{
    let items = or_none(answer.list("results"@));
    let reader = feed_reader(default_media_type);
    let found = items.filter_map(reader);
    assert(found.contains(found[i]));
    items.lemma_filter_map_contains(reader, found[i]);
}

/// Whether an item is shown as the answer says.
pub open spec fn is_feed_item(
    item: FeedItemView,
    t: JsonTree,
    default_media_type: Seq<char>,
) -> bool {
    &&& t.uint("id"@) == Some(item.id)
    &&& t.text("media_type"@) == Some(item.media_type) || t.text("media_type"@) is None
        && item.media_type == default_media_type
    &&& is_either(Some(item.title), t, "title"@, "name"@)
    &&& is_either(item.original_title, t, "original_title"@, "original_name"@)
    &&& forall|date: Option<Seq<char>>|
        is_either(date, t, "release_date"@, "first_air_date"@) ==> item.year == #[trigger] year_of(
            date,
        )
    &&& item.rating == t.number_key("vote_average"@)
    &&& t.uint("vote_count"@) == Some(item.vote_count) || t.uint("vote_count"@) is None
        && item.vote_count == 0
    &&& item.poster_path == t.text("poster_path"@)
    &&& item.backdrop_path == t.text("backdrop_path"@)
    &&& item.overview == real_text(t, "overview"@)
}

/// Whether something in an answer has an id and a title that is not empty.
pub open spec fn has_id_and_title(t: JsonTree) -> bool {
    &&& t.uint("id"@) is Some
    &&& exists|title: Seq<char>| #[trigger] is_either(Some(title), t, "title"@, "name"@)
        && title.len() > 0
}

/// A shelf shows what has an id and a title in the answer, in its order, and nothing else.
pub proof fn law_items_are_shown_in_order(answer: JsonTree, default_media_type: Seq<char>)
    ensures
        shows_in_order(
            or_none(answer.list("results"@)),
            feed_items(answer, default_media_type),
            |t: JsonTree| has_id_and_title(t),
            |item: FeedItemView, t: JsonTree| is_feed_item(item, t, default_media_type),
        ),
{
    let items = or_none(answer.list("results"@));
    assert forall|i: int| 0 <= i < items.len() implies (has_id_and_title(#[trigger] items[i])
        <==> feed_reader(default_media_type)(items[i]) is Some) by {
        let title = either_text(items[i], "title"@, "name"@);
        if title is Some {
            assert(is_either(Some(title.unwrap()), items[i], "title"@, "name"@));
        }
    }
    lemma_read_in_order(
        items,
        feed_reader(default_media_type),
        |t: JsonTree| has_id_and_title(t),
        |item: FeedItemView, t: JsonTree| is_feed_item(item, t, default_media_type),
    );
}

/// The home page shows what is in trend, the new digital releases, the popular series and what is
/// rated best, in this order. Only the series are series where they do not say it.
pub proof fn law_the_home_page()
    ensures
        home_shelves().map_values(|s: Shelf| shelf_id(s)) == seq![
            "trending"@,
            "digital"@,
            "popular_series"@,
            "top_rated"@,
        ],
        home_shelves().map_values(|s: Shelf| shelf_title(s)) == seq![
            "В тренде на этой неделе"@,
            "Свежие цифровые релизы"@,
            "Популярные сериалы"@,
            "Шедевры всех времён"@,
        ],
        home_shelves().map_values(|s: Shelf| shelf_icon(s)) == seq![
            "flame"@,
            "film"@,
            "tv"@,
            "star"@,
        ],
        forall|s: Shelf|
            #[trigger] shelf_media_type(s) == (if shelf_id(s) == "popular_series"@ {
                "tv"@
            } else {
                "movie"@
            }),
{
    assert(home_shelves().map_values(|s: Shelf| shelf_id(s)) =~= seq![
        "trending"@,
        "digital"@,
        "popular_series"@,
        "top_rated"@,
    ]);
    assert(home_shelves().map_values(|s: Shelf| shelf_title(s)) =~= seq![
        "В тренде на этой неделе"@,
        "Свежие цифровые релизы"@,
        "Популярные сериалы"@,
        "Шедевры всех времён"@,
    ]);
    assert(home_shelves().map_values(|s: Shelf| shelf_icon(s)) =~= seq![
        "flame"@,
        "film"@,
        "tv"@,
        "star"@,
    ]);
    reveal_strlit("trending");
    reveal_strlit("digital");
    reveal_strlit("popular_series");
    reveal_strlit("top_rated");
    assert("trending"@.len() == 8 && "digital"@.len() == 7);
    assert("popular_series"@.len() == 14 && "top_rated"@.len() == 9);
}

/// A page of a shelf is where the shelf is, with the number of the page behind it: different pages
/// are at different places. Only the digital releases depend on the day: nothing newer is asked for.
pub proof fn law_pages_have_addresses(
    shelf: Shelf,
    today: Seq<char>,
    day: Seq<char>,
    page: u32,
    other: u32,
)
    ensures
        shelf_page_address(shelf, today, page) == shelf_address(shelf, today) + "&page="@ + decimal(
            page as nat,
        ),
        shelf_page_address(shelf, today, page) == shelf_page_address(shelf, today, other) ==> page
            == other,
        shelf != Shelf::Digital ==> shelf_address(shelf, today) == shelf_address(shelf, day),
        shelf_address(Shelf::Digital, today)
            == "https://api.themoviedb.org/3/discover/movie?language=ru-RU&sort_by=primary_release_date.desc&release_date.lte="@
            + today + "&with_release_type=4%7C5&vote_count.gte=30"@,
        shelf_address(Shelf::Trending, today)
            == "https://api.themoviedb.org/3/trending/all/week?language=ru-RU"@,
        shelf_address(Shelf::PopularSeries, today)
            == "https://api.themoviedb.org/3/tv/popular?language=ru-RU"@,
        shelf_address(Shelf::TopRated, today)
            == "https://api.themoviedb.org/3/movie/top_rated?language=ru-RU&vote_count.gte=1000"@,
{
    let start = shelf_address(shelf, today) + "&page="@;
    if shelf_page_address(shelf, today, page) == shelf_page_address(shelf, today, other) {
        let n = start.len() as int;
        assert((start + decimal(page as nat)).skip(n) =~= decimal(page as nat));
        assert((start + decimal(other as nat)).skip(n) =~= decimal(other as nat));
        law_decimal_is_injective(page as nat, other as nat);
    }
}

/// A shelf on the home page shows the first page of the answer, and nothing without an answer. A page
/// of a shelf shows the same, and says its number, the number of pages and how much there is.
pub proof fn law_shelves_show_the_answer(shelf: Shelf, page: u32, answer: JsonTree)
    ensures
        ({
            let home = home_shelf_of(shelf, Some(answer));
            let empty = home_shelf_of(shelf, None);
            let shown = shelf_page_of(shelf, page, answer);
            &&& home.items == feed_items(answer, shelf_media_type(shelf))
            &&& home.items == shown.items
            &&& empty.items.len() == 0
            &&& home.id == shown.id && home.title == shown.title && home.icon == shown.icon
            &&& home.id == empty.id && home.title == empty.title && home.icon == empty.icon
            &&& home.id == shelf_id(shelf) && home.title == shelf_title(shelf) && home.icon
                == shelf_icon(shelf)
            &&& home.page == Some(1u32) && empty.page == Some(1u32)
            &&& home.total_pages is None && home.total_results is None
            &&& answer.uint("page"@) is None ==> shown.page == Some(page)
            &&& answer.uint("page"@) is Some && answer.uint("page"@).unwrap() <= u32::MAX
                ==> shown.page == Some(answer.uint("page"@).unwrap() as u32)
            &&& answer.uint("total_pages"@) is None ==> shown.total_pages is None
            &&& answer.uint("total_pages"@) is Some && answer.uint("total_pages"@).unwrap()
                <= u32::MAX ==> shown.total_pages == Some(
                answer.uint("total_pages"@).unwrap() as u32,
            )
            &&& shown.total_results == answer.uint("total_results"@)
        }),
{
}

} // verus!
