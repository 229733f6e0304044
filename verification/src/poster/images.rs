//! Which of the media and of their posters are taken.
//!
//! A vote is held as the 64-bit key that `tantivy::f64_to_u64` gives it: keys are in the order
//! of the votes.
use crate::lists::views;
use crate::text::{is_text, own_opt, text_opt};
use vstd::prelude::*;

verus! {

// ---------------------------------------------------------------------------
// The media that an IMDb id stands for
// ---------------------------------------------------------------------------

/// A movie or a series that was found by its IMDb id.
#[derive(Debug, Clone)]
pub struct MediaItem {
    pub id: u64,
    pub poster_path: Option<String>,
}

/// The media that are taken for an IMDb id.
#[derive(Debug, Clone)]
pub struct FoundMedia {
    pub id: u64,
    pub is_tv: bool,
    pub poster_path: Option<String>,
}

/// Whether these are the media that are taken: the first of the movies, or else the first of the
/// series.
pub open spec fn is_picked(
    r: Option<FoundMedia>,
    movies: Seq<MediaItem>,
    series: Seq<MediaItem>,
) -> bool {
    match r {
        Some(media) => {
            let item = if movies.len() > 0 {
                movies[0]
            } else {
                series[0]
            };
            &&& movies.len() > 0 || series.len() > 0
            &&& media.id == item.id
            &&& media.is_tv == (movies.len() == 0)
            &&& text_opt(media.poster_path) == text_opt(item.poster_path)
        },
        None => movies.len() == 0 && series.len() == 0,
    }
}

/// Takes the first of the movies, or else the first of the series.
pub fn pick_media(movies: &Vec<MediaItem>, series: &Vec<MediaItem>) -> (r: Option<FoundMedia>)
    ensures
        is_picked(r, movies@, series@),
{
    let is_tv = movies.len() == 0;
    if is_tv && series.len() == 0 {
        return None;
    }
    let item = if is_tv {
        &series[0]
    } else {
        &movies[0]
    };
    let poster_path = match &item.poster_path {
        Some(s) => Some(s.clone()),
        None => None,
    };
    Some(FoundMedia { id: item.id, is_tv, poster_path })
}

// ---------------------------------------------------------------------------
// The poster that is shown
// ---------------------------------------------------------------------------

/// A poster of a movie or a series.
#[derive(Debug, Clone)]
pub struct PosterItem {
    pub file_path: String,
    pub iso_639_1: Option<String>,
    pub vote: u64,
}

/// What a [`PosterItem`] holds.
pub struct PosterView {
    pub file_path: Seq<char>,
    pub iso_639_1: Option<Seq<char>>,
    pub vote: u64,
}

impl View for PosterItem {
    type V = PosterView;

    open spec fn view(&self) -> PosterView {
        PosterView {
            file_path: self.file_path@,
            iso_639_1: text_opt(self.iso_639_1),
            vote: self.vote,
        }
    }
}

/// The posters that are looked at together.
#[derive(Debug, Clone, Copy, PartialEq, Eq, Structural)]
pub enum Tier {
    /// Posters in Russian.
    Russian,
    /// Posters in English, and those in no language.
    Fallback,
}

/// Whether a poster is in a tier.
pub open spec fn in_tier(tier: Tier, poster: PosterView) -> bool {
    match tier {
        Tier::Russian => poster.iso_639_1 == Some("ru"@),
        Tier::Fallback => poster.iso_639_1 == Some("en"@) || poster.iso_639_1 is None,
    }
}

/// The place of the best poster of a tier: the last of those with the highest vote.
pub open spec fn best_in_tier(tier: Tier, posters: Seq<PosterView>) -> Option<int>
    decreases posters.len(),
{
    if posters.len() == 0 {
        None
    } else {
        let before = best_in_tier(tier, posters.drop_last());
        if !in_tier(tier, posters.last()) {
            before
        } else {
            match before {
                Some(i) => if posters.last().vote >= posters[i].vote {
                    Some(posters.len() - 1)
                } else {
                    before
                },
                None => Some(posters.len() - 1),
            }
        }
    }
}

/// The best poster of a tier is one of the tier, no poster of the tier has a higher vote, and
/// none behind it has as high a one. There is one exactly when the tier has a poster.
pub proof fn law_best_in_tier(tier: Tier, posters: Seq<PosterView>)
    ensures
        match best_in_tier(tier, posters) {
            Some(best) => {
                &&& 0 <= best < posters.len()
                &&& in_tier(tier, posters[best])
                &&& forall|i: int|
                    0 <= i < posters.len() && in_tier(tier, #[trigger] posters[i])
                        ==> posters[i].vote <= posters[best].vote
                &&& forall|i: int|
                    best < i < posters.len() && in_tier(tier, #[trigger] posters[i])
                        ==> posters[i].vote < posters[best].vote
            },
            None => forall|i: int|
                0 <= i < posters.len() ==> !in_tier(tier, #[trigger] posters[i]),
        },
    decreases posters.len(),
{
    if posters.len() > 0 {
        let before = posters.drop_last();
        law_best_in_tier(tier, before);
        assert(forall|i: int| 0 <= i < before.len() ==> before[i] == #[trigger] posters[i]);
    }
}

/// Where the poster is that is shown: the best Russian one, else the best in English or in no
/// language, else the one that is known already.
pub open spec fn chosen_poster(
    posters: Option<Seq<PosterView>>,
    known: Option<Seq<char>>,
) -> Option<Seq<char>> {
    match posters {
        Some(items) => match (
            best_in_tier(Tier::Russian, items),
            best_in_tier(Tier::Fallback, items),
        ) {
            (Some(i), _) => Some(items[i].file_path),
            (None, Some(i)) => Some(items[i].file_path),
            (None, None) => known,
        },
        None => known,
    }
}

/// What an optional list of posters holds.
pub open spec fn posters_opt(posters: Option<&Vec<PosterItem>>) -> Option<Seq<PosterView>> {
    match posters {
        Some(v) => Some(views(v@)),
        None => None,
    }
}

fn find_best(tier: Tier, posters: &Vec<PosterItem>) -> (r: Option<usize>)
    ensures
        match r {
            Some(i) => i < posters@.len() && best_in_tier(tier, views(posters@)) == Some(i as int),
            None => best_in_tier(tier, views(posters@)) is None,
        },
{
    let ghost all = views(posters@);
    let mut best: Option<usize> = None;
    for i in 0..posters.len()
        invariant
            all == views(posters@),
            match best {
                Some(b) => b < i && best_in_tier(tier, all.take(i as int)) == Some(b as int),
                None => best_in_tier(tier, all.take(i as int)) is None,
            },
    {
        proof {
            let next = all.take(i as int + 1);
            assert(next.drop_last() =~= all.take(i as int));
            assert(next.last() == posters@[i as int]@);
        }
        let language = match &posters[i].iso_639_1 {
            Some(s) => Some(s.as_str()),
            None => None,
        };
        let counts = match tier {
            Tier::Russian => is_text(language, "ru"),
            Tier::Fallback => language.is_none() || is_text(language, "en"),
        };
        if counts {
            match best {
                Some(b) => {
                    proof {
                        assert(all.take(i as int + 1)[b as int] == posters@[b as int]@);
                    }
                    if posters[i].vote >= posters[b].vote {
                        best = Some(i);
                    }
                },
                None => {
                    best = Some(i);
                },
            }
        }
    }
    proof {
        assert(all.take(all.len() as int) =~= all);
    }
    best
}

/// Where the poster is that is shown: the best Russian one, else the best in English or in no
/// language, else the one that is known already. `posters` is missing where they could not be
/// asked for.
pub fn choose_poster(posters: Option<&Vec<PosterItem>>, known: Option<&str>) -> (r: Option<String>)
    ensures
        text_opt(r) == chosen_poster(posters_opt(posters), crate::text::str_opt(known)),
{
    match posters {
        Some(items) => {
            match find_best(Tier::Russian, items) {
                Some(i) => Some(items[i].file_path.clone()),
                None => match find_best(Tier::Fallback, items) {
                    Some(i) => Some(items[i].file_path.clone()),
                    None => own_opt(known),
                },
            }
        },
        None => own_opt(known),
    }
}

/// Where there is a Russian poster, a Russian one is shown. Where there is none, but one in English
/// or in no language, such a one is shown.
pub proof fn law_russian_posters_come_first(
    posters: Seq<PosterView>,
    known: Option<Seq<char>>,
    tier: Tier,
    i: int,
)
    requires
        0 <= i < posters.len(),
        in_tier(tier, posters[i]),
        tier == Tier::Fallback ==> forall|j: int|
            0 <= j < posters.len() ==> !in_tier(Tier::Russian, #[trigger] posters[j]),
    ensures
        exists|best: int|
            0 <= best < posters.len() && in_tier(tier, #[trigger] posters[best])
                && posters[best].vote >= posters[i].vote && chosen_poster(Some(posters), known)
                == Some(posters[best].file_path),
{
    law_best_in_tier(Tier::Russian, posters);
    law_best_in_tier(Tier::Fallback, posters);
    let best = best_in_tier(tier, posters)->Some_0;
    assert(in_tier(tier, posters[best]));
}

/// A movie is taken wherever there is one, the first of them, whatever series there are; a series
/// where there is no movie; and nothing only where there is neither.
pub proof fn law_movies_are_taken_first(
    r: Option<FoundMedia>,
    first: MediaItem,
    others: Seq<MediaItem>,
    series: Seq<MediaItem>,
)
    ensures
        is_picked(r, seq![first] + others, series) ==> r is Some && !r.unwrap().is_tv
            && r.unwrap().id == first.id && text_opt(r.unwrap().poster_path) == text_opt(
            first.poster_path,
        ),
        is_picked(r, Seq::empty(), seq![first] + others) ==> r is Some && r.unwrap().is_tv
            && r.unwrap().id == first.id && text_opt(r.unwrap().poster_path) == text_opt(
            first.poster_path,
        ),
        is_picked(r, Seq::empty(), Seq::empty()) ==> r is None,
{
}

/// Whether a poster is better than others, if they count: none of them has a higher vote, and none
/// behind it as high a one.
pub open spec fn is_best(posters: Seq<PosterView>, best: int, counts: spec_fn(PosterView) -> bool) -> bool {
    &&& 0 <= best < posters.len()
    &&& counts(posters[best])
    &&& forall|i: int|
        0 <= i < posters.len() && counts(#[trigger] posters[i]) ==> posters[i].vote
            <= posters[best].vote && (i > best ==> posters[i].vote < posters[best].vote)
}

/// The best poster in Russian is shown. Where none is in Russian, the best of those in English and of
/// those in no language is. Where there is none of these either, or the posters are not known, the
/// poster that is known already is.
pub proof fn law_the_best_poster_is_shown(
    posters: Seq<PosterView>,
    known: Option<Seq<char>>,
    best: int,
)
    ensures
        is_best(posters, best, |p: PosterView| p.iso_639_1 == Some("ru"@)) ==> chosen_poster(
            Some(posters),
            known,
        ) == Some(posters[best].file_path),
        (forall|i: int|
            0 <= i < posters.len() ==> (#[trigger] posters[i]).iso_639_1 != Some("ru"@)) && is_best(
            posters,
            best,
            |p: PosterView| p.iso_639_1 == Some("en"@) || p.iso_639_1 is None,
        ) ==> chosen_poster(Some(posters), known) == Some(posters[best].file_path),
        (forall|i: int|
            0 <= i < posters.len() ==> (#[trigger] posters[i]).iso_639_1 is Some
                && posters[i].iso_639_1 != Some("ru"@) && posters[i].iso_639_1 != Some("en"@))
            ==> chosen_poster(Some(posters), known) == known,
        chosen_poster(None, known) == known,
{
    law_best_in_tier(Tier::Russian, posters);
    law_best_in_tier(Tier::Fallback, posters);
    if best_in_tier(Tier::Russian, posters) is Some {
        let b = best_in_tier(Tier::Russian, posters).unwrap();
        assert(posters[b].iso_639_1 == Some("ru"@));
    }
    if best_in_tier(Tier::Fallback, posters) is Some {
        let b = best_in_tier(Tier::Fallback, posters).unwrap();
        assert(posters[b].iso_639_1 == Some("en"@) || posters[b].iso_639_1 is None);
    }
    if is_best(posters, best, |p: PosterView| p.iso_639_1 == Some("ru"@)) {
        assert(in_tier(Tier::Russian, posters[best]));
    }
    if is_best(
        posters,
        best,
        |p: PosterView| p.iso_639_1 == Some("en"@) || p.iso_639_1 is None,
    ) {
        assert(in_tier(Tier::Fallback, posters[best]));
    }
}

} // verus!
