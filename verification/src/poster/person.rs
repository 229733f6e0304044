//! The details of a person, from the document that TMDB gives of them.
use crate::json::{list_at, or_none, tree_opt, trees, Json, JsonTree};
use crate::lists::{lemma_read_in_order, lemma_views_push, shows_in_order, views};
use crate::poster::fields::{
    either_text, is_either, or_empty, owned_either, owned_or_empty, read_real_text, read_real_text_or,
    read_year, real_text, real_text_or, year_of,
};
use crate::poster::model::{
    PersonCreditItem, PersonCreditView, PersonDetailsResponse, PersonDetailsView,
};
use crate::text::own_opt;
use vstd::prelude::*;

verus! {

/// The two lists of credits that a person has.
#[derive(Debug, Clone, Copy, PartialEq, Eq, Structural)]
pub enum Part {
    Cast,
    Crew,
}

/// The kind of a credit that does not say what it is for.
pub open spec fn media_type_or(t: JsonTree, default: Seq<char>) -> Seq<char> {
    match t.text("media_type"@) {
        Some(s) => s,
        None => default,
    }
}

/// How a credit is read: only one with an id is. The cast have a character, the crew a job
/// and a department.
pub open spec fn credit_reader(part: Part) -> spec_fn(JsonTree) -> Option<PersonCreditView> {
    |t: JsonTree|
        match t.uint("id"@) {
            Some(id) => {
                let release_date = either_text(t, "release_date"@, "first_air_date"@);
                Some(
                    PersonCreditView {
                        id,
                        media_type: media_type_or(t, "movie"@),
                        title: or_empty(either_text(t, "title"@, "name"@)),
                        original_title: either_text(t, "original_title"@, "original_name"@),
                        character: if part == Part::Cast {
                            t.text("character"@)
                        } else {
                            None
                        },
                        job: if part == Part::Crew {
                            t.text("job"@)
                        } else {
                            None
                        },
                        department: if part == Part::Crew {
                            t.text("department"@)
                        } else {
                            None
                        },
                        release_date,
                        year: year_of(release_date),
                        vote_average: t.number_key("vote_average"@),
                        vote_count: t.uint("vote_count"@).unwrap_or(0),
                        poster_path: t.text("poster_path"@),
                        backdrop_path: t.text("backdrop_path"@),
                    },
                )
            },
            None => None,
        }
}

/// The credits of a person in one of the two lists.
pub open spec fn credits_of(part: Part, person: JsonTree) -> Seq<PersonCreditView> {
    let key = match part {
        Part::Cast => "cast"@,
        Part::Crew => "crew"@,
    };
    or_none(list_at(person, "combined_credits"@, key)).filter_map(credit_reader(part))
}

/// The type of media of an item, or else the one that is given.
pub fn read_media_type(item: &Json, default: &str) -> (r: String)
    ensures
        r@ == media_type_or(item@, default@),
{
    match item.text("media_type") {
        Some(s) => s.to_owned(),
        None => default.to_owned(),
    }
}

fn read_credit(part: Part, item: &Json) -> (r: Option<PersonCreditItem>)
    ensures
        match r {
            Some(c) => credit_reader(part)(item@) == Some(c@),
            None => credit_reader(part)(item@) is None,
        },
{
    let id: u64 = match item.uint("id") {
        Some(id) => id,
        None => {
            return None;
        },
    };
    let release_date = owned_either(item, "release_date", "first_air_date");
    let year = read_year(&release_date);
    let title = match owned_either(item, "title", "name") {
        Some(s) => s,
        None => String::new(),
    };
    let (character, job, department) = match part {
        Part::Cast => (own_opt(item.text("character")), None, None),
        Part::Crew => (None, own_opt(item.text("job")), own_opt(item.text("department"))),
    };
    let vote_count: u64 = item.uint("vote_count").unwrap_or(0);
    Some(
        PersonCreditItem {
            id,
            media_type: read_media_type(item, "movie"),
            title,
            original_title: owned_either(item, "original_title", "original_name"),
            character,
            job,
            department,
            release_date,
            year,
            vote_average: item.number_key("vote_average"),
            vote_count,
            poster_path: own_opt(item.text("poster_path")),
            backdrop_path: own_opt(item.text("backdrop_path")),
        },
    )
}

fn extract_credits(part: Part, items: &Vec<Json>) -> (r: Vec<PersonCreditItem>)
    ensures
        views(r@) == trees(items@).filter_map(credit_reader(part)),
{
    let ghost all = trees(items@);
    let mut out: Vec<PersonCreditItem> = Vec::new();
    for i in 0..items.len()
        invariant
            all == trees(items@),
            views(out@) =~= all.take(i as int).filter_map(credit_reader(part)),
    {
        proof {
            all.lemma_filter_map_take_succ(credit_reader(part), i as int);
            assert(all[i as int] == items@[i as int]@);
        }
        match read_credit(part, &items[i]) {
            Some(credit) => {
                proof {
                    lemma_views_push(out@, credit);
                }
                out.push(credit);
            },
            None => {},
        }
    }
    proof {
        assert(all.take(all.len() as int) =~= all);
    }
    out
}

/// Whether the document has no biography, so that the English one is to be asked for.
pub fn needs_english_biography(person: &Json) -> (r: bool)
    ensures
        r == (real_text(person@, "biography"@) is None),
        forall|id: u64|
            r == ((#[trigger] person_details_of(id, person@, None)).biography is None),
{
    read_real_text(person, "biography").is_none()
}

/// The text under a key of the value under another key.
pub open spec fn text_at(t: JsonTree, outer: Seq<char>, inner: Seq<char>) -> Option<Seq<char>> {
    match t.get(outer) {
        Some(u) => u.text(inner),
        None => None,
    }
}

/// The text under a key of the value under another key.
pub fn read_text_at(json: &Json, outer: &str, inner: &str) -> (r: Option<String>)
    ensures
        crate::text::text_opt(r) == text_at(json@, outer@, inner@),
{
    match json.get(outer) {
        Some(j) => own_opt(j.text(inner)),
        None => None,
    }
}

/// The details of a person.
///
/// `english` is the document in English, if there is one: its biography stands in for a
/// missing one.
pub open spec fn person_details_of(
    person_id: u64,
    person: JsonTree,
    english: Option<JsonTree>,
) -> PersonDetailsView {
    PersonDetailsView {
        id: person_id,
        name: or_empty(person.text("name"@)),
        biography: real_text_or(person, english, "biography"@),
        birthday: person.text("birthday"@),
        deathday: person.text("deathday"@),
        place_of_birth: person.text("place_of_birth"@),
        known_for_department: person.text("known_for_department"@),
        profile_path: person.text("profile_path"@),
        imdb_id: text_at(person, "external_ids"@, "imdb_id"@),
        cast: credits_of(Part::Cast, person),
        crew: credits_of(Part::Crew, person),
    }
}

/// The details of a person.
pub fn person_details(person_id: u64, person: &Json, english: Option<&Json>) -> (r:
    PersonDetailsResponse)
    ensures
        r@ == person_details_of(person_id, person@, tree_opt(english)),
{
    let none: Vec<Json> = Vec::new();
    proof {
        assert(trees(none@) =~= Seq::<JsonTree>::empty());
    }
    let cast = match person.list_at("combined_credits", "cast") {
        Some(items) => extract_credits(Part::Cast, items),
        None => extract_credits(Part::Cast, &none),
    };
    let crew = match person.list_at("combined_credits", "crew") {
        Some(items) => extract_credits(Part::Crew, items),
        None => extract_credits(Part::Crew, &none),
    };
    PersonDetailsResponse {
        id: person_id,
        name: owned_or_empty(person.text("name")),
        biography: read_real_text_or(person, english, "biography"),
        birthday: own_opt(person.text("birthday")),
        deathday: own_opt(person.text("deathday")),
        place_of_birth: own_opt(person.text("place_of_birth")),
        known_for_department: own_opt(person.text("known_for_department")),
        profile_path: own_opt(person.text("profile_path")),
        imdb_id: read_text_at(person, "external_ids", "imdb_id"),
        cast,
        crew,
    }
}

/// Whether a credit is shown as the document says.
pub open spec fn is_shown_credit(credit: PersonCreditView, t: JsonTree) -> bool {
    &&& t.uint("id"@) == Some(credit.id)
    &&& t.text("media_type"@) == Some(credit.media_type) || t.text("media_type"@) is None
        && credit.media_type == "movie"@
    &&& is_either(Some(credit.title), t, "title"@, "name"@) || either_text(
        t,
        "title"@,
        "name"@,
    ) is None && credit.title.len() == 0
    &&& is_either(credit.original_title, t, "original_title"@, "original_name"@)
    &&& is_either(credit.release_date, t, "release_date"@, "first_air_date"@)
    &&& credit.year == year_of(credit.release_date)
    &&& credit.vote_average == t.number_key("vote_average"@)
    &&& t.uint("vote_count"@) == Some(credit.vote_count) || t.uint("vote_count"@) is None
        && credit.vote_count == 0
    &&& credit.poster_path == t.text("poster_path"@)
    &&& credit.backdrop_path == t.text("backdrop_path"@)
}

/// Every credit of a person with an id is shown, in the order of the document: of the cast with the
/// character, of the crew with the job and the department.
pub proof fn law_credits_are_shown_in_order(
    person_id: u64,
    person: JsonTree,
    english: Option<JsonTree>,
)
    ensures
        shows_in_order(
            or_none(list_at(person, "combined_credits"@, "cast"@)),
            person_details_of(person_id, person, english).cast,
            |t: JsonTree| t.uint("id"@) is Some,
            |credit: PersonCreditView, t: JsonTree|
                is_shown_credit(credit, t) && credit.character == t.text("character"@)
                    && credit.job is None && credit.department is None,
        ),
        shows_in_order(
            or_none(list_at(person, "combined_credits"@, "crew"@)),
            person_details_of(person_id, person, english).crew,
            |t: JsonTree| t.uint("id"@) is Some,
            |credit: PersonCreditView, t: JsonTree|
                is_shown_credit(credit, t) && credit.character is None && credit.job == t.text(
                    "job"@,
                ) && credit.department == t.text("department"@),
        ),
{
    lemma_read_in_order(
        or_none(list_at(person, "combined_credits"@, "cast"@)),
        credit_reader(Part::Cast),
        |t: JsonTree| t.uint("id"@) is Some,
        |credit: PersonCreditView, t: JsonTree|
            is_shown_credit(credit, t) && credit.character == t.text("character"@)
                && credit.job is None && credit.department is None,
    );
    lemma_read_in_order(
        or_none(list_at(person, "combined_credits"@, "crew"@)),
        credit_reader(Part::Crew),
        |t: JsonTree| t.uint("id"@) is Some,
        |credit: PersonCreditView, t: JsonTree|
            is_shown_credit(credit, t) && credit.character is None && credit.job == t.text("job"@)
                && credit.department == t.text("department"@),
    );
}

/// A person is described as the document says. A missing biography is that in English.
pub proof fn law_persons_are_described(person_id: u64, person: JsonTree, english: Option<JsonTree>)
    ensures
        ({
            let details = person_details_of(person_id, person, english);
            &&& details.id == person_id
            &&& person.text("name"@) == Some(details.name) || person.text("name"@) is None
                && details.name.len() == 0
            &&& real_text(person, "biography"@) is Some ==> details.biography == person.text(
                "biography"@,
            )
            &&& real_text(person, "biography"@) is None && english is None
                ==> details.biography is None
            &&& real_text(person, "biography"@) is None && english is Some ==> details.biography
                == real_text(english.unwrap(), "biography"@)
            &&& details.birthday == person.text("birthday"@)
            &&& details.deathday == person.text("deathday"@)
            &&& details.place_of_birth == person.text("place_of_birth"@)
            &&& details.known_for_department == person.text("known_for_department"@)
            &&& details.profile_path == person.text("profile_path"@)
            &&& person.get("external_ids"@) is None ==> details.imdb_id is None
            &&& person.get("external_ids"@) is Some ==> details.imdb_id == person.get(
                "external_ids"@,
            ).unwrap().text("imdb_id"@)
        }),
{
}

} // verus!
