//! The crew that is shown for a movie or a series.
//!
//! Creators come first, then the directors and writers of most episodes of a series, then
//! the other credits in the order of their jobs. Nobody is shown twice with one job.
use crate::json::{list_at, or_none, trees, Json, JsonTree};
use crate::lists::{lemma_views_push, views};
use crate::poster::model::{CrewMember, CrewView};
use crate::ranking::{
    descending, has_up_to, keyed_views, law_sorted_by_key, law_the_first_are_taken,
    lemma_sorted_is_from, lemma_sorted_views, ranked, sorted_by_key, take_ranked,
};
use crate::text::{
    ascii_lower, concat, eq_ignore_ascii_case, low_32, own_opt, same, same_ignoring_ascii_case,
};
use vstd::prelude::*;

verus! {

/// How many of the crew are gathered at most before the search for more ends.
pub const CREW_LIMIT: usize = 24;

/// How many directors, and how many writers, of a series are shown.
pub const EPISODIC_LIMIT: usize = 4;

// ---------------------------------------------------------------------------
// Adding without repetition
// ---------------------------------------------------------------------------

/// What tells crew members apart: the name and the job.
pub open spec fn crew_key(name: Seq<char>, job: Seq<char>) -> Seq<char> {
    name + ":"@ + job
}

/// Whether somebody of this name and job is in the crew.
pub open spec fn is_listed(crew: Seq<CrewView>, name: Seq<char>, job: Seq<char>) -> bool {
    exists|i: int|
        0 <= i < crew.len() && crew_key((#[trigger] crew[i]).name, crew[i].job) == crew_key(
            name,
            job,
        )
}

/// The crew with one member more, unless the member is in it.
pub open spec fn with_member(crew: Seq<CrewView>, member: CrewView) -> Seq<CrewView> {
    if is_listed(crew, member.name, member.job) {
        crew
    } else {
        crew.push(member)
    }
}

/// Whether no name and job occur twice in a crew.
pub open spec fn all_distinct(crew: Seq<CrewView>) -> bool {
    forall|i: int, j: int|
        0 <= i < j < crew.len() ==> crew_key((#[trigger] crew[i]).name, crew[i].job) != crew_key(
            (#[trigger] crew[j]).name,
            crew[j].job,
        )
}

fn key_of(name: &str, job: &str) -> (r: String)
    ensures
        r@ == crew_key(name@, job@),
{
    let mut key = concat(name, ":");
    key.append(job);
    key
}

fn listed(crew: &Vec<CrewMember>, name: &str, job: &str) -> (r: bool)
    ensures
        r == is_listed(views(crew@), name@, job@),
{
    let key = key_of(name, job);
    for i in 0..crew.len()
        invariant
            key@ == crew_key(name@, job@),
            forall|j: int|
                0 <= j < i ==> crew_key(
                    (#[trigger] views(crew@)[j]).name,
                    views(crew@)[j].job,
                ) != key@,
    {
        let other = key_of(crew[i].name.as_str(), crew[i].job.as_str());
        proof {
            assert(views(crew@)[i as int] == crew@[i as int]@);
        }
        if same(other.as_str(), key.as_str()) {
            return true;
        }
    }
    false
}

fn add_member(crew: &mut Vec<CrewMember>, member: CrewMember)
    ensures
        views(final(crew)@) == with_member(views(old(crew)@), member@),
{
    if !listed(crew, member.name.as_str(), member.job.as_str()) {
        proof {
            lemma_views_push(crew@, member);
        }
        crew.push(member);
    }
}

// ---------------------------------------------------------------------------
// Creators
// ---------------------------------------------------------------------------

/// A creator as a member of the crew.
pub open spec fn creator(name: Seq<char>, t: JsonTree) -> CrewView {
    CrewView {
        id: t.uint("id"@).unwrap_or(0),
        name,
        job: "Creator"@,
        department: Some("Writing"@),
        profile_path: t.text("profile_path"@),
    }
}

/// The crew with the named ones of `items` behind it as creators.
pub open spec fn with_creators(crew: Seq<CrewView>, items: Seq<JsonTree>) -> Seq<CrewView>
    decreases items.len(),
{
    if items.len() == 0 {
        crew
    } else {
        let next = match items[0].text("name"@) {
            Some(name) => with_member(crew, creator(name, items[0])),
            None => crew,
        };
        with_creators(next, items.skip(1))
    }
}

fn add_creators(crew: &mut Vec<CrewMember>, items: &Vec<Json>)
    ensures
        views(final(crew)@) == with_creators(views(old(crew)@), trees(items@)),
{
    let ghost all = trees(items@);
    proof {
        assert(all.skip(0) =~= all);
    }
    for i in 0..items.len()
        invariant
            all == trees(items@),
            with_creators(views(crew@), all.skip(i as int)) == with_creators(
                views(old(crew)@),
                all,
            ),
    {
        let item = &items[i];
        proof {
            assert(all.skip(i as int)[0] == item@);
            assert(all.skip(i as int).skip(1) =~= all.skip(i as int + 1));
        }
        match item.text("name") {
            Some(name) => {
                let id: u64 = item.uint("id").unwrap_or(0);
                add_member(
                    crew,
                    CrewMember {
                        id,
                        name: name.to_owned(),
                        job: "Creator".to_owned(),
                        department: Some("Writing".to_owned()),
                        profile_path: own_opt(item.text("profile_path")),
                    },
                );
            },
            None => {},
        }
    }
    proof {
        assert(all.skip(all.len() as int) =~= Seq::<JsonTree>::empty());
    }
}

// ---------------------------------------------------------------------------
// Directors and writers of episodes
// ---------------------------------------------------------------------------

/// The two kinds of work on single episodes.
#[derive(Debug, Clone, Copy, PartialEq, Eq, Structural)]
pub enum Episodic {
    Director,
    Writer,
}

/// Whether a job is work of this kind.
pub open spec fn is_work(kind: Episodic, job: Seq<char>) -> bool {
    match kind {
        Episodic::Director => same_ignoring_ascii_case(job, "Director"@),
        Episodic::Writer => same_ignoring_ascii_case(job, "Writer"@) || same_ignoring_ascii_case(
            job,
            "Screenplay"@,
        ),
    }
}

/// The job under which work of a kind is shown.
pub open spec fn shown_job(kind: Episodic) -> Seq<char> {
    match kind {
        Episodic::Director => "Director"@,
        Episodic::Writer => "Writer"@,
    }
}

/// The department under which work of a kind is shown.
pub open spec fn shown_department(kind: Episodic) -> Seq<char> {
    match kind {
        Episodic::Director => "Directing"@,
        Episodic::Writer => "Writing"@,
    }
}

/// For how many episodes a job was done: one, where it is not said.
pub open spec fn episodes_of(job: JsonTree) -> u32 {
    (job.uint("episode_count"@).unwrap_or(1) % 0x1_0000_0000) as u32
}

/// The name of a job, empty where it has none.
pub open spec fn job_name(job: JsonTree) -> Seq<char> {
    job.text("job"@).unwrap_or(Seq::empty())
}

/// A person who worked on episodes, as a member of the crew.
pub open spec fn episodic_member(kind: Episodic, name: Seq<char>, t: JsonTree) -> CrewView {
    CrewView {
        id: t.uint("id"@).unwrap_or(0),
        name,
        job: shown_job(kind),
        department: Some(shown_department(kind)),
        profile_path: t.text("profile_path"@),
    }
}

/// The member once for each of the jobs that is work of the kind, most episodes first by key.
pub open spec fn job_candidates(
    kind: Episodic,
    member: CrewView,
    jobs: Seq<JsonTree>,
) -> Seq<(u64, CrewView)>
    decreases jobs.len(),
{
    if jobs.len() == 0 {
        Seq::empty()
    } else if is_work(kind, job_name(jobs[0])) {
        seq![(descending(episodes_of(jobs[0]) as u64), member)] + job_candidates(
            kind,
            member,
            jobs.skip(1),
        )
    } else {
        job_candidates(kind, member, jobs.skip(1))
    }
}

/// The candidates that one entry of the credits gives.
pub open spec fn entry_candidates(kind: Episodic, t: JsonTree) -> Seq<(u64, CrewView)> {
    match t.text("name"@) {
        Some(name) => job_candidates(
            kind,
            episodic_member(kind, name, t),
            or_none(t.list("jobs"@)),
        ),
        None => Seq::empty(),
    }
}

/// The candidates for work of a kind, in the order of the credits.
pub open spec fn candidates(kind: Episodic, items: Seq<JsonTree>) -> Seq<(u64, CrewView)>
    decreases items.len(),
{
    if items.len() == 0 {
        Seq::empty()
    } else {
        entry_candidates(kind, items[0]) + candidates(kind, items.skip(1))
    }
}

fn works(kind: Episodic, job: &str) -> (r: bool)
    ensures
        r == is_work(kind, job@),
{
    match kind {
        Episodic::Director => eq_ignore_ascii_case(job, "Director"),
        Episodic::Writer => eq_ignore_ascii_case(job, "Writer") || eq_ignore_ascii_case(
            job,
            "Screenplay",
        ),
    }
}

fn episodic_entry(kind: Episodic, name: &str, item: &Json) -> (r: CrewMember)
    ensures
        r@ == episodic_member(kind, name@, item@),
{
    let id: u64 = item.uint("id").unwrap_or(0);
    let (job, department) = match kind {
        Episodic::Director => ("Director".to_owned(), "Directing".to_owned()),
        Episodic::Writer => ("Writer".to_owned(), "Writing".to_owned()),
    };
    CrewMember {
        id,
        name: name.to_owned(),
        job,
        department: Some(department),
        profile_path: own_opt(item.text("profile_path")),
    }
}

fn add_job_candidates(
    out: &mut Vec<(u64, CrewMember)>,
    kind: Episodic,
    name: &str,
    item: &Json,
    jobs: &Vec<Json>,
)
    ensures
        keyed_views(final(out)@) == keyed_views(old(out)@) + job_candidates(
            kind,
            episodic_member(kind, name@, item@),
            trees(jobs@),
        ),
{
    let ghost all = trees(jobs@);
    let ghost member = episodic_member(kind, name@, item@);
    let ghost before = keyed_views(out@);
    proof {
        assert(all.skip(0) =~= all);
    }
    for i in 0..jobs.len()
        invariant
            all == trees(jobs@),
            member == episodic_member(kind, name@, item@),
            keyed_views(out@) + job_candidates(kind, member, all.skip(i as int)) == before
                + job_candidates(kind, member, all),
    {
        let job = &jobs[i];
        let ghost held = keyed_views(out@);
        let ghost rest = all.skip(i as int + 1);
        proof {
            assert(all.skip(i as int)[0] == job@);
            assert(all.skip(i as int).skip(1) =~= rest);
        }
        let is_of_kind = match job.text("job") {
            Some(title) => works(kind, title),
            None => {
                proof {
                    reveal_strlit("Director");
                    reveal_strlit("Writer");
                    reveal_strlit("Screenplay");
                }
                false
            },
        };
        if is_of_kind {
            let episodes: u32 = low_32(job.uint("episode_count").unwrap_or(1));
            let key: u64 = u64::MAX - episodes as u64;
            let entry = (key, episodic_entry(kind, name, item));
            proof {
                assert(keyed_views(out@.push(entry)) =~= held.push((key, member)));
                assert(held.push((key, member)) + job_candidates(kind, member, rest) =~= held + (
                seq![(key, member)] + job_candidates(kind, member, rest)));
            }
            out.push(entry);
        }
    }
    proof {
        assert(all.skip(all.len() as int) =~= Seq::<JsonTree>::empty());
        assert(keyed_views(out@) + job_candidates(kind, member, all.skip(all.len() as int))
            =~= keyed_views(out@));
    }
}

fn episodic_candidates(kind: Episodic, items: &Vec<Json>) -> (r: Vec<(u64, CrewMember)>)
    ensures
        keyed_views(r@) == candidates(kind, trees(items@)),
{
    let ghost all = trees(items@);
    let mut out: Vec<(u64, CrewMember)> = Vec::new();
    proof {
        assert(all.skip(0) =~= all);
        assert(keyed_views(out@) + candidates(kind, all) =~= candidates(kind, all));
    }
    for i in 0..items.len()
        invariant
            all == trees(items@),
            keyed_views(out@) + candidates(kind, all.skip(i as int)) == candidates(kind, all),
    {
        let item = &items[i];
        let ghost held = keyed_views(out@);
        let ghost rest = all.skip(i as int + 1);
        proof {
            assert(all.skip(i as int)[0] == item@);
            assert(all.skip(i as int).skip(1) =~= rest);
            assert(held + (entry_candidates(kind, item@) + candidates(kind, rest)) =~= held
                + entry_candidates(kind, item@) + candidates(kind, rest));
            assert(held + Seq::<(u64, CrewView)>::empty() =~= held);
        }
        match item.text("name") {
            Some(name) => {
                match item.list("jobs") {
                    Some(jobs) => {
                        add_job_candidates(&mut out, kind, name, item, jobs);
                    },
                    None => {},
                }
            },
            None => {},
        }
    }
    proof {
        assert(all.skip(all.len() as int) =~= Seq::<JsonTree>::empty());
        assert(keyed_views(out@) + candidates(kind, all.skip(all.len() as int)) =~= keyed_views(
            out@,
        ));
    }
    out
}

/// The crew with more members behind it, one after the other.
pub open spec fn with_members(crew: Seq<CrewView>, members: Seq<CrewView>) -> Seq<CrewView>
    decreases members.len(),
{
    if members.len() == 0 {
        crew
    } else {
        with_members(with_member(crew, members[0]), members.skip(1))
    }
}

/// The crew with those behind it who did work of a kind for most episodes.
pub open spec fn with_episodic(
    crew: Seq<CrewView>,
    kind: Episodic,
    items: Seq<JsonTree>,
) -> Seq<CrewView> {
    with_members(crew, ranked(candidates(kind, items), EPISODIC_LIMIT as nat))
}

fn add_episodic(crew: &mut Vec<CrewMember>, kind: Episodic, items: &Vec<Json>)
    ensures
        views(final(crew)@) == with_episodic(views(old(crew)@), kind, trees(items@)),
{
    let found = episodic_candidates(kind, items);
    let ghost all = found@;
    let chosen = take_ranked(found, EPISODIC_LIMIT);
    let ghost members = chosen@;
    let ghost held = ranked(candidates(kind, trees(items@)), EPISODIC_LIMIT as nat);
    proof {
        lemma_sorted_views(all);
        assert(views(members) =~= held);
        assert(held.skip(0) =~= held);
    }
    for member in it: chosen
        invariant
            it.seq() == members,
            views(members) == held,
            with_members(views(crew@), held.skip(it.index() as int)) == with_members(
                views(old(crew)@),
                held,
            ),
    {
        proof {
            let i = it.index() as int;
            assert(held.skip(i)[0] == member@);
            assert(held.skip(i).skip(1) =~= held.skip(i + 1));
        }
        add_member(crew, member);
    }
    proof {
        assert(held.skip(held.len() as int) =~= Seq::<CrewView>::empty());
    }
}

// ---------------------------------------------------------------------------
// The other credits
// ---------------------------------------------------------------------------

/// The jobs that are shown, in the order in which they are.
pub open spec fn priority_jobs() -> Seq<Seq<char>> {
    seq![
        "Director"@,
        "Creator"@,
        "Screenplay"@,
        "Writer"@,
        "Executive Producer"@,
        "Producer"@,
        "Original Music Composer"@,
        "Director of Photography"@,
    ]
}

/// Whether somebody of this id is in the crew as creator, director or writer.
pub open spec fn is_prominent(crew: Seq<CrewView>, id: u64) -> bool {
    exists|i: int|
        0 <= i < crew.len() && (#[trigger] crew[i]).id == id && (crew[i].job == "Creator"@
            || crew[i].job == "Director"@ || crew[i].job == "Writer"@)
}

/// A credit as a member of the crew.
pub open spec fn credited(name: Seq<char>, job: Seq<char>, t: JsonTree) -> CrewView {
    CrewView {
        id: t.uint("id"@).unwrap_or(0),
        name,
        job,
        department: t.text("department"@),
        profile_path: t.text("profile_path"@),
    }
}

/// Whether a credit is left out: an executive producer who is featured already.
pub open spec fn is_featured(featured: Seq<CrewView>, job: Seq<char>, t: JsonTree) -> bool {
    same_ignoring_ascii_case(job, "Executive Producer"@) && is_prominent(
        featured,
        t.uint("id"@).unwrap_or(0),
    )
}

/// The crew with one credit behind it, if the credit is for the job asked for.
pub open spec fn with_credit(
    crew: Seq<CrewView>,
    wanted: Seq<char>,
    featured: Seq<CrewView>,
    t: JsonTree,
) -> Seq<CrewView> {
    match (t.text("job"@), t.text("name"@)) {
        (Some(job), Some(name)) => if same_ignoring_ascii_case(job, wanted) && !is_featured(
            featured,
            job,
            t,
        ) {
            with_member(crew, credited(name, job, t))
        } else {
            crew
        },
        _ => crew,
    }
}

/// The crew with the credits for one job behind it, until it is large enough.
pub open spec fn with_credits(
    crew: Seq<CrewView>,
    wanted: Seq<char>,
    featured: Seq<CrewView>,
    items: Seq<JsonTree>,
) -> Seq<CrewView>
    decreases items.len(),
{
    if items.len() == 0 {
        crew
    } else {
        let next = with_credit(crew, wanted, featured, items[0]);
        if next.len() >= CREW_LIMIT {
            next
        } else {
            with_credits(next, wanted, featured, items.skip(1))
        }
    }
}

/// The crew with the credits for some jobs behind it, job by job, until it is large enough.
pub open spec fn with_jobs(
    crew: Seq<CrewView>,
    jobs: Seq<Seq<char>>,
    featured: Seq<CrewView>,
    items: Seq<JsonTree>,
) -> Seq<CrewView>
    decreases jobs.len(),
{
    if jobs.len() == 0 {
        crew
    } else {
        let next = with_credits(crew, jobs[0], featured, items);
        if next.len() >= CREW_LIMIT {
            next
        } else {
            with_jobs(next, jobs.skip(1), featured, items)
        }
    }
}

fn prominent_ids(crew: &Vec<CrewMember>) -> (r: Vec<u64>)
    ensures
        forall|id: u64| r@.contains(id) <==> is_prominent(views(crew@), id),
{
    let mut out: Vec<u64> = Vec::new();
    for i in 0..crew.len()
        invariant
            forall|id: u64|
                out@.contains(id) <==> is_prominent(#[trigger] views(crew@).take(i as int), id),
    {
        let ghost all = views(crew@);
        let ghost held = out@;
        let job = crew[i].job.as_str();
        let is_chosen = same(job, "Creator") || same(job, "Director") || same(job, "Writer");
        if is_chosen {
            out.push(crew[i].id);
        }
        proof {
            let next = all.take(i as int + 1);
            assert(all[i as int] == crew@[i as int]@);
            assert forall|id: u64| out@.contains(id) <==> is_prominent(next, id) by {
                if is_prominent(all.take(i as int), id) {
                    let k = choose|k: int|
                        0 <= k < i && (#[trigger] all.take(i as int)[k]).id == id && (all.take(
                            i as int,
                        )[k].job == "Creator"@ || all.take(i as int)[k].job == "Director"@
                            || all.take(i as int)[k].job == "Writer"@);
                    assert(next[k] == all.take(i as int)[k]);
                }
                if is_prominent(next, id) {
                    let k = choose|k: int|
                        0 <= k <= i && (#[trigger] next[k]).id == id && (next[k].job == "Creator"@
                            || next[k].job == "Director"@ || next[k].job == "Writer"@);
                    if k < i {
                        assert(all.take(i as int)[k] == next[k]);
                    }
                }
                if out@.contains(id) && !held.contains(id) {
                    assert(next[i as int].id == id);
                }
                if held.contains(id) {
                    let k = choose|k: int| 0 <= k < held.len() && held[k] == id;
                    assert(out@[k] == id);
                }
                if is_chosen && id == crew@[i as int].id {
                    assert(out@[out@.len() - 1] == id);
                    assert(next[i as int].id == id);
                }
            }
        }
    }
    proof {
        assert(views(crew@).take(crew@.len() as int) =~= views(crew@));
    }
    out
}

fn holds(ids: &Vec<u64>, id: u64) -> (r: bool)
    ensures
        r == ids@.contains(id),
{
    for i in 0..ids.len()
        invariant
            forall|j: int| 0 <= j < i ==> ids@[j] != id,
    {
        if ids[i] == id {
            proof {
                assert(ids@[i as int] == id);
            }
            return true;
        }
    }
    false
}

fn add_credit(
    crew: &mut Vec<CrewMember>,
    wanted: &str,
    ids: &Vec<u64>,
    item: &Json,
    Ghost(featured): Ghost<Seq<CrewView>>,
)
    requires
        forall|id: u64| ids@.contains(id) <==> is_prominent(featured, id),
    ensures
        views(final(crew)@) == with_credit(views(old(crew)@), wanted@, featured, item@),
{
    match item.text("job") {
        Some(job) => {
            if eq_ignore_ascii_case(job, wanted) {
                let id: u64 = item.uint("id").unwrap_or(0);
                if eq_ignore_ascii_case(job, "Executive Producer") && holds(ids, id) {
                    return ;
                }
                match item.text("name") {
                    Some(name) => {
                        add_member(
                            crew,
                            CrewMember {
                                id,
                                name: name.to_owned(),
                                job: job.to_owned(),
                                department: own_opt(item.text("department")),
                                profile_path: own_opt(item.text("profile_path")),
                            },
                        );
                    },
                    None => {},
                }
            }
        },
        None => {},
    }
}

fn add_credits(
    crew: &mut Vec<CrewMember>,
    wanted: &str,
    ids: &Vec<u64>,
    items: &Vec<Json>,
    Ghost(featured): Ghost<Seq<CrewView>>,
)
    requires
        forall|id: u64| ids@.contains(id) <==> is_prominent(featured, id),
    ensures
        views(final(crew)@) == with_credits(views(old(crew)@), wanted@, featured, trees(items@)),
{
    let ghost all = trees(items@);
    proof {
        assert(all.skip(0) =~= all);
    }
    for i in 0..items.len()
        invariant
            all == trees(items@),
            forall|id: u64| ids@.contains(id) <==> is_prominent(featured, id),
            with_credits(views(crew@), wanted@, featured, all.skip(i as int)) == with_credits(
                views(old(crew)@),
                wanted@,
                featured,
                all,
            ),
    {
        proof {
            assert(all.skip(i as int)[0] == items@[i as int]@);
            assert(all.skip(i as int).skip(1) =~= all.skip(i as int + 1));
        }
        add_credit(crew, wanted, ids, &items[i], Ghost(featured));
        if crew.len() >= CREW_LIMIT {
            return ;
        }
    }
    proof {
        assert(all.skip(all.len() as int) =~= Seq::<JsonTree>::empty());
    }
}

fn add_jobs(crew: &mut Vec<CrewMember>, items: &Vec<Json>)
    ensures
        views(final(crew)@) == with_jobs(
            views(old(crew)@),
            priority_jobs(),
            views(old(crew)@),
            trees(items@),
        ),
{
    let ids = prominent_ids(crew);
    let ghost featured = views(crew@);
    let jobs: Vec<&'static str> = vec![
        "Director",
        "Creator",
        "Screenplay",
        "Writer",
        "Executive Producer",
        "Producer",
        "Original Music Composer",
        "Director of Photography",
    ];
    let ghost all = priority_jobs();
    proof {
        assert(all.skip(0) =~= all);
        assert forall|j: int| 0 <= j < 8 implies #[trigger] jobs@[j]@ == all[j] by {}
    }
    for i in 0..jobs.len()
        invariant
            jobs@.len() == 8,
            all == priority_jobs(),
            featured == views(old(crew)@),
            forall|j: int| 0 <= j < 8 ==> #[trigger] jobs@[j]@ == all[j],
            forall|id: u64| ids@.contains(id) <==> is_prominent(featured, id),
            with_jobs(views(crew@), all.skip(i as int), featured, trees(items@)) == with_jobs(
                views(old(crew)@),
                all,
                featured,
                trees(items@),
            ),
    {
        proof {
            assert(all.skip(i as int)[0] == jobs@[i as int]@);
            assert(all.skip(i as int).skip(1) =~= all.skip(i as int + 1));
        }
        add_credits(crew, jobs[i], &ids, items, Ghost(featured));
        if crew.len() >= CREW_LIMIT {
            return ;
        }
    }
    proof {
        assert(all.skip(8) =~= Seq::<Seq<char>>::empty());
    }
}

// ---------------------------------------------------------------------------
// The whole crew
// ---------------------------------------------------------------------------

/// Those of the crew who come first: the creators, then the directors and writers of most episodes
/// of a series.
pub open spec fn featured_crew(is_tv: bool, details: JsonTree) -> Seq<CrewView> {
    let created = with_creators(Seq::empty(), or_none(details.list("created_by"@)));
    let episodic = or_none(list_at(details, "aggregate_credits"@, "crew"@));
    if is_tv {
        with_episodic(
            with_episodic(created, Episodic::Director, episodic),
            Episodic::Writer,
            episodic,
        )
    } else {
        created
    }
}

/// The crew of a movie or a series, by its details.
pub open spec fn crew_of(is_tv: bool, details: JsonTree) -> Seq<CrewView> {
    with_jobs(
        featured_crew(is_tv, details),
        priority_jobs(),
        featured_crew(is_tv, details),
        or_none(list_at(details, "credits"@, "crew"@)),
    )
}

/// The crew of a movie or a series, by its details.
pub fn extract_crew(is_tv: bool, details: &Json) -> (r: Vec<CrewMember>)
    ensures
        views(r@) == crew_of(is_tv, details@),
{
    let none: Vec<Json> = Vec::new();
    let mut crew: Vec<CrewMember> = Vec::new();
    proof {
        assert(trees(none@) =~= Seq::<JsonTree>::empty());
        assert(views(crew@) =~= Seq::<CrewView>::empty());
    }
    let creators = match details.list("created_by") {
        Some(items) => items,
        None => &none,
    };
    add_creators(&mut crew, creators);
    if is_tv {
        let episodic = match details.list_at("aggregate_credits", "crew") {
            Some(items) => items,
            None => &none,
        };
        add_episodic(&mut crew, Episodic::Director, episodic);
        add_episodic(&mut crew, Episodic::Writer, episodic);
    }
    let credits = match details.list_at("credits", "crew") {
        Some(items) => items,
        None => &none,
    };
    add_jobs(&mut crew, credits);
    crew
}

// ---------------------------------------------------------------------------
// Nobody twice
// ---------------------------------------------------------------------------

proof fn lemma_with_member_distinct(crew: Seq<CrewView>, member: CrewView)
    requires
        all_distinct(crew),
    ensures
        all_distinct(with_member(crew, member)),
{
    if !is_listed(crew, member.name, member.job) {
        let next = crew.push(member);
        assert forall|i: int, j: int| 0 <= i < j < next.len() implies crew_key(
            (#[trigger] next[i]).name,
            next[i].job,
        ) != crew_key((#[trigger] next[j]).name, next[j].job) by {
            assert(next[i] == crew[i]);
            if j < crew.len() {
                assert(next[j] == crew[j]);
            }
        }
    }
}

proof fn lemma_with_creators_distinct(crew: Seq<CrewView>, items: Seq<JsonTree>)
    requires
        all_distinct(crew),
    ensures
        all_distinct(with_creators(crew, items)),
    decreases items.len(),
{
    if items.len() > 0 {
        match items[0].text("name"@) {
            Some(name) => {
                lemma_with_member_distinct(crew, creator(name, items[0]));
                lemma_with_creators_distinct(
                    with_member(crew, creator(name, items[0])),
                    items.skip(1),
                );
            },
            None => {
                lemma_with_creators_distinct(crew, items.skip(1));
            },
        }
    }
}

proof fn lemma_with_members_distinct(crew: Seq<CrewView>, members: Seq<CrewView>)
    requires
        all_distinct(crew),
    ensures
        all_distinct(with_members(crew, members)),
    decreases members.len(),
{
    if members.len() > 0 {
        lemma_with_member_distinct(crew, members[0]);
        lemma_with_members_distinct(with_member(crew, members[0]), members.skip(1));
    }
}

proof fn lemma_with_credits_distinct(
    crew: Seq<CrewView>,
    wanted: Seq<char>,
    featured: Seq<CrewView>,
    items: Seq<JsonTree>,
)
    requires
        all_distinct(crew),
    ensures
        all_distinct(with_credits(crew, wanted, featured, items)),
    decreases items.len(),
{
    if items.len() > 0 {
        let t = items[0];
        match (t.text("job"@), t.text("name"@)) {
            (Some(job), Some(name)) => {
                lemma_with_member_distinct(crew, credited(name, job, t));
            },
            _ => {},
        }
        lemma_with_credits_distinct(
            with_credit(crew, wanted, featured, t),
            wanted,
            featured,
            items.skip(1),
        );
    }
}

proof fn lemma_with_jobs_distinct(
    crew: Seq<CrewView>,
    jobs: Seq<Seq<char>>,
    featured: Seq<CrewView>,
    items: Seq<JsonTree>,
)
    requires
        all_distinct(crew),
    ensures
        all_distinct(with_jobs(crew, jobs, featured, items)),
    decreases jobs.len(),
{
    if jobs.len() > 0 {
        lemma_with_credits_distinct(crew, jobs[0], featured, items);
        lemma_with_jobs_distinct(
            with_credits(crew, jobs[0], featured, items),
            jobs.skip(1),
            featured,
            items,
        );
    }
}

/// No name and job stand twice in the crew of a movie or a series.
pub proof fn law_crew_is_distinct(is_tv: bool, details: JsonTree)
    ensures
        all_distinct(crew_of(is_tv, details)),
{
    let created = with_creators(Seq::empty(), or_none(details.list("created_by"@)));
    let episodic = or_none(list_at(details, "aggregate_credits"@, "crew"@));
    lemma_with_creators_distinct(Seq::empty(), or_none(details.list("created_by"@)));
    if is_tv {
        lemma_with_members_distinct(
            created,
            ranked(candidates(Episodic::Director, episodic), EPISODIC_LIMIT as nat),
        );
        lemma_with_members_distinct(
            with_episodic(created, Episodic::Director, episodic),
            ranked(candidates(Episodic::Writer, episodic), EPISODIC_LIMIT as nat),
        );
    }
    lemma_with_jobs_distinct(
        featured_crew(is_tv, details),
        priority_jobs(),
        featured_crew(is_tv, details),
        or_none(list_at(details, "credits"@, "crew"@)),
    );
}

// ---------------------------------------------------------------------------
// Who comes first, and who is left out
// ---------------------------------------------------------------------------

/// Whether a crew is another with credits behind it, none of which is left out.
pub open spec fn extends(crew: Seq<CrewView>, featured: Seq<CrewView>) -> bool {
    &&& featured.len() <= crew.len()
    &&& crew.take(featured.len() as int) == featured
    &&& forall|i: int|
        featured.len() <= i < crew.len() ==> !(same_ignoring_ascii_case(
            (#[trigger] crew[i]).job,
            "Executive Producer"@,
        ) && is_prominent(featured, crew[i].id))
}

proof fn lemma_with_credit_extends(
    crew: Seq<CrewView>,
    wanted: Seq<char>,
    featured: Seq<CrewView>,
    t: JsonTree,
)
    requires
        extends(crew, featured),
    ensures
        extends(with_credit(crew, wanted, featured, t), featured),
        with_credit(crew, wanted, featured, t).len() <= crew.len() + 1,
{
    let next = with_credit(crew, wanted, featured, t);
    if next != crew {
        assert(next.take(featured.len() as int) =~= crew.take(featured.len() as int));
        assert(forall|i: int| 0 <= i < crew.len() ==> #[trigger] next[i] == crew[i]);
    }
}

proof fn lemma_with_credits_extends(
    crew: Seq<CrewView>,
    wanted: Seq<char>,
    featured: Seq<CrewView>,
    items: Seq<JsonTree>,
)
    requires
        extends(crew, featured),
    ensures
        extends(with_credits(crew, wanted, featured, items), featured),
        crew.len() < CREW_LIMIT ==> with_credits(crew, wanted, featured, items).len() <= CREW_LIMIT,
    decreases items.len(),
{
    if items.len() > 0 {
        let next = with_credit(crew, wanted, featured, items[0]);
        lemma_with_credit_extends(crew, wanted, featured, items[0]);
        lemma_with_credits_extends(next, wanted, featured, items.skip(1));
    }
}

proof fn lemma_with_jobs_extends(
    crew: Seq<CrewView>,
    jobs: Seq<Seq<char>>,
    featured: Seq<CrewView>,
    items: Seq<JsonTree>,
)
    requires
        extends(crew, featured),
    ensures
        extends(with_jobs(crew, jobs, featured, items), featured),
        crew.len() < CREW_LIMIT ==> with_jobs(crew, jobs, featured, items).len() <= CREW_LIMIT,
    decreases jobs.len(),
{
    if jobs.len() > 0 {
        let next = with_credits(crew, jobs[0], featured, items);
        lemma_with_credits_extends(crew, jobs[0], featured, items);
        lemma_with_jobs_extends(next, jobs.skip(1), featured, items);
    }
}

/// Those who are featured come first, nobody behind them is an executive producer who is creator,
/// director or writer among them, and the crew does not grow beyond its limit: where those who are
/// featured do not reach it, nobody is shown beyond it.
pub proof fn law_featured_come_first(is_tv: bool, details: JsonTree)
    ensures
        extends(crew_of(is_tv, details), featured_crew(is_tv, details)),
        featured_crew(is_tv, details).len() < CREW_LIMIT ==> crew_of(is_tv, details).len()
            <= CREW_LIMIT,
{
    let featured = featured_crew(is_tv, details);
    assert(featured.take(featured.len() as int) =~= featured);
    lemma_with_jobs_extends(
        featured,
        priority_jobs(),
        featured,
        or_none(list_at(details, "credits"@, "crew"@)),
    );
}

// ---------------------------------------------------------------------------
// Who is shown
// ---------------------------------------------------------------------------

/// Whether a job is, but for the case of its ASCII letters, the one that comes at a given place among
/// the jobs that are shown.
pub open spec fn is_job_at(place: int, job: Seq<char>) -> bool {
    ||| place == 0 && same_ignoring_ascii_case(job, "Director"@)
    ||| place == 1 && same_ignoring_ascii_case(job, "Creator"@)
    ||| place == 2 && same_ignoring_ascii_case(job, "Screenplay"@)
    ||| place == 3 && same_ignoring_ascii_case(job, "Writer"@)
    ||| place == 4 && same_ignoring_ascii_case(job, "Executive Producer"@)
    ||| place == 5 && same_ignoring_ascii_case(job, "Producer"@)
    ||| place == 6 && same_ignoring_ascii_case(job, "Original Music Composer"@)
    ||| place == 7 && same_ignoring_ascii_case(job, "Director of Photography"@)
}

/// Whether somebody of this name with this job is in the crew.
pub open spec fn is_shown(crew: Seq<CrewView>, name: Seq<char>, job: Seq<char>) -> bool {
    exists|i: int| 0 <= i < crew.len() && (#[trigger] crew[i]).name == name && crew[i].job == job
}

/// Whether somebody of this id is in the crew.
pub open spec fn is_there(crew: Seq<CrewView>, id: u64) -> bool {
    exists|i: int| 0 <= i < crew.len() && (#[trigger] crew[i]).id == id
}

/// Whether a member of the crew is what a credit says.
pub open spec fn is_credit(member: CrewView, t: JsonTree) -> bool {
    &&& t.text("name"@) == Some(member.name)
    &&& t.text("job"@) == Some(member.job)
    &&& t.uint("id"@) == Some(member.id) || t.uint("id"@) is None && member.id == 0
    &&& member.department == t.text("department"@)
    &&& member.profile_path == t.text("profile_path"@)
}

/// Whether one crew is the beginning of another.
spec fn begins(crew: Seq<CrewView>, next: Seq<CrewView>) -> bool {
    &&& crew.len() <= next.len()
    &&& forall|i: int| 0 <= i < crew.len() ==> #[trigger] next[i] == crew[i]
}

/// Whether no job of a crew has a colon in it.
spec fn plain_jobs(crew: Seq<CrewView>) -> bool {
    forall|i: int| 0 <= i < crew.len() ==> !(#[trigger] crew[i]).job.contains(':')
}

proof fn lemma_listed_later(
    crew: Seq<CrewView>,
    next: Seq<CrewView>,
    name: Seq<char>,
    job: Seq<char>,
)
    requires
        begins(crew, next),
        is_listed(crew, name, job),
    ensures
        is_listed(next, name, job),
{
    let i = choose|i: int|
        0 <= i < crew.len() && crew_key((#[trigger] crew[i]).name, crew[i].job) == crew_key(
            name,
            job,
        );
    assert(next[i] == crew[i]);
}

proof fn lemma_with_member(crew: Seq<CrewView>, member: CrewView)
    ensures
        begins(crew, with_member(crew, member)),
        with_member(crew, member).len() <= crew.len() + 1,
        with_member(crew, member).len() > crew.len() ==> with_member(crew, member)[crew.len() as int]
            == member,
        is_listed(with_member(crew, member), member.name, member.job),
        plain_jobs(crew) && !member.job.contains(':') ==> plain_jobs(with_member(crew, member)),
{
    let next = with_member(crew, member);
    if !is_listed(crew, member.name, member.job) {
        assert(next[crew.len() as int] == member);
    }
}

/// A key tells the name and the job, where the jobs have no colon.
proof fn lemma_keys_tell(name: Seq<char>, job: Seq<char>, other: Seq<char>, work: Seq<char>)
    requires
        crew_key(name, job) == crew_key(other, work),
        !job.contains(':'),
        !work.contains(':'),
    ensures
        name == other,
        job == work,
{
    reveal_strlit(":");
    let a = crew_key(name, job);
    assert(a[name.len() as int] == ':');
    assert(crew_key(other, work)[other.len() as int] == ':');
    assert(a.len() == name.len() + 1 + job.len());
    assert(crew_key(other, work).len() == other.len() + 1 + work.len());
    if name.len() < other.len() {
        assert(a[other.len() as int] == job[other.len() - name.len() - 1]);
    } else if other.len() < name.len() {
        assert(crew_key(other, work)[name.len() as int] == work[name.len() - other.len() - 1]);
    }
    assert(a.take(name.len() as int) =~= name);
    assert(crew_key(other, work).take(other.len() as int) =~= other);
    assert(a.skip(name.len() as int + 1) =~= job);
    assert(crew_key(other, work).skip(other.len() as int + 1) =~= work);
}

proof fn lemma_listed_is_shown(crew: Seq<CrewView>, name: Seq<char>, job: Seq<char>)
    requires
        plain_jobs(crew),
        !job.contains(':'),
        is_listed(crew, name, job),
    ensures
        is_shown(crew, name, job),
{
    let i = choose|i: int|
        0 <= i < crew.len() && crew_key((#[trigger] crew[i]).name, crew[i].job) == crew_key(
            name,
            job,
        );
    lemma_keys_tell(crew[i].name, crew[i].job, name, job);
}

/// A job at one of the places has no colon in it, and no other place.
proof fn lemma_places(place: int, other: int, job: Seq<char>)
    requires
        is_job_at(place, job),
    ensures
        !job.contains(':'),
        is_job_at(other, job) ==> other == place,
        0 <= place < 8,
{
    reveal_strlit("Director");
    reveal_strlit("Creator");
    reveal_strlit("Screenplay");
    reveal_strlit("Writer");
    reveal_strlit("Executive Producer");
    reveal_strlit("Producer");
    reveal_strlit("Original Music Composer");
    reveal_strlit("Director of Photography");
    if job.contains(':') {
        let i = choose|i: int| 0 <= i < job.len() && job[i] == ':';
        assert(ascii_lower(job[i]) == ':');
    }
    assert(ascii_lower('D') != ascii_lower('P'));
    assert(ascii_lower('D') != ascii_lower('O'));
    assert(same_ignoring_ascii_case(job, "Director"@) ==> ascii_lower(job[0]) == ascii_lower('D'));
    assert(same_ignoring_ascii_case(job, "Producer"@) ==> ascii_lower(job[0]) == ascii_lower('P'));
    assert(same_ignoring_ascii_case(job, "Original Music Composer"@) ==> ascii_lower(job[0])
        == ascii_lower('O'));
    assert(same_ignoring_ascii_case(job, "Director of Photography"@) ==> ascii_lower(job[0])
        == ascii_lower('D'));
}

#[verifier::spinoff_prover]
proof fn lemma_with_credits(
    crew: Seq<CrewView>,
    wanted: Seq<char>,
    featured: Seq<CrewView>,
    items: Seq<JsonTree>,
)
    ensures
        begins(crew, with_credits(crew, wanted, featured, items)),
        forall|i: int|
            #![trigger with_credits(crew, wanted, featured, items)[i]]
            crew.len() <= i < with_credits(crew, wanted, featured, items).len() ==> {
                &&& same_ignoring_ascii_case(
                    with_credits(crew, wanted, featured, items)[i].job,
                    wanted,
                )
                &&& exists|k: int|
                    0 <= k < items.len() && is_credit(
                        with_credits(crew, wanted, featured, items)[i],
                        #[trigger] items[k],
                    )
            },
        with_credits(crew, wanted, featured, items).len() < 24 ==> forall|k: int|
            #![trigger items[k]]
            0 <= k < items.len() && items[k].text("name"@) is Some && items[k].text("job"@) is Some
                && same_ignoring_ascii_case(items[k].text("job"@).unwrap(), wanted)
                && !is_featured(featured, items[k].text("job"@).unwrap(), items[k]) ==> is_listed(
                with_credits(crew, wanted, featured, items),
                items[k].text("name"@).unwrap(),
                items[k].text("job"@).unwrap(),
            ),
    decreases items.len(),
{
    let whole = with_credits(crew, wanted, featured, items);
    if items.len() > 0 {
        let t = items[0];
        let next = with_credit(crew, wanted, featured, t);
        match (t.text("job"@), t.text("name"@)) {
            (Some(job), Some(name)) => {
                lemma_with_member(crew, credited(name, job, t));
            },
            _ => {},
        }
        let rest = items.skip(1);
        assert(next.len() > crew.len() ==> is_credit(next[crew.len() as int], items[0]));
        if next.len() < CREW_LIMIT {
            lemma_with_credits(next, wanted, featured, rest);
            assert forall|i: int|
                #![trigger whole[i]]
                crew.len() <= i < whole.len() implies same_ignoring_ascii_case(whole[i].job, wanted)
                && exists|k: int|
                0 <= k < items.len() && is_credit(whole[i], #[trigger] items[k]) by {
                if i < next.len() {
                    assert(whole[i] == next[i]);
                    assert(is_credit(whole[i], items[0]));
                } else {
                    let k = choose|k: int|
                        0 <= k < rest.len() && is_credit(whole[i], #[trigger] rest[k]);
                    assert(items[k + 1] == rest[k]);
                }
            }
            if whole.len() < 24 {
                assert forall|k: int|
                    #![trigger items[k]]
                    0 <= k < items.len() && items[k].text("name"@) is Some && items[k].text(
                        "job"@,
                    ) is Some && same_ignoring_ascii_case(
                        items[k].text("job"@).unwrap(),
                        wanted,
                    ) && !is_featured(
                        featured,
                        items[k].text("job"@).unwrap(),
                        items[k],
                    ) implies is_listed(
                    whole,
                    items[k].text("name"@).unwrap(),
                    items[k].text("job"@).unwrap(),
                ) by {
                    let name = items[k].text("name"@).unwrap();
                    let job = items[k].text("job"@).unwrap();
                    if k == 0 {
                        assert(is_listed(next, name, job));
                        lemma_listed_later(next, whole, name, job);
                    } else {
                        assert(rest[k - 1] == items[k]);
                    }
                }
            }
        } else {
            assert forall|i: int|
                #![trigger whole[i]]
                crew.len() <= i < whole.len() implies same_ignoring_ascii_case(whole[i].job, wanted)
                && exists|k: int|
                0 <= k < items.len() && is_credit(whole[i], #[trigger] items[k]) by {
                assert(is_credit(whole[i], items[0]));
            }
        }
    }
}

/// The places, in a list of jobs, of the jobs of those behind a crew: they do not descend.
#[verifier::spinoff_prover]
proof fn lemma_with_jobs(
    crew: Seq<CrewView>,
    jobs: Seq<Seq<char>>,
    featured: Seq<CrewView>,
    items: Seq<JsonTree>,
) -> (places: Seq<int>)
    ensures
        begins(crew, with_jobs(crew, jobs, featured, items)),
        places.len() == with_jobs(crew, jobs, featured, items).len() - crew.len(),
        forall|i: int|
            0 <= i < places.len() ==> 0 <= #[trigger] places[i] < jobs.len()
                && same_ignoring_ascii_case(
                with_jobs(crew, jobs, featured, items)[crew.len() + i].job,
                jobs[places[i]],
            ),
        forall|i: int, j: int|
            0 <= i <= j < places.len() ==> #[trigger] places[i] <= #[trigger] places[j],
        forall|i: int|
            #![trigger with_jobs(crew, jobs, featured, items)[i]]
            crew.len() <= i < with_jobs(crew, jobs, featured, items).len() ==> exists|k: int|
                0 <= k < items.len() && is_credit(
                    with_jobs(crew, jobs, featured, items)[i],
                    #[trigger] items[k],
                ),
        with_jobs(crew, jobs, featured, items).len() < 24 ==> forall|k: int, p: int|
            #![trigger items[k], jobs[p]]
            0 <= k < items.len() && 0 <= p < jobs.len() && items[k].text("name"@) is Some
                && items[k].text("job"@) is Some && same_ignoring_ascii_case(
                items[k].text("job"@).unwrap(),
                jobs[p],
            ) && !is_featured(featured, items[k].text("job"@).unwrap(), items[k]) ==> is_listed(
                with_jobs(crew, jobs, featured, items),
                items[k].text("name"@).unwrap(),
                items[k].text("job"@).unwrap(),
            ),
    decreases jobs.len(),
{
    let whole = with_jobs(crew, jobs, featured, items);
    if jobs.len() == 0 {
        Seq::empty()
    } else {
        let next = with_credits(crew, jobs[0], featured, items);
        lemma_with_credits(crew, jobs[0], featured, items);
        let first = Seq::new((next.len() - crew.len()) as nat, |i: int| 0int);
        if next.len() >= CREW_LIMIT {
            first
        } else {
            let rest = jobs.skip(1);
            let later = lemma_with_jobs(next, rest, featured, items);
            let places = first + Seq::new(later.len(), |i: int| later[i] + 1);
            assert forall|i: int| 0 <= i < places.len() implies 0 <= #[trigger] places[i]
                < jobs.len() && same_ignoring_ascii_case(
                whole[crew.len() + i].job,
                jobs[places[i]],
            ) by {
                if i < first.len() {
                    assert(whole[crew.len() + i] == next[crew.len() + i]);
                } else {
                    let j = i - first.len();
                    assert(0 <= later[j] < rest.len());
                    assert(places[i] == later[j] + 1);
                    assert(jobs[places[i]] == rest[later[j]]);
                    assert(whole[crew.len() + i] == whole[next.len() + j]);
                }
            }
            assert forall|i: int|
                #![trigger whole[i]]
                crew.len() <= i < whole.len() implies exists|k: int|
                0 <= k < items.len() && is_credit(whole[i], #[trigger] items[k]) by {
                if i < next.len() {
                    assert(whole[i] == next[i]);
                }
            }
            if whole.len() < 24 {
                assert forall|k: int, p: int|
                    #![trigger items[k], jobs[p]]
                    0 <= k < items.len() && 0 <= p < jobs.len() && items[k].text("name"@) is Some
                        && items[k].text("job"@) is Some && same_ignoring_ascii_case(
                        items[k].text("job"@).unwrap(),
                        jobs[p],
                    ) && !is_featured(
                        featured,
                        items[k].text("job"@).unwrap(),
                        items[k],
                    ) implies is_listed(
                    whole,
                    items[k].text("name"@).unwrap(),
                    items[k].text("job"@).unwrap(),
                ) by {
                    let name = items[k].text("name"@).unwrap();
                    let job = items[k].text("job"@).unwrap();
                    if p == 0 {
                        lemma_listed_later(next, whole, name, job);
                    } else {
                        assert(rest[p - 1] == jobs[p]);
                    }
                }
            }
            places
        }
    }
}

proof fn lemma_creators(crew: Seq<CrewView>, items: Seq<JsonTree>)
    requires
        plain_jobs(crew),
    ensures
        begins(crew, with_creators(crew, items)),
        plain_jobs(with_creators(crew, items)),
        forall|i: int|
            crew.len() <= i < with_creators(crew, items).len() ==> (#[trigger] with_creators(
                crew,
                items,
            )[i]).job == "Creator"@,
        forall|k: int|
            0 <= k < items.len() && (#[trigger] items[k]).text("name"@) is Some ==> is_listed(
                with_creators(crew, items),
                items[k].text("name"@).unwrap(),
                "Creator"@,
            ),
    decreases items.len(),
{
    let whole = with_creators(crew, items);
    if items.len() > 0 {
        reveal_strlit("Creator");
        let rest = items.skip(1);
        let next = match items[0].text("name"@) {
            Some(name) => with_member(crew, creator(name, items[0])),
            None => crew,
        };
        match items[0].text("name"@) {
            Some(name) => {
                lemma_with_member(crew, creator(name, items[0]));
            },
            None => {},
        }
        lemma_creators(next, rest);
        assert forall|k: int|
            0 <= k < items.len() && (#[trigger] items[k]).text("name"@) is Some implies is_listed(
            whole,
            items[k].text("name"@).unwrap(),
            "Creator"@,
        ) by {
            if k == 0 {
                lemma_listed_later(next, whole, items[k].text("name"@).unwrap(), "Creator"@);
            } else {
                assert(rest[k - 1] == items[k]);
            }
        }
        assert forall|i: int| crew.len() <= i < whole.len() implies (#[trigger] whole[i]).job
            == "Creator"@ by {
            if i < next.len() {
                assert(whole[i] == next[i]);
            }
        }
    }
}

proof fn lemma_with_members(crew: Seq<CrewView>, members: Seq<CrewView>)
    ensures
        begins(crew, with_members(crew, members)),
        forall|i: int|
            crew.len() <= i < with_members(crew, members).len() ==> members.contains(
                #[trigger] with_members(crew, members)[i],
            ),
        forall|k: int|
            0 <= k < members.len() ==> is_listed(
                with_members(crew, members),
                (#[trigger] members[k]).name,
                members[k].job,
            ),
    decreases members.len(),
{
    let whole = with_members(crew, members);
    if members.len() > 0 {
        let next = with_member(crew, members[0]);
        let rest = members.skip(1);
        lemma_with_member(crew, members[0]);
        lemma_with_members(next, rest);
        assert forall|k: int| 0 <= k < members.len() implies is_listed(
            whole,
            (#[trigger] members[k]).name,
            members[k].job,
        ) by {
            if k == 0 {
                lemma_listed_later(next, whole, members[k].name, members[k].job);
            } else {
                assert(rest[k - 1] == members[k]);
            }
        }
        assert forall|i: int| crew.len() <= i < whole.len() implies members.contains(
            #[trigger] whole[i],
        ) by {
            if i < next.len() {
                assert(whole[i] == next[i]);
                assert(members[0] == whole[i]);
            } else {
                let k = choose|k: int| 0 <= k < rest.len() && rest[k] == whole[i];
                assert(members[k + 1] == whole[i]);
            }
        }
    }
}

/// Whether a member is one of the credits, shown under the name of work on episodes, who did it for a
/// number of episodes.
pub open spec fn did_work(
    kind: Episodic,
    member: CrewView,
    items: Seq<JsonTree>,
    episodes: u32,
) -> bool {
    exists|i: int, j: int|
        #![trigger or_none(items[i].list("jobs"@))[j]]
        0 <= i < items.len() && 0 <= j < or_none(items[i].list("jobs"@)).len() && is_worker(
            kind,
            member,
            items[i],
            or_none(items[i].list("jobs"@))[j],
            episodes,
        )
}

/// Whether a member is shown as the credit `t` says, for its job `job` on a number of episodes.
pub open spec fn is_worker(
    kind: Episodic,
    member: CrewView,
    t: JsonTree,
    job: JsonTree,
    episodes: u32,
) -> bool {
    &&& t.text("name"@) == Some(member.name)
    &&& t.uint("id"@) == Some(member.id) || t.uint("id"@) is None && member.id == 0
    &&& member.profile_path == t.text("profile_path"@)
    &&& job.text("job"@) is Some
    &&& job.uint("episode_count"@) is None ==> episodes == 1
    &&& job.uint("episode_count"@) is Some && job.uint("episode_count"@).unwrap() <= u32::MAX ==> job.uint(
        "episode_count"@,
    ) == Some(episodes as u64)
    &&& match kind {
        Episodic::Director => {
            &&& same_ignoring_ascii_case(job.text("job"@).unwrap(), "Director"@)
            &&& member.job == "Director"@
            &&& member.department == Some("Directing"@)
        },
        Episodic::Writer => {
            &&& same_ignoring_ascii_case(job.text("job"@).unwrap(), "Writer"@)
                || same_ignoring_ascii_case(job.text("job"@).unwrap(), "Screenplay"@)
            &&& member.job == "Writer"@
            &&& member.department == Some("Writing"@)
        },
    }
}

/// Whether a member is one of the credits who did work on episodes for at least so many of them.
pub open spec fn did_at_least(
    kind: Episodic,
    member: CrewView,
    items: Seq<JsonTree>,
    episodes: u32,
) -> bool {
    exists|e: u32| e >= episodes && #[trigger] did_work(kind, member, items, e)
}

/// Whether a member is shown as a creator as the entry `t` says.
pub open spec fn is_creator(member: CrewView, t: JsonTree) -> bool {
    &&& t.text("name"@) == Some(member.name)
    &&& t.uint("id"@) == Some(member.id) || t.uint("id"@) is None && member.id == 0
    &&& member.profile_path == t.text("profile_path"@)
    &&& member.job == "Creator"@
    &&& member.department == Some("Writing"@)
}

proof fn lemma_creators_are_given(crew: Seq<CrewView>, items: Seq<JsonTree>, i: int)
    requires
        crew.len() <= i < with_creators(crew, items).len(),
        plain_jobs(crew),
    ensures
        exists|k: int|
            0 <= k < items.len() && is_creator(with_creators(crew, items)[i], #[trigger] items[k]),
    decreases items.len(),
{
    if items.len() > 0 {
        reveal_strlit("Creator");
        let whole = with_creators(crew, items);
        let rest = items.skip(1);
        let next = match items[0].text("name"@) {
            Some(name) => with_member(crew, creator(name, items[0])),
            None => crew,
        };
        match items[0].text("name"@) {
            Some(name) => {
                lemma_with_member(crew, creator(name, items[0]));
            },
            None => {},
        }
        lemma_creators(next, rest);
        if i < next.len() {
            assert(whole[i] == next[i]);
            assert(is_creator(whole[i], items[0]));
        } else {
            lemma_creators_are_given(next, rest, i);
            let k = choose|k: int| 0 <= k < rest.len() && is_creator(whole[i], #[trigger] rest[k]);
            assert(items[k + 1] == rest[k]);
        }
    }
}

/// Whether a candidate is the member, with the key that a job of the kind gives it.
spec fn is_candidate(
    kind: Episodic,
    member: CrewView,
    job: JsonTree,
    candidate: (u64, CrewView),
) -> bool {
    &&& is_work(kind, job_name(job))
    &&& candidate.0 == u64::MAX - episodes_of(job)
    &&& candidate.1 == member
}

proof fn lemma_job_candidates(kind: Episodic, member: CrewView, jobs: Seq<JsonTree>)
    ensures
        forall|c: int|
            #![trigger job_candidates(kind, member, jobs)[c]]
            0 <= c < job_candidates(kind, member, jobs).len() ==> exists|j: int|
                0 <= j < jobs.len() && is_candidate(
                    kind,
                    member,
                    #[trigger] jobs[j],
                    job_candidates(kind, member, jobs)[c],
                ),
        forall|j: int|
            0 <= j < jobs.len() && is_work(kind, job_name(#[trigger] jobs[j])) ==> job_candidates(
                kind,
                member,
                jobs,
            ).contains(((u64::MAX - episodes_of(jobs[j])) as u64, member)),
    decreases jobs.len(),
{
    let whole = job_candidates(kind, member, jobs);
    if jobs.len() > 0 {
        let rest = jobs.skip(1);
        let behind = job_candidates(kind, member, rest);
        lemma_job_candidates(kind, member, rest);
        let n: int = if is_work(kind, job_name(jobs[0])) {
            1
        } else {
            0
        };
        assert(forall|c: int| 0 <= c < behind.len() ==> #[trigger] behind[c] == whole[c + n]);
        assert forall|c: int| #![trigger whole[c]] 0 <= c < whole.len() implies exists|j: int|
            0 <= j < jobs.len() && is_candidate(kind, member, #[trigger] jobs[j], whole[c]) by {
            if c < n {
                assert(is_candidate(kind, member, jobs[0], whole[c]));
            } else {
                assert(whole[c] == behind[c - n]);
                let j = choose|j: int|
                    0 <= j < rest.len() && is_candidate(
                        kind,
                        member,
                        #[trigger] rest[j],
                        behind[c - n],
                    );
                assert(jobs[j + 1] == rest[j]);
            }
        }
        assert forall|j: int|
            0 <= j < jobs.len() && is_work(
                kind,
                job_name(#[trigger] jobs[j]),
            ) implies whole.contains(((u64::MAX - episodes_of(jobs[j])) as u64, member)) by {
            let wanted = ((u64::MAX - episodes_of(jobs[j])) as u64, member);
            if j == 0 {
                assert(whole[0] == wanted);
            } else {
                assert(rest[j - 1] == jobs[j]);
                let c = choose|c: int| 0 <= c < behind.len() && behind[c] == wanted;
                assert(whole[c + n] == wanted);
            }
        }
    }
}

/// A job of a kind is named as such, and counts for as many episodes as it says.
proof fn lemma_is_worker(kind: Episodic, name: Seq<char>, t: JsonTree, job: JsonTree)
    requires
        t.text("name"@) == Some(name),
    ensures
        is_work(kind, job_name(job)) ==> is_worker(
            kind,
            episodic_member(kind, name, t),
            t,
            job,
            episodes_of(job),
        ),
        forall|member: CrewView, n: u32|
            #[trigger] is_worker(kind, member, t, job, n) && (job.uint("episode_count"@) is None
                || job.uint("episode_count"@).unwrap() <= u32::MAX) ==> is_work(kind, job_name(job))
                && member == episodic_member(kind, name, t) && n == episodes_of(job),
{
    reveal_strlit("Director");
    reveal_strlit("Writer");
    reveal_strlit("Screenplay");
}

#[verifier::spinoff_prover]
proof fn lemma_candidates(kind: Episodic, items: Seq<JsonTree>)
    ensures
        forall|c: int|
            #![trigger candidates(kind, items)[c]]
            0 <= c < candidates(kind, items).len() ==> candidates(kind, items)[c].0
                >= u64::MAX - u32::MAX && did_work(
                kind,
                candidates(kind, items)[c].1,
                items,
                (u64::MAX - candidates(kind, items)[c].0) as u32,
            ),
        forall|i: int, j: int|
            #![trigger or_none(items[i].list("jobs"@))[j]]
            0 <= i < items.len() && 0 <= j < or_none(items[i].list("jobs"@)).len() && is_work(
                kind,
                job_name(or_none(items[i].list("jobs"@))[j]),
            ) && items[i].text("name"@) is Some ==> candidates(kind, items).contains(
                (
                    (u64::MAX - episodes_of(or_none(items[i].list("jobs"@))[j])) as u64,
                    episodic_member(kind, items[i].text("name"@).unwrap(), items[i]),
                ),
            ),
    decreases items.len(),
{
    let whole = candidates(kind, items);
    if items.len() > 0 {
        let rest = items.skip(1);
        let first = entry_candidates(kind, items[0]);
        let behind = candidates(kind, rest);
        lemma_candidates(kind, rest);
        let jobs = or_none(items[0].list("jobs"@));
        match items[0].text("name"@) {
            Some(name) => {
                lemma_job_candidates(kind, episodic_member(kind, name, items[0]), jobs);
            },
            None => {},
        }
        assert forall|c: int| #![trigger whole[c]] 0 <= c < whole.len() implies whole[c].0
            >= u64::MAX - u32::MAX && did_work(
            kind,
            whole[c].1,
            items,
            (u64::MAX - whole[c].0) as u32,
        ) by {
            if c < first.len() {
                let name = items[0].text("name"@).unwrap();
                let member = episodic_member(kind, name, items[0]);
                assert(whole[c] == first[c]);
                let j = choose|j: int|
                    0 <= j < jobs.len() && is_candidate(kind, member, #[trigger] jobs[j], first[c]);
                lemma_is_worker(kind, name, items[0], jobs[j]);
                let n = episodes_of(jobs[j]);
                assert((u64::MAX - whole[c].0) as u32 == n);
                assert(is_worker(kind, whole[c].1, items[0], or_none(items[0].list("jobs"@))[j], n));
            } else {
                let b = c - first.len();
                assert(whole[c] == behind[b]);
                let n = (u64::MAX - whole[c].0) as u32;
                let (i, j) = choose|i: int, j: int|
                    #![trigger or_none(rest[i].list("jobs"@))[j]]
                    0 <= i < rest.len() && 0 <= j < or_none(rest[i].list("jobs"@)).len()
                        && is_worker(
                        kind,
                        behind[b].1,
                        rest[i],
                        or_none(rest[i].list("jobs"@))[j],
                        n,
                    );
                assert(items[i + 1] == rest[i]);
                assert(is_worker(
                    kind,
                    whole[c].1,
                    items[i + 1],
                    or_none(items[i + 1].list("jobs"@))[j],
                    n,
                ));
            }
        }
        assert forall|i: int, j: int|
            #![trigger or_none(items[i].list("jobs"@))[j]]
            0 <= i < items.len() && 0 <= j < or_none(items[i].list("jobs"@)).len() && is_work(
                kind,
                job_name(or_none(items[i].list("jobs"@))[j]),
            ) && items[i].text("name"@) is Some implies whole.contains(
            (
                (u64::MAX - episodes_of(or_none(items[i].list("jobs"@))[j])) as u64,
                episodic_member(kind, items[i].text("name"@).unwrap(), items[i]),
            ),
        ) by {
            let wanted = (
                (u64::MAX - episodes_of(or_none(items[i].list("jobs"@))[j])) as u64,
                episodic_member(kind, items[i].text("name"@).unwrap(), items[i]),
            );
            if i == 0 {
                assert(jobs[j] == or_none(items[i].list("jobs"@))[j]);
                assert(first.contains(wanted));
                let c = choose|c: int| 0 <= c < first.len() && first[c] == wanted;
                assert(whole[c] == wanted);
            } else {
                assert(rest[i - 1] == items[i]);
                assert(or_none(rest[i - 1].list("jobs"@))[j] == or_none(items[i].list("jobs"@))[j]);
                let c = choose|c: int| 0 <= c < behind.len() && behind[c] == wanted;
                assert(whole[first.len() + c] == wanted);
            }
        }
    }
}

/// Those who are ranked for work of a kind did it.
proof fn lemma_ranked_did_work(kind: Episodic, items: Seq<JsonTree>, r: int)
    requires
        0 <= r < ranked(candidates(kind, items), EPISODIC_LIMIT as nat).len(),
    ensures
        did_at_least(kind, ranked(candidates(kind, items), EPISODIC_LIMIT as nat)[r], items, 0),
        ranked(candidates(kind, items), EPISODIC_LIMIT as nat)[r].job == shown_job(kind),
{
    let all = candidates(kind, items);
    lemma_candidates(kind, items);
    law_sorted_by_key(all);
    lemma_sorted_is_from(all, r);
    let c = choose|c: int| 0 <= c < all.len() && all[c] == sorted_by_key(all)[r];
    assert(did_work(kind, all[c].1, items, (u64::MAX - all[c].0) as u32));
}

#[verifier::spinoff_prover]
proof fn lemma_with_episodic(crew: Seq<CrewView>, kind: Episodic, items: Seq<JsonTree>)
    requires
        plain_jobs(crew),
    ensures
        begins(crew, with_episodic(crew, kind, items)),
        plain_jobs(with_episodic(crew, kind, items)),
        forall|i: int|
            #![trigger with_episodic(crew, kind, items)[i]]
            crew.len() <= i < with_episodic(crew, kind, items).len() ==> with_episodic(
                crew,
                kind,
                items,
            )[i].job == shown_job(kind) && did_at_least(
                kind,
                with_episodic(crew, kind, items)[i],
                items,
                0,
            ),
        with_episodic(crew, kind, items).len() <= crew.len() + 4,
{
    let chosen = ranked(candidates(kind, items), EPISODIC_LIMIT as nat);
    let whole = with_episodic(crew, kind, items);
    lemma_with_members(crew, chosen);
    lemma_members_len(crew, chosen);
    lemma_shown_jobs(kind);
    assert forall|i: int| #![trigger whole[i]] crew.len() <= i < whole.len() implies whole[i].job
        == shown_job(kind) && did_at_least(kind, whole[i], items, 0) by {
        let r = choose|r: int| 0 <= r < chosen.len() && chosen[r] == whole[i];
        lemma_ranked_did_work(kind, items, r);
    }
    assert forall|i: int| 0 <= i < whole.len() implies !(#[trigger] whole[i]).job.contains(':') by {
        if i < crew.len() {
            assert(whole[i] == crew[i]);
        }
    }
}

proof fn lemma_shown_jobs(kind: Episodic)
    ensures
        !shown_job(kind).contains(':'),
{
    reveal_strlit("Director");
    reveal_strlit("Writer");
}

proof fn lemma_members_len(crew: Seq<CrewView>, members: Seq<CrewView>)
    ensures
        with_members(crew, members).len() <= crew.len() + members.len(),
    decreases members.len(),
{
    if members.len() > 0 {
        lemma_with_member(crew, members[0]);
        lemma_members_len(with_member(crew, members[0]), members.skip(1));
    }
}

/// Who is featured has a job without a colon.
proof fn lemma_featured(is_tv: bool, details: JsonTree)
    ensures
        plain_jobs(featured_crew(is_tv, details)),
        forall|i: int|
            0 <= i < featured_crew(is_tv, details).len() ==> ((#[trigger] featured_crew(
                is_tv,
                details,
            )[i]).job == "Creator"@ || featured_crew(is_tv, details)[i].job == "Director"@
                || featured_crew(is_tv, details)[i].job == "Writer"@),
{
    let created = with_creators(Seq::empty(), or_none(details.list("created_by"@)));
    let episodic = or_none(list_at(details, "aggregate_credits"@, "crew"@));
    lemma_creators(Seq::empty(), or_none(details.list("created_by"@)));
    if is_tv {
        let directed = with_episodic(created, Episodic::Director, episodic);
        let whole = with_episodic(directed, Episodic::Writer, episodic);
        lemma_with_episodic(created, Episodic::Director, episodic);
        lemma_with_episodic(directed, Episodic::Writer, episodic);
        assert forall|i: int| 0 <= i < whole.len() implies ((#[trigger] whole[i]).job == "Creator"@
            || whole[i].job == "Director"@ || whole[i].job == "Writer"@) by {
            if i < created.len() {
                assert(whole[i] == directed[i]);
                assert(directed[i] == created[i]);
            } else if i < directed.len() {
                assert(whole[i] == directed[i]);
            }
        }
    }
}

/// Where the crew ends up smaller than its limit, every credit with a name and one of the jobs that
/// are shown, in any case of ASCII letters, has a member with its name and its job in the crew. The
/// one exception is an executive producer who is featured.
#[verifier::spinoff_prover]
pub proof fn law_credits_are_shown(
    is_tv: bool,
    details: JsonTree,
    k: int,
    place: int,
    name: Seq<char>,
    job: Seq<char>,
)
    requires
        crew_of(is_tv, details).len() < 24,
        0 <= k < or_none(list_at(details, "credits"@, "crew"@)).len(),
        or_none(list_at(details, "credits"@, "crew"@))[k].text("name"@) == Some(name),
        or_none(list_at(details, "credits"@, "crew"@))[k].text("job"@) == Some(job),
        is_job_at(place, job),
        !(same_ignoring_ascii_case(job, "Executive Producer"@) && is_there(
            featured_crew(is_tv, details),
            or_none(list_at(details, "credits"@, "crew"@))[k].uint("id"@).unwrap_or(0),
        )),
    ensures
        is_shown(crew_of(is_tv, details), name, job),
{
    let items = or_none(list_at(details, "credits"@, "crew"@));
    let featured = featured_crew(is_tv, details);
    let crew = crew_of(is_tv, details);
    let t = items[k];
    let places = lemma_with_jobs(featured, priority_jobs(), featured, items);
    lemma_places(place, place, job);
    assert(same_ignoring_ascii_case(job, priority_jobs()[place]));
    if is_featured(featured, job, t) {
        let i = choose|i: int|
            0 <= i < featured.len() && (#[trigger] featured[i]).id == t.uint("id"@).unwrap_or(0);
        assert(is_there(featured, t.uint("id"@).unwrap_or(0)));
    }
    assert(is_listed(crew, name, job));
    lemma_featured(is_tv, details);
    assert forall|i: int| 0 <= i < crew.len() implies !(#[trigger] crew[i]).job.contains(':') by {
        if i < featured.len() {
            assert(crew[i] == featured[i]);
        } else {
            let p = places[i - featured.len()];
            assert(crew[featured.len() + (i - featured.len())] == crew[i]);
            lemma_places(p, p, crew[i].job);
        }
    }
    lemma_listed_is_shown(crew, name, job);
}

/// Those who are featured come first. Behind them everybody has one of the jobs that are shown, as a
/// credit says, and they stand in the order of these jobs; nobody of them is an executive producer
/// who is featured. Nobody is shown beyond the limit, unless they are featured.
#[verifier::spinoff_prover]
pub proof fn law_the_crew_stands_in_the_order_of_jobs(is_tv: bool, details: JsonTree, i: int, j: int)
    requires
        featured_crew(is_tv, details).len() <= i <= j < crew_of(is_tv, details).len(),
    ensures
        crew_of(is_tv, details).take(featured_crew(is_tv, details).len() as int) == featured_crew(
            is_tv,
            details,
        ),
        featured_crew(is_tv, details).len() < 24 ==> crew_of(is_tv, details).len() <= 24,
        exists|p: int| #[trigger] is_job_at(p, crew_of(is_tv, details)[i].job),
        forall|p: int, q: int| #[trigger]
            is_job_at(p, crew_of(is_tv, details)[i].job) && #[trigger] is_job_at(
                q,
                crew_of(is_tv, details)[j].job,
            ) ==> p <= q,
        exists|k: int|
            0 <= k < or_none(list_at(details, "credits"@, "crew"@)).len() && is_credit(
                crew_of(is_tv, details)[i],
                #[trigger] or_none(list_at(details, "credits"@, "crew"@))[k],
            ),
        !(same_ignoring_ascii_case(crew_of(is_tv, details)[i].job, "Executive Producer"@)
            && is_there(featured_crew(is_tv, details), crew_of(is_tv, details)[i].id)),
{
    let items = or_none(list_at(details, "credits"@, "crew"@));
    let featured = featured_crew(is_tv, details);
    let crew = crew_of(is_tv, details);
    let places = lemma_with_jobs(featured, priority_jobs(), featured, items);
    law_featured_come_first(is_tv, details);
    lemma_featured(is_tv, details);
    let a = places[i - featured.len()];
    let b = places[j - featured.len()];
    assert(crew[featured.len() + (i - featured.len())] == crew[i]);
    assert(crew[featured.len() + (j - featured.len())] == crew[j]);
    assert(is_job_at(a, crew[i].job));
    assert(is_job_at(b, crew[j].job));
    assert forall|p: int, q: int| #[trigger]
        is_job_at(p, crew[i].job) && #[trigger] is_job_at(q, crew[j].job) implies p <= q by {
        lemma_places(a, p, crew[i].job);
        lemma_places(b, q, crew[j].job);
    }
    if same_ignoring_ascii_case(crew[i].job, "Executive Producer"@) && is_there(
        featured,
        crew[i].id,
    ) {
        let f = choose|f: int| 0 <= f < featured.len() && (#[trigger] featured[f]).id == crew[i].id;
        assert(is_prominent(featured, crew[i].id));
    }
}

/// Everybody with a name who is given as a creator is shown as one. Of a movie nobody else is
/// featured.
pub proof fn law_creators_are_shown(is_tv: bool, details: JsonTree, k: int, name: Seq<char>)
    requires
        0 <= k < or_none(details.list("created_by"@)).len(),
        or_none(details.list("created_by"@))[k].text("name"@) == Some(name),
    ensures
        is_shown(featured_crew(is_tv, details), name, "Creator"@),
{
    let items = or_none(details.list("created_by"@));
    let created = with_creators(Seq::empty(), items);
    let episodic = or_none(list_at(details, "aggregate_credits"@, "crew"@));
    reveal_strlit("Creator");
    lemma_creators(Seq::empty(), items);
    assert(is_listed(created, name, "Creator"@));
    lemma_listed_is_shown(created, name, "Creator"@);
    let i = choose|i: int|
        0 <= i < created.len() && (#[trigger] created[i]).name == name && created[i].job
            == "Creator"@;
    if is_tv {
        let directed = with_episodic(created, Episodic::Director, episodic);
        lemma_with_episodic(created, Episodic::Director, episodic);
        lemma_with_episodic(directed, Episodic::Writer, episodic);
        assert(directed[i] == created[i]);
        assert(featured_crew(is_tv, details)[i] == directed[i]);
    }
}

/// Who is featured is a creator, as such an entry says, or, of a series, a director or writer of
/// episodes, as the credits of the series say. The creators come before the directors, and these
/// before the writers. Of directors and of writers there are four at most.
#[verifier::spinoff_prover]
pub proof fn law_who_is_featured(is_tv: bool, details: JsonTree, i: int, j: int)
    requires
        0 <= i <= j < featured_crew(is_tv, details).len(),
    ensures
        ({
            let items = or_none(details.list("created_by"@));
            let episodic = or_none(list_at(details, "aggregate_credits"@, "crew"@));
            let member = featured_crew(is_tv, details)[i];
            ||| exists|k: int| 0 <= k < items.len() && is_creator(member, #[trigger] items[k])
            ||| is_tv && did_at_least(Episodic::Director, member, episodic, 0)
            ||| is_tv && did_at_least(Episodic::Writer, member, episodic, 0)
        }),
        featured_crew(is_tv, details)[j].job == "Creator"@ ==> featured_crew(is_tv, details)[i].job
            == "Creator"@,
        featured_crew(is_tv, details)[i].job == "Writer"@ ==> featured_crew(is_tv, details)[j].job
            == "Writer"@,
        featured_crew(is_tv, details)[i].job == featured_crew(is_tv, details)[j].job
            && featured_crew(is_tv, details)[i].job != "Creator"@ ==> j - i < 4,
{
    let items = or_none(details.list("created_by"@));
    let created = with_creators(Seq::empty(), items);
    let episodic = or_none(list_at(details, "aggregate_credits"@, "crew"@));
    let whole = featured_crew(is_tv, details);
    reveal_strlit("Creator");
    reveal_strlit("Director");
    reveal_strlit("Writer");
    assert("Creator"@.len() == 7 && "Director"@.len() == 8 && "Writer"@.len() == 6);
    lemma_creators(Seq::empty(), items);
    if i < created.len() {
        lemma_creators_are_given(Seq::empty(), items, i);
    }
    if is_tv {
        let directed = with_episodic(created, Episodic::Director, episodic);
        lemma_with_episodic(created, Episodic::Director, episodic);
        lemma_with_episodic(directed, Episodic::Writer, episodic);
        assert(i < directed.len() ==> whole[i] == directed[i]);
        assert(j < directed.len() ==> whole[j] == directed[j]);
        assert(i < created.len() ==> directed[i] == created[i]);
        assert(j < created.len() ==> directed[j] == created[j]);
    }
}

/// Who did work on a series for some number of episodes is featured for it, unless those who are
/// featured in their place did it for as many episodes or more: four, whose names and jobs are all
/// in the crew.
#[verifier::spinoff_prover]
#[verifier::rlimit(40)]
pub proof fn law_most_episodes_count(
    details: JsonTree,
    kind: Episodic,
    member: CrewView,
    i: int,
    j: int,
    n: u32,
)
    requires
        0 <= i < or_none(list_at(details, "aggregate_credits"@, "crew"@)).len(),
        0 <= j < or_none(
            or_none(list_at(details, "aggregate_credits"@, "crew"@))[i].list("jobs"@),
        ).len(),
        is_worker(
            kind,
            member,
            or_none(list_at(details, "aggregate_credits"@, "crew"@))[i],
            or_none(or_none(list_at(details, "aggregate_credits"@, "crew"@))[i].list("jobs"@))[j],
            n,
        ),
        or_none(or_none(list_at(details, "aggregate_credits"@, "crew"@))[i].list("jobs"@))[j].uint(
            "episode_count"@,
        ).unwrap_or(1) <= u32::MAX,
    ensures
        is_shown(featured_crew(true, details), member.name, member.job) || exists|chosen: Seq<
            CrewView,
        >|
            #[trigger] chosen.len() == 4 && forall|r: int|
                0 <= r < 4 ==> did_at_least(
                    kind,
                    #[trigger] chosen[r],
                    or_none(list_at(details, "aggregate_credits"@, "crew"@)),
                    n,
                ) && is_shown(featured_crew(true, details), chosen[r].name, chosen[r].job),
{
    let items = or_none(list_at(details, "aggregate_credits"@, "crew"@));
    let t = items[i];
    let job = or_none(t.list("jobs"@))[j];
    let all = candidates(kind, items);
    let chosen = ranked(all, EPISODIC_LIMIT as nat);
    let name = t.text("name"@).unwrap();
    lemma_is_worker(kind, name, t, job);
    lemma_candidates(kind, items);
    let wanted = ((u64::MAX - n) as u64, member);
    assert(all.contains(wanted));
    let c = choose|c: int| 0 <= c < all.len() && all[c] == wanted;
    law_the_first_are_taken(all, 4, c);
    assert forall|r: int| 0 <= r < chosen.len() implies is_shown(
        featured_crew(true, details),
        (#[trigger] chosen[r]).name,
        chosen[r].job,
    ) by {
        lemma_ranked_is_shown(details, kind, r);
    }
    if chosen.contains(member) {
        let r = choose|r: int| 0 <= r < chosen.len() && chosen[r] == member;
        assert(is_shown(featured_crew(true, details), chosen[r].name, chosen[r].job));
    } else {
        assert(chosen.len() == 4);
        assert forall|r: int| 0 <= r < 4 implies did_at_least(
            kind,
            #[trigger] chosen[r],
            items,
            n,
        ) by {
            assert(has_up_to(all, chosen[r], wanted.0));
            let d = choose|d: int|
                0 <= d < all.len() && (#[trigger] all[d]).1 == chosen[r] && all[d].0 <= wanted.0;
            let e = (u64::MAX - all[d].0) as u32;
            assert(did_work(kind, all[d].1, items, e));
            assert(e >= n);
        }
    }
}

proof fn lemma_ranked_is_shown(details: JsonTree, kind: Episodic, r: int)
    requires
        0 <= r < ranked(
            candidates(kind, or_none(list_at(details, "aggregate_credits"@, "crew"@))),
            EPISODIC_LIMIT as nat,
        ).len(),
    ensures
        ({
            let chosen = ranked(
                candidates(kind, or_none(list_at(details, "aggregate_credits"@, "crew"@))),
                EPISODIC_LIMIT as nat,
            );
            is_shown(featured_crew(true, details), chosen[r].name, chosen[r].job)
        }),
{
    let items = or_none(list_at(details, "aggregate_credits"@, "crew"@));
    let chosen = ranked(candidates(kind, items), EPISODIC_LIMIT as nat);
    let created = with_creators(Seq::empty(), or_none(details.list("created_by"@)));
    let directed = with_episodic(created, Episodic::Director, items);
    let whole = featured_crew(true, details);
    reveal_strlit("Director");
    reveal_strlit("Writer");
    lemma_creators(Seq::empty(), or_none(details.list("created_by"@)));
    lemma_with_episodic(created, Episodic::Director, items);
    lemma_with_episodic(directed, Episodic::Writer, items);
    lemma_ranked_did_work(kind, items, r);
    match kind {
        Episodic::Director => {
            lemma_with_members(created, chosen);
            lemma_listed_later(directed, whole, chosen[r].name, chosen[r].job);
        },
        Episodic::Writer => {
            lemma_with_members(directed, chosen);
        },
    }
    assert(is_listed(whole, chosen[r].name, chosen[r].job));
    lemma_listed_is_shown(whole, chosen[r].name, chosen[r].job);
}

} // verus!
