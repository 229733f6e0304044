//! Which dumps are downloaded, and what is remembered of them.
use crate::moment::Moment;
use crate::text::{chars_of, same, text_between, text_opt};
use vstd::prelude::*;

verus! {

/// The dump of the titles.
pub const DUMP_BASICS: &'static str = "title.basics.tsv.gz";

/// The dump of the names that titles have in regions and languages.
pub const DUMP_AKAS: &'static str = "title.akas.tsv.gz";

/// The dump of the ratings.
pub const DUMP_RATINGS: &'static str = "title.ratings.tsv.gz";

/// The dumps, in the order in which they are asked for.
pub fn all_dumps() -> (r: [&'static str; 3])
    ensures
        r@[0]@ == DUMP_RATINGS@,
        r@[1]@ == DUMP_AKAS@,
        r@[2]@ == DUMP_BASICS@,
{
    [DUMP_RATINGS, DUMP_AKAS, DUMP_BASICS]
}

// ---------------------------------------------------------------------------
// Addresses
// ---------------------------------------------------------------------------

/// A text without the slashes at its end.
pub open spec fn without_slashes(s: Seq<char>) -> Seq<char>
    decreases s.len(),
{
    if s.len() > 0 && s.last() == '/' {
        without_slashes(s.drop_last())
    } else {
        s
    }
}

/// The address of the server, without the slashes at its end.
pub fn clean_base_url(base_url: &str) -> (r: String)
    ensures
        r@ == without_slashes(base_url@),
{
    let chars = chars_of(base_url);
    let mut to: usize = chars.len();
    proof {
        assert(chars@.take(to as int) =~= base_url@);
    }
    while to > 0 && chars[to - 1] == '/'
        invariant
            chars@ == base_url@,
            to <= chars@.len(),
            without_slashes(chars@.take(to as int)) == without_slashes(base_url@),
        decreases to,
    {
        proof {
            assert(chars@.take(to as int).drop_last() =~= chars@.take(to as int - 1));
        }
        to = to - 1;
    }
    proof {
        assert(chars@.take(to as int) =~= chars@.subrange(0, to as int));
    }
    text_between(&chars, 0, to)
}

/// Where a dump is.
pub fn dump_url(base_url: &str, filename: &str) -> (r: String)
    ensures
        r@ == base_url@ + "/"@ + filename@,
{
    let mut url = base_url.to_owned();
    url.append("/");
    url.append(filename);
    url
}

/// The name of the file in which a dump is while it is downloaded.
pub fn partial_name(filename: &str) -> (r: String)
    ensures
        r@ == filename@ + ".download"@,
{
    let mut name = filename.to_owned();
    name.append(".download");
    name
}

// ---------------------------------------------------------------------------
// What is remembered
// ---------------------------------------------------------------------------

/// What is remembered of a dump.
#[derive(Debug, Clone)]
pub struct DumpMetadata {
    pub filename: String,
    pub etag: Option<String>,
    pub last_modified: Option<String>,
    pub content_length: Option<u64>,
    pub downloaded_at: Option<Moment>,
}

/// What is remembered of the dumps. No name stands twice.
#[derive(Debug, Clone)]
pub struct DownloaderState {
    pub dumps: Vec<(String, DumpMetadata)>,
    pub last_checked_at: Option<Moment>,
    pub last_indexed_at: Option<Moment>,
}

/// What is remembered under a name.
pub open spec fn dump_named(dumps: Seq<(String, DumpMetadata)>, name: Seq<char>) -> Option<
    DumpMetadata,
>
    decreases dumps.len(),
{
    if dumps.len() == 0 {
        None
    } else if dumps[0].0@ == name {
        Some(dumps[0].1)
    } else {
        dump_named(dumps.skip(1), name)
    }
}

/// Whether no name stands twice.
pub open spec fn names_differ(dumps: Seq<(String, DumpMetadata)>) -> bool {
    forall|i: int, j: int|
        0 <= i < j < dumps.len() ==> (#[trigger] dumps[i]).0@ != (#[trigger] dumps[j]).0@
}

proof fn lemma_dump_named_at(dumps: Seq<(String, DumpMetadata)>, name: Seq<char>, n: int)
    requires
        0 <= n <= dumps.len(),
        forall|i: int| 0 <= i < n ==> (#[trigger] dumps[i]).0@ != name,
        n < dumps.len() ==> dumps[n].0@ == name,
    ensures
        dump_named(dumps, name) == (if n < dumps.len() {
            Some(dumps[n].1)
        } else {
            None
        }),
    decreases n,
{
    if n > 0 {
        assert(dumps.skip(1)[n - 1] == dumps[n] || n == dumps.len());
        assert(forall|i: int| 0 <= i < n - 1 ==> #[trigger] dumps.skip(1)[i] == dumps[i + 1]);
        lemma_dump_named_at(dumps.skip(1), name, n - 1);
    }
}

proof fn lemma_dump_kept(
    before: Seq<(String, DumpMetadata)>,
    after: Seq<(String, DumpMetadata)>,
    n: int,
    name: Seq<char>,
)
    requires
        0 <= n < after.len(),
        before.len() == after.len() || before.len() == n && after.len() == n + 1,
        forall|i: int| 0 <= i < before.len() && i != n ==> #[trigger] after[i] == before[i],
        after[n].0@ != name,
        n < before.len() ==> before[n].0@ != name,
    ensures
        dump_named(after, name) == dump_named(before, name),
    decreases after.len(),
{
    if n == 0 {
        assert(before.len() > 0 ==> before.skip(1) =~= after.skip(1));
        if before.len() == 0 {
            assert(after.skip(1) =~= Seq::<(String, DumpMetadata)>::empty());
        }
    } else {
        assert(after[0] == before[0]);
        assert(forall|i: int|
            0 <= i < before.len() - 1 && i != n - 1 ==> #[trigger] after.skip(1)[i]
                == before.skip(1)[i]) by {
            assert forall|i: int| 0 <= i < before.len() - 1 && i != n - 1 implies #[trigger] after.skip(
                1,
            )[i] == before.skip(1)[i] by {
                assert(after[i + 1] == before[i + 1]);
            }
        }
        lemma_dump_kept(before.skip(1), after.skip(1), n - 1, name);
    }
}

impl DownloaderState {
    /// Whether no name stands twice.
    pub open spec fn wf(self) -> bool {
        names_differ(self.dumps@)
    }

    /// Nothing is remembered.
    pub fn empty() -> (r: DownloaderState)
        ensures
            r.wf(),
            r.dumps@.len() == 0,
            r.last_checked_at is None,
            r.last_indexed_at is None,
    {
        DownloaderState { dumps: Vec::new(), last_checked_at: None, last_indexed_at: None }
    }

    /// What is remembered of a dump.
    pub fn get<'a>(&'a self, name: &str) -> (r: Option<&'a DumpMetadata>)
        ensures
            r == (match dump_named(self.dumps@, name@) {
                Some(dump) => Some(&dump),
                None => None,
            }),
    {
        for i in 0..self.dumps.len()
            invariant
                forall|j: int| 0 <= j < i ==> (#[trigger] self.dumps@[j]).0@ != name@,
        {
            if same(self.dumps[i].0.as_str(), name) {
                proof {
                    lemma_dump_named_at(self.dumps@, name@, i as int);
                }
                return Some(&self.dumps[i].1);
            }
        }
        proof {
            lemma_dump_named_at(self.dumps@, name@, self.dumps@.len() as int);
        }
        None
    }

    /// Remembers a dump in place of what was remembered of it.
    pub fn insert(&mut self, name: &str, dump: DumpMetadata)
        ensures
            dump_named(final(self).dumps@, name@) == Some(dump),
            forall|other: Seq<char>|
                other != name@ ==> #[trigger] dump_named(final(self).dumps@, other) == dump_named(
                    old(self).dumps@,
                    other,
                ),
            old(self).wf() ==> final(self).wf(),
            final(self).last_checked_at == old(self).last_checked_at,
            final(self).last_indexed_at == old(self).last_indexed_at,
    {
        let n = self.dumps.len();
        let mut at: usize = 0;
        while at < n && !same(self.dumps[at].0.as_str(), name)
            invariant
                n == self.dumps@.len(),
                at <= n,
                *self == *old(self),
                forall|j: int| 0 <= j < at ==> (#[trigger] self.dumps@[j]).0@ != name@,
            decreases n - at,
        {
            at = at + 1;
        }
        let ghost before = self.dumps@;
        let entry = (name.to_owned(), dump);
        if at < n {
            self.dumps.set(at, entry);
        } else {
            self.dumps.push(entry);
        }
        proof {
            let after = self.dumps@;
            lemma_dump_named_at(after, name@, at as int);
            assert forall|other: Seq<char>| other != name@ implies #[trigger] dump_named(
                after,
                other,
            ) == dump_named(before, other) by {
                lemma_dump_kept(before, after, at as int, other);
            }
            if names_differ(before) {
                assert forall|i: int, j: int| 0 <= i < j < after.len() implies (
                #[trigger] after[i]).0@ != (#[trigger] after[j]).0@ by {
                    if i != at && j != at {
                        assert(before[i].0@ != before[j].0@);
                    } else if at < n {
                        assert(before[i].0@ != before[j].0@);
                    }
                }
            }
        }
    }
}

// ---------------------------------------------------------------------------
// What has changed
// ---------------------------------------------------------------------------

/// What the server says about a dump.
#[derive(Debug, Clone)]
pub struct DumpHead {
    pub etag: Option<String>,
    pub last_modified: Option<String>,
    pub content_length: Option<u64>,
}

/// Whether something that is said is not what is remembered.
pub open spec fn differs(said: Option<Seq<char>>, remembered: Option<Seq<char>>) -> bool {
    said is Some && said != remembered
}

/// Whether a dump is not the one that is remembered, by its tag or by when it was changed.
pub open spec fn has_changed(head: DumpHead, dump: DumpMetadata) -> bool {
    differs(text_opt(head.etag), text_opt(dump.etag)) || differs(
        text_opt(head.last_modified),
        text_opt(dump.last_modified),
    )
}

/// Whether a dump is to be downloaded: it is asked for, is not here, or is not the one that is
/// remembered.
pub open spec fn is_needed(
    force: bool,
    is_here: bool,
    head: DumpHead,
    remembered: Option<DumpMetadata>,
) -> bool {
    force || !is_here || match remembered {
        Some(dump) => has_changed(head, dump),
        None => true,
    }
}

fn not_same(said: &Option<String>, remembered: &Option<String>) -> (r: bool)
    ensures
        r == differs(text_opt(*said), text_opt(*remembered)),
{
    match (said, remembered) {
        (Some(a), Some(b)) => !same(a.as_str(), b.as_str()),
        (Some(_), None) => true,
        (None, _) => false,
    }
}

fn changed(head: &DumpHead, dump: &DumpMetadata) -> (r: bool)
    ensures
        r == has_changed(*head, *dump),
{
    not_same(&head.etag, &dump.etag) || not_same(&head.last_modified, &dump.last_modified)
}

/// What was found out about a dump.
#[derive(Debug, Clone, Copy, PartialEq, Eq, Structural)]
pub enum DumpCheck {
    /// It is not here: there is something to download, and nothing more to find out.
    Absent,
    /// It is another than the one that is remembered.
    Changed,
    /// Nothing new is known of it.
    Unchanged,
}

impl DownloaderState {
    /// Whether a dump is to be downloaded.
    pub fn needs_download(&self, filename: &str, force: bool, is_here: bool, head: &DumpHead) -> (r:
        bool)
        ensures
            r == is_needed(force, is_here, *head, dump_named(self.dumps@, filename@)),
    {
        if force || !is_here {
            return true;
        }
        match self.get(filename) {
            Some(dump) => changed(head, dump),
            None => true,
        }
    }

    /// What the server's answer says about a dump. There is no answer where the dump is not here,
    /// or where the server could not be asked.
    pub fn check_dump(&self, filename: &str, is_here: bool, head: Option<&DumpHead>) -> (r:
        DumpCheck)
        ensures
            r == (if !is_here {
                DumpCheck::Absent
            } else {
                match head {
                    Some(h) => if is_needed(
                        false,
                        true,
                        *h,
                        dump_named(self.dumps@, filename@),
                    ) {
                        DumpCheck::Changed
                    } else {
                        DumpCheck::Unchanged
                    },
                    None => DumpCheck::Unchanged,
                }
            }),
            r == DumpCheck::Absent <==> !is_here,
            r == DumpCheck::Changed ==> head is Some,
    {
        if !is_here {
            return DumpCheck::Absent;
        }
        match head {
            Some(h) => if self.needs_download(filename, false, true, h) {
                DumpCheck::Changed
            } else {
                DumpCheck::Unchanged
            },
            None => DumpCheck::Unchanged,
        }
    }

    /// Remembers a dump that was downloaded. Where the server did not say how long it is, it is as
    /// long as what was downloaded.
    pub fn record_download(
        &mut self,
        filename: &str,
        head: DumpHead,
        downloaded_bytes: u64,
        now: Moment,
    )
        ensures
            ({
                let dump = dump_named(final(self).dumps@, filename@);
                &&& dump is Some
                &&& dump->Some_0.filename@ == filename@
                &&& dump->Some_0.etag == head.etag
                &&& dump->Some_0.last_modified == head.last_modified
                &&& dump->Some_0.content_length == Some(
                    head.content_length.unwrap_or(downloaded_bytes),
                )
                &&& dump->Some_0.downloaded_at == Some(now)
            }),
            forall|other: Seq<char>|
                other != filename@ ==> #[trigger] dump_named(final(self).dumps@, other)
                    == dump_named(old(self).dumps@, other),
            old(self).wf() ==> final(self).wf(),
            final(self).last_checked_at == old(self).last_checked_at,
            final(self).last_indexed_at == old(self).last_indexed_at,
    {
        let length: u64 = head.content_length.unwrap_or(downloaded_bytes);
        let dump = DumpMetadata {
            filename: filename.to_owned(),
            etag: head.etag,
            last_modified: head.last_modified,
            content_length: Some(length),
            downloaded_at: Some(now),
        };
        self.insert(filename, dump);
    }

    /// Remembers when the dumps were last asked about.
    pub fn mark_checked(&mut self, now: Moment)
        ensures
            final(self).last_checked_at == Some(now),
            final(self).dumps == old(self).dumps,
            final(self).last_indexed_at == old(self).last_indexed_at,
    {
        self.last_checked_at = Some(now);
    }

    /// Remembers when the index was last built.
    pub fn mark_indexed(&mut self, now: Moment)
        ensures
            final(self).last_indexed_at == Some(now),
            final(self).dumps == old(self).dumps,
            final(self).last_checked_at == old(self).last_checked_at,
    {
        self.last_indexed_at = Some(now);
    }
}

/// Whether there is something to download, by what was found out about the dumps.
pub open spec fn any_news(checks: Seq<DumpCheck>) -> bool {
    exists|i: int| 0 <= i < checks.len() && #[trigger] checks[i] != DumpCheck::Unchanged
}

/// Whether there is something to download, by what was found out about the dumps, one after the
/// other.
pub fn has_updates(checks: &Vec<DumpCheck>) -> (r: bool)
    ensures
        r == any_news(checks@),
{
    for i in 0..checks.len()
        invariant
            forall|j: int| 0 <= j < i ==> #[trigger] checks@[j] == DumpCheck::Unchanged,
    {
        match checks[i] {
            DumpCheck::Unchanged => {},
            _ => {
                proof {
                    assert(checks@[i as int] != DumpCheck::Unchanged);
                }
                return true;
            },
        }
    }
    false
}

/// What is done next while the dumps are looked at, one after the other.
#[derive(Debug, Clone, Copy)]
pub enum CheckStep {
    /// This dump is looked at.
    Look(&'static str),
    /// No more dumps are looked at. There is news or not, and that the dumps were looked at is
    /// remembered or not.
    End { news: bool, remembered: bool },
}

/// The names of the dumps, in the order in which they are looked at.
pub open spec fn dump_names() -> Seq<Seq<char>> {
    seq![DUMP_RATINGS@, DUMP_AKAS@, DUMP_BASICS@]
}

/// What is done next, by what was found out so far: the dumps are looked at until there is news or
/// all were looked at. Where one is not here, nothing is remembered.
pub fn next_check(checks: &Vec<DumpCheck>) -> (r: CheckStep)
    ensures
        match r {
            CheckStep::Look(name) => {
                &&& checks@.len() < dump_names().len()
                &&& !any_news(checks@)
                &&& name@ == dump_names()[checks@.len() as int]
            },
            CheckStep::End { news, remembered } => {
                &&& checks@.len() >= dump_names().len() || any_news(checks@)
                &&& news == any_news(checks@)
                &&& remembered == !checks@.contains(DumpCheck::Absent)
            },
        },
{
    let news = has_updates(checks);
    if !news && checks.len() < 3 {
        let names = all_dumps();
        return CheckStep::Look(names[checks.len()]);
    }
    for i in 0..checks.len()
        invariant
            news == any_news(checks@),
            checks@.len() >= 3 || any_news(checks@),
            forall|j: int| 0 <= j < i ==> #[trigger] checks@[j] != DumpCheck::Absent,
    {
        if checks[i] == DumpCheck::Absent {
            proof {
                assert(checks@[i as int] == DumpCheck::Absent);
            }
            return CheckStep::End { news, remembered: false };
        }
    }
    CheckStep::End { news, remembered: true }
}

/// A dump that was just downloaded is not downloaded again, as long as the server says the same
/// about it.
pub proof fn law_downloads_are_not_repeated(head: DumpHead, dump: DumpMetadata)
    requires
        dump.etag == head.etag,
        dump.last_modified == head.last_modified,
    ensures
        !is_needed(false, true, head, Some(dump)),
{
}

/// A dump that is asked for, not here or not known is downloaded, whatever the server says.
pub proof fn law_missing_dumps_are_downloaded(head: DumpHead, remembered: Option<DumpMetadata>)
    ensures
        is_needed(true, true, head, remembered),
        is_needed(false, false, head, remembered),
        is_needed(false, true, head, None),
{
}

/// A dump that is here and remembered is downloaded exactly where the server says a tag that is not
/// the remembered one, whatever it says of the date, or a date that is not the remembered one,
/// whatever it says of the tag. What the server does not say counts for nothing.
pub proof fn law_news_are_downloaded(head: DumpHead, dump: DumpMetadata)
    ensures
        head.etag is Some && (dump.etag is None || dump.etag.unwrap()@ != head.etag.unwrap()@)
            ==> is_needed(false, true, head, Some(dump)),
        head.last_modified is Some && (dump.last_modified is None || dump.last_modified.unwrap()@
            != head.last_modified.unwrap()@) ==> is_needed(false, true, head, Some(dump)),
        (head.etag is None || (dump.etag is Some && dump.etag.unwrap()@ == head.etag.unwrap()@)) && (
        head.last_modified is None || (dump.last_modified is Some && dump.last_modified.unwrap()@
            == head.last_modified.unwrap()@)) ==> !is_needed(false, true, head, Some(dump)),
{
}

/// What is remembered under a name is what the first entry of that name holds, and nothing where
/// there is none.
pub proof fn law_dumps_are_found_by_name(
    dumps: Seq<(String, DumpMetadata)>,
    name: Seq<char>,
    i: int,
)
    requires
        names_differ(dumps),
        0 <= i < dumps.len(),
    ensures
        dump_named(dumps, dumps[i].0@) == Some(dumps[i].1),
        (forall|k: int| 0 <= k < dumps.len() ==> (#[trigger] dumps[k]).0@ != name) ==> dump_named(
            dumps,
            name,
        ) is None,
{
    lemma_dump_named_at(dumps, dumps[i].0@, i);
    if forall|k: int| 0 <= k < dumps.len() ==> (#[trigger] dumps[k]).0@ != name {
        lemma_dump_named_at(dumps, name, dumps.len() as int);
    }
}

/// The address of the server loses the slashes at its end, and nothing else.
pub proof fn law_slashes_are_cut_off(address: Seq<char>, slashes: nat)
    requires
        address.len() > 0 ==> address.last() != '/',
    ensures
        without_slashes(address + Seq::new(slashes, |i: int| '/')) == address,
    decreases slashes,
{
    let end = Seq::new(slashes, |i: int| '/');
    let whole = address + end;
    if slashes > 0 {
        law_slashes_are_cut_off(address, (slashes - 1) as nat);
        assert(whole.last() == '/');
        assert(whole.drop_last() =~= address + Seq::new((slashes - 1) as nat, |i: int| '/'));
    } else {
        assert(whole =~= address);
    }
}

/// There is news as soon as one dump is not here or has changed, and none where all are as they
/// were. The ratings are looked at first, then the names, then the titles.
pub proof fn law_any_change_is_news(before: Seq<DumpCheck>, check: DumpCheck, behind: Seq<DumpCheck>)
    ensures
        any_news(before.push(DumpCheck::Absent) + behind),
        any_news(before.push(DumpCheck::Changed) + behind),
        any_news(before.push(DumpCheck::Unchanged) + behind) == (any_news(before) || any_news(behind)),
        !any_news(Seq::empty()),
        dump_names() == seq![
            "title.ratings.tsv.gz"@,
            "title.akas.tsv.gz"@,
            "title.basics.tsv.gz"@,
        ],
{
    let n = before.len() as int;
    assert((before.push(DumpCheck::Absent) + behind)[n] == DumpCheck::Absent);
    assert((before.push(DumpCheck::Changed) + behind)[n] == DumpCheck::Changed);
    let all = before.push(DumpCheck::Unchanged) + behind;
    if any_news(before) {
        let i = choose|i: int| 0 <= i < before.len() && #[trigger] before[i] != DumpCheck::Unchanged;
        assert(all[i] == before[i]);
    }
    if any_news(behind) {
        let i = choose|i: int| 0 <= i < behind.len() && #[trigger] behind[i] != DumpCheck::Unchanged;
        assert(all[n + 1 + i] == behind[i]);
    }
    if any_news(all) {
        let i = choose|i: int| 0 <= i < all.len() && #[trigger] all[i] != DumpCheck::Unchanged;
        if i < n {
            assert(before[i] == all[i]);
        } else if i > n {
            assert(behind[i - n - 1] == all[i]);
        }
    }
    assert(dump_names() =~= seq![
        "title.ratings.tsv.gz"@,
        "title.akas.tsv.gz"@,
        "title.basics.tsv.gz"@,
    ]);
}

} // verus!
