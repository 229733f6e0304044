//! Bounded caches that let go of what was not used for longest.
use crate::index::document::MovieDoc;
use crate::poster::model::{
    EpisodeMetadataItem, FeedShelf, MovieMetadataResponse, PersonDetailsResponse,
    SeriesSeasonsResponse,
};
use crate::ranking::at_most;
use vstd::prelude::*;

verus! {

/// Where the poster and the backdrop of a movie are.
#[derive(Debug, Clone)]
pub struct ImagePaths {
    pub poster: Option<String>,
    pub backdrop: Option<String>,
}

/// What a cache holds under a key. Times are in nanoseconds, on a clock that does not go back.
#[derive(Debug, Clone)]
pub enum CacheValue {
    /// When it was found that there is no poster.
    Missing(u64),
    Seasons(SeriesSeasonsResponse),
    Episodes(Vec<EpisodeMetadataItem>),
    Movie(MovieMetadataResponse),
    Person(PersonDetailsResponse),
    Resolved(MovieDoc),
    /// A page of a shelf, and when it was fetched.
    Page(u64, FeedShelf),
    /// Where the poster is, if there is one.
    PosterPath(Option<String>),
    Paths(ImagePaths),
}

// ---------------------------------------------------------------------------
// What a cache holds
// ---------------------------------------------------------------------------

/// The value under a key.
pub open spec fn lookup(entries: Seq<(Seq<char>, CacheValue)>, key: Seq<char>) -> Option<CacheValue>
    decreases entries.len(),
{
    if entries.len() == 0 {
        None
    } else if entries[0].0 == key {
        Some(entries[0].1)
    } else {
        lookup(entries.skip(1), key)
    }
}

/// The entries without the one under a key.
pub open spec fn without(entries: Seq<(Seq<char>, CacheValue)>, key: Seq<char>) -> Seq<
    (Seq<char>, CacheValue),
>
    decreases entries.len(),
{
    if entries.len() == 0 {
        entries
    } else if entries[0].0 == key {
        entries.skip(1)
    } else {
        seq![entries[0]] + without(entries.skip(1), key)
    }
}

/// The entries, the last used first, after a key was looked up.
pub open spec fn touched(entries: Seq<(Seq<char>, CacheValue)>, key: Seq<char>) -> Seq<
    (Seq<char>, CacheValue),
> {
    match lookup(entries, key) {
        Some(value) => seq![(key, value)] + without(entries, key),
        None => entries,
    }
}

/// The entries, the last used first, after a value was put under a key. Where there is no room
/// for another key, the one that was not used for longest goes.
pub open spec fn stored(
    entries: Seq<(Seq<char>, CacheValue)>,
    capacity: nat,
    key: Seq<char>,
    value: CacheValue,
) -> Seq<(Seq<char>, CacheValue)> {
    match lookup(entries, key) {
        Some(_) => seq![(key, value)] + without(entries, key),
        None => seq![(key, value)] + at_most(entries, (capacity - 1) as nat),
    }
}

/// Whether every key has one entry.
pub open spec fn keys_differ(entries: Seq<(Seq<char>, CacheValue)>) -> bool {
    forall|i: int, j: int|
        0 <= i < j < entries.len() ==> (#[trigger] entries[i]).0 != (#[trigger] entries[j]).0
}

// ---------------------------------------------------------------------------
// The cache
// ---------------------------------------------------------------------------

/// The cache of the crate `lru`.
#[verifier::external_type_specification]
#[verifier::external_body]
#[verifier::reject_recursive_types(K)]
#[verifier::reject_recursive_types(V)]
#[verifier::reject_recursive_types(S)]
pub struct ExLruCache<K, V, S>(lru::LruCache<K, V, S>);

/// What the cache of the crate `lru` hashes its keys with.
#[verifier::external_type_specification]
#[verifier::external_body]
pub struct ExLruHasher(lru::DefaultHasher);

/// What an `lru::LruCache` holds, the last used first.
pub uninterp spec fn cache_entries(cache: lru::LruCache<String, CacheValue>) -> Seq<
    (Seq<char>, CacheValue),
>;

/// How many entries an `lru::LruCache` was made for.
pub uninterp spec fn cache_capacity(cache: lru::LruCache<String, CacheValue>) -> nat;

/// `lru::LruCache::new`: a cache without entries, for as many as are asked for. It makes room for
/// all of them at once, in the table of the crate `hashbrown`, and panics where the size of the
/// table in bytes is above `isize::MAX`. The table has at most 16 / 7 times as many places as are
/// asked for, or 4 if that is more, and a place takes two pointers and a byte: that is below 64
/// bytes for each entry that is asked for, and a few more.
#[verifier::external_body]
fn lru_new(capacity: usize) -> (r: lru::LruCache<String, CacheValue>)
    requires
        0 < capacity,
        capacity * 256 <= usize::MAX,
    ensures
        cache_entries(r) == Seq::<(Seq<char>, CacheValue)>::empty(),
        cache_capacity(r) == capacity,
{
    lru::LruCache::new(std::num::NonZeroUsize::new(capacity).unwrap())
}

/// `lru::LruCache::get`: the value under a key, if there is one; its entry is the last used then.
#[verifier::external_body]
fn lru_get<'a>(cache: &'a mut lru::LruCache<String, CacheValue>, key: &str) -> (r: Option<
    &'a CacheValue,
>)
    ensures
        r == (match lookup(cache_entries(*old(cache)), key@) {
            Some(value) => Some(&value),
            None => None,
        }),
        cache_entries(*final(cache)) == touched(cache_entries(*old(cache)), key@),
        cache_capacity(*final(cache)) == cache_capacity(*old(cache)),
{
    cache.get(key)
}

/// `lru::LruCache::put`: the value stands under the key, in place of another that did, and its
/// entry is the last used. In a full cache the entry that was not used for longest makes room
/// for a new key.
#[verifier::external_body]
fn lru_put(cache: &mut lru::LruCache<String, CacheValue>, key: String, value: CacheValue)
    ensures
        cache_entries(*final(cache)) == stored(
            cache_entries(*old(cache)),
            cache_capacity(*old(cache)),
            key@,
            value,
        ),
        cache_capacity(*final(cache)) == cache_capacity(*old(cache)),
{
    let _ = cache.put(key, value);
}

/// A bounded cache.
pub struct Cache {
    lru: lru::LruCache<String, CacheValue>,
}

impl Cache {
    /// The entries of the cache, the last used first.
    pub closed spec fn entries(self) -> Seq<(Seq<char>, CacheValue)> {
        cache_entries(self.lru)
    }

    /// How many entries the cache is made for.
    pub closed spec fn capacity(self) -> nat {
        cache_capacity(self.lru)
    }

    /// Whether the cache holds no more than it is made for, and one entry for a key.
    pub open spec fn wf(self) -> bool {
        &&& 0 < self.capacity()
        &&& self.entries().len() <= self.capacity()
        &&& keys_differ(self.entries())
    }

    /// An empty cache, for so many entries that the table in which they are found fits in memory.
    pub fn new(capacity: usize) -> (r: Cache)
        requires
            0 < capacity,
            capacity * 256 <= usize::MAX,
        ensures
            r.wf(),
            r.entries() == Seq::<(Seq<char>, CacheValue)>::empty(),
            r.capacity() == capacity,
    {
        Cache { lru: lru_new(capacity) }
    }

    /// The value under a key, if there is one.
    pub fn get<'a>(&'a mut self, key: &str) -> (r: Option<&'a CacheValue>)
        ensures
            r == (match lookup(old(self).entries(), key@) {
                Some(value) => Some(&value),
                None => None,
            }),
            final(self).entries() == touched(old(self).entries(), key@),
            final(self).capacity() == old(self).capacity(),
            old(self).wf() ==> final(self).wf(),
    {
        proof {
            if self.wf() {
                law_cache_stays_bounded(
                    self.entries(),
                    self.capacity(),
                    key@,
                    CacheValue::Missing(0),
                );
            }
        }
        lru_get(&mut self.lru, key)
    }

    /// Puts a value under a key.
    pub fn put(&mut self, key: String, value: CacheValue)
        ensures
            final(self).entries() == stored(
                old(self).entries(),
                old(self).capacity(),
                key@,
                value,
            ),
            final(self).capacity() == old(self).capacity(),
            old(self).wf() ==> final(self).wf(),
    {
        proof {
            if self.wf() {
                law_cache_stays_bounded(self.entries(), self.capacity(), key@, value);
            }
        }
        lru_put(&mut self.lru, key, value);
    }
}

// ---------------------------------------------------------------------------
// Laws
// ---------------------------------------------------------------------------

proof fn lemma_without(entries: Seq<(Seq<char>, CacheValue)>, key: Seq<char>)
    ensures
        without(entries, key).len() == (if lookup(entries, key) is Some {
            entries.len() - 1
        } else {
            entries.len() as int
        }),
        forall|other: Seq<char>|
            other != key ==> #[trigger] lookup(without(entries, key), other) == lookup(
                entries,
                other,
            ),
        keys_differ(entries) ==> keys_differ(without(entries, key)),
        keys_differ(entries) ==> lookup(without(entries, key), key) is None,
    decreases entries.len(),
{
    if entries.len() > 0 {
        let rest = entries.skip(1);
        lemma_without(rest, key);
        assert(forall|i: int| 0 <= i < rest.len() ==> #[trigger] rest[i] == entries[i + 1]);
        if entries[0].0 == key {
            if keys_differ(entries) {
                lemma_absent(rest, key);
            }
        } else {
            let left = without(rest, key);
            let whole = seq![entries[0]] + left;
            assert(whole.skip(1) =~= left);
            assert forall|other: Seq<char>| other != key implies #[trigger] lookup(whole, other)
                == lookup(entries, other) by {
                assert(lookup(left, other) == lookup(rest, other));
            }
            if keys_differ(entries) {
                assert forall|i: int, j: int| 0 <= i < j < whole.len() implies (
                #[trigger] whole[i]).0 != (#[trigger] whole[j]).0 by {
                    if i == 0 {
                        assert(whole[j] == left[j - 1]);
                        lemma_without_subset(rest, key, j - 1);
                    } else {
                        assert(whole[i] == left[i - 1] && whole[j] == left[j - 1]);
                    }
                }
            }
        }
    }
}

/// A key that no entry has is not found.
proof fn lemma_absent(entries: Seq<(Seq<char>, CacheValue)>, key: Seq<char>)
    requires
        forall|i: int| 0 <= i < entries.len() ==> (#[trigger] entries[i]).0 != key,
    ensures
        lookup(entries, key) is None,
    decreases entries.len(),
{
    if entries.len() > 0 {
        let rest = entries.skip(1);
        assert(forall|i: int| 0 <= i < rest.len() ==> #[trigger] rest[i] == entries[i + 1]);
        lemma_absent(rest, key);
    }
}

/// What is left after an entry went was there before.
proof fn lemma_without_subset(entries: Seq<(Seq<char>, CacheValue)>, key: Seq<char>, i: int)
    requires
        0 <= i < without(entries, key).len(),
    ensures
        exists|j: int| 0 <= j < entries.len() && entries[j] == without(entries, key)[i],
    decreases entries.len(),
{
    if entries.len() > 0 {
        let rest = entries.skip(1);
        if entries[0].0 == key {
            assert(entries[i + 1] == without(entries, key)[i]);
        } else if i == 0 {
            assert(entries[0] == without(entries, key)[i]);
        } else {
            lemma_without_subset(rest, key, i - 1);
            let j = choose|j: int| 0 <= j < rest.len() && rest[j] == without(rest, key)[i - 1];
            assert(entries[j + 1] == without(entries, key)[i]);
        }
    }
}

/// What is found among the first entries is found among all.
proof fn lemma_lookup_take(entries: Seq<(Seq<char>, CacheValue)>, n: int, key: Seq<char>)
    requires
        0 <= n <= entries.len(),
    ensures
        lookup(entries.take(n), key) is Some ==> lookup(entries.take(n), key) == lookup(
            entries,
            key,
        ),
    decreases entries.len(),
{
    if n > 0 {
        let rest = entries.skip(1);
        assert(entries.take(n).skip(1) =~= rest.take(n - 1));
        assert(entries.take(n)[0] == entries[0]);
        lemma_lookup_take(rest, n - 1, key);
    }
}

/// A value that was put under a key is found under it.
pub proof fn law_stored_is_found(
    entries: Seq<(Seq<char>, CacheValue)>,
    capacity: nat,
    key: Seq<char>,
    value: CacheValue,
)
    ensures
        lookup(stored(entries, capacity, key, value), key) == Some(value),
{
}

/// Under another key the same is found as before, or nothing; nothing only where the cache was
/// full and had to make room.
pub proof fn law_others_stay(
    entries: Seq<(Seq<char>, CacheValue)>,
    capacity: nat,
    key: Seq<char>,
    value: CacheValue,
    other: Seq<char>,
)
    requires
        0 < capacity,
        other != key,
    ensures
        lookup(stored(entries, capacity, key, value), other) == lookup(entries, other) || (lookup(
            stored(entries, capacity, key, value),
            other,
        ) is None && lookup(entries, key) is None && entries.len() >= capacity),
{
    let after = stored(entries, capacity, key, value);
    lemma_without(entries, key);
    match lookup(entries, key) {
        Some(_) => {
            assert(after.skip(1) =~= without(entries, key));
            assert(lookup(after, other) == lookup(without(entries, key), other));
        },
        None => {
            let kept = at_most(entries, (capacity - 1) as nat);
            assert(after.skip(1) =~= kept);
            if kept != entries {
                lemma_lookup_take(entries, (capacity - 1) as nat as int, other);
            }
        },
    }
}

/// A cache never holds more than it is made for, and never two entries under one key.
pub proof fn law_cache_stays_bounded(
    entries: Seq<(Seq<char>, CacheValue)>,
    capacity: nat,
    key: Seq<char>,
    value: CacheValue,
)
    requires
        0 < capacity,
        entries.len() <= capacity,
        keys_differ(entries),
    ensures
        stored(entries, capacity, key, value).len() <= capacity,
        keys_differ(stored(entries, capacity, key, value)),
        touched(entries, key).len() == entries.len(),
        keys_differ(touched(entries, key)),
{
    lemma_without(entries, key);
    let left = without(entries, key);
    match lookup(entries, key) {
        Some(held) => {
            lemma_prepended(left, key, value);
            lemma_prepended(left, key, held);
        },
        None => {
            let kept = at_most(entries, (capacity - 1) as nat);
            lemma_lookup_take(entries, kept.len() as int, key);
            assert(entries.take(kept.len() as int) =~= kept);
            lemma_prepended(kept, key, value);
        },
    }
}

proof fn lemma_prepended(left: Seq<(Seq<char>, CacheValue)>, key: Seq<char>, value: CacheValue)
    requires
        keys_differ(left),
        lookup(left, key) is None,
    ensures
        keys_differ(seq![(key, value)] + left),
{
    let whole = seq![(key, value)] + left;
    assert forall|i: int, j: int| 0 <= i < j < whole.len() implies (#[trigger] whole[i]).0 != (
    #[trigger] whole[j]).0 by {
        assert(whole[j] == left[j - 1]);
        if i == 0 {
            lemma_not_found(left, key, j - 1);
        } else {
            assert(whole[i] == left[i - 1]);
        }
    }
}

proof fn lemma_not_found(entries: Seq<(Seq<char>, CacheValue)>, key: Seq<char>, i: int)
    requires
        lookup(entries, key) is None,
        0 <= i < entries.len(),
    ensures
        entries[i].0 != key,
    decreases entries.len(),
{
    if i > 0 {
        assert(entries.skip(1)[i - 1] == entries[i]);
        lemma_not_found(entries.skip(1), key, i - 1);
    }
}

/// Looking a key up changes nothing of what is found.
pub proof fn law_looking_up_keeps(
    entries: Seq<(Seq<char>, CacheValue)>,
    key: Seq<char>,
    other: Seq<char>,
)
    ensures
        lookup(touched(entries, key), other) == lookup(entries, other),
{
    lemma_without(entries, key);
    match lookup(entries, key) {
        Some(value) => {
            let after = touched(entries, key);
            assert(after.skip(1) =~= without(entries, key));
            if other != key {
                assert(lookup(after, other) == lookup(without(entries, key), other));
            }
        },
        None => {},
    }
}

/// What was put in last is the last used: looking it up changes nothing.
pub proof fn law_last_stored_stays_first(
    entries: Seq<(Seq<char>, CacheValue)>,
    capacity: nat,
    key: Seq<char>,
    value: CacheValue,
)
    ensures
        touched(stored(entries, capacity, key, value), key) == stored(
            entries,
            capacity,
            key,
            value,
        ),
{
    let after = stored(entries, capacity, key, value);
    assert(after[0] == (key, value));
    assert(seq![(key, value)] + after.skip(1) =~= after);
}

/// In a full cache a new key takes the place of the one that was not used for longest.
pub proof fn law_oldest_goes(
    entries: Seq<(Seq<char>, CacheValue)>,
    capacity: nat,
    key: Seq<char>,
    value: CacheValue,
)
    requires
        0 < capacity,
        entries.len() == capacity,
        keys_differ(entries),
        lookup(entries, key) is None,
    ensures
        stored(entries, capacity, key, value) == seq![(key, value)] + entries.drop_last(),
        lookup(stored(entries, capacity, key, value), entries.last().0) is None,
{
    let kept = at_most(entries, (capacity - 1) as nat);
    assert(kept =~= entries.drop_last());
    let oldest = entries.last().0;
    lemma_not_found(entries, key, entries.len() - 1);
    lemma_absent(kept, oldest);
    assert((seq![(key, value)] + kept).skip(1) =~= kept);
}

} // verus!
