//! A stable sort of items by integer keys.
use vstd::prelude::*;

verus! {

/// An item put into a list that is sorted by keys: behind all items whose key is not above its own.
pub open spec fn placed<T>(sorted: Seq<(u64, T)>, item: (u64, T)) -> Seq<(u64, T)>
    decreases sorted.len(),
{
    if sorted.len() == 0 || sorted.last().0 <= item.0 {
        sorted.push(item)
    } else {
        placed(sorted.drop_last(), item).push(sorted.last())
    }
}

/// Items in ascending order of their keys, those with equal keys in their old order.
pub open spec fn sorted_by_key<T>(items: Seq<(u64, T)>) -> Seq<(u64, T)>
    decreases items.len(),
{
    if items.len() == 0 {
        Seq::empty()
    } else {
        placed(sorted_by_key(items.drop_last()), items.last())
    }
}

/// Whether keys ascend along a list.
pub open spec fn keys_ascend<T>(s: Seq<(u64, T)>) -> bool {
    forall|i: int, j: int| 0 <= i <= j < s.len() ==> (#[trigger] s[i]).0 <= (#[trigger] s[j]).0
}

proof fn lemma_placed<T>(sorted: Seq<(u64, T)>, item: (u64, T))
    requires
        keys_ascend(sorted),
    ensures
        keys_ascend(placed(sorted, item)),
        placed(sorted, item).len() == sorted.len() + 1,
        placed(sorted, item).to_multiset() == sorted.to_multiset().insert(item),
        forall|i: int|
            0 <= i <= sorted.len() ==> (#[trigger] placed(sorted, item)[i]).0 <= item.0 || (
            sorted.len() > 0 && placed(sorted, item)[i].0 <= sorted.last().0),
    decreases sorted.len(),
{
    broadcast use vstd::seq_lib::group_to_multiset_ensures;

    if sorted.len() == 0 || sorted.last().0 <= item.0 {
    } else {
        let rest = sorted.drop_last();
        lemma_placed(rest, item);
        let p = placed(rest, item);
        assert(sorted =~= rest.push(sorted.last()));
        assert forall|i: int| 0 <= i < p.len() implies (#[trigger] p[i]).0 <= sorted.last().0 by {
            if rest.len() > 0 {
                assert(rest.last() == sorted[rest.len() - 1]);
            }
        }
        assert(sorted.to_multiset().insert(item) =~= p.to_multiset().insert(sorted.last()));
    }
}

/// Where an item is put: the items with keys up to its own, the item, the others.
pub proof fn lemma_placed_at<T>(sorted: Seq<(u64, T)>, item: (u64, T), n: int)
    requires
        0 <= n <= sorted.len(),
        n > 0 ==> sorted[n - 1].0 <= item.0,
        forall|i: int| n <= i < sorted.len() ==> (#[trigger] sorted[i]).0 > item.0,
    ensures
        placed(sorted, item) == sorted.insert(n, item),
    decreases sorted.len(),
{
    if n < sorted.len() {
        let rest = sorted.drop_last();
        assert(sorted.last() == sorted[sorted.len() - 1]);
        lemma_placed_at(rest, item, n);
        assert(rest.insert(n, item).push(sorted.last()) =~= sorted.insert(n, item));
    } else {
        if n > 0 {
            assert(sorted.last() == sorted[n - 1]);
        }
        assert(sorted.push(item) =~= sorted.insert(n, item));
    }
}

/// Sorting keeps every item and brings the keys into ascending order.
pub proof fn law_sorted_by_key<T>(items: Seq<(u64, T)>)
    ensures
        keys_ascend(sorted_by_key(items)),
        sorted_by_key(items).len() == items.len(),
        sorted_by_key(items).to_multiset() == items.to_multiset(),
    decreases items.len(),
{
    broadcast use vstd::seq_lib::group_to_multiset_ensures;

    if items.len() > 0 {
        law_sorted_by_key(items.drop_last());
        lemma_placed(sorted_by_key(items.drop_last()), items.last());
        assert(items =~= items.drop_last().push(items.last()));
    } else {
        assert(items =~= Seq::empty());
    }
}

/// Items with one and the same key stay in their old order.
pub proof fn law_sorting_is_stable<T>(items: Seq<(u64, T)>, key: u64)
    ensures
        sorted_by_key(items).filter(|p: (u64, T)| p.0 == key) == items.filter(
            |p: (u64, T)| p.0 == key,
        ),
    decreases items.len(),
{
    reveal(Seq::filter);
    let keep = |p: (u64, T)| p.0 == key;
    if items.len() > 0 {
        let sorted = sorted_by_key(items.drop_last());
        law_sorting_is_stable(items.drop_last(), key);
        law_sorted_by_key(items.drop_last());
        lemma_placed_filter(sorted, items.last(), key);
        assert(sorted_by_key(items).filter(keep) =~= items.filter(keep));
    } else {
        assert(sorted_by_key(items).filter(keep) =~= items.filter(keep));
    }
}

proof fn lemma_placed_filter<T>(sorted: Seq<(u64, T)>, item: (u64, T), key: u64)
    requires
        keys_ascend(sorted),
    ensures
        placed(sorted, item).filter(|p: (u64, T)| p.0 == key) == (if item.0 == key {
            sorted.filter(|p: (u64, T)| p.0 == key).push(item)
        } else {
            sorted.filter(|p: (u64, T)| p.0 == key)
        }),
    decreases sorted.len(),
{
    reveal(Seq::filter);
    let keep = |p: (u64, T)| p.0 == key;
    let whole = placed(sorted, item);
    if sorted.len() == 0 || sorted.last().0 <= item.0 {
        assert(whole.drop_last() =~= sorted);
        assert(whole.last() == item);
    } else {
        let rest = sorted.drop_last();
        lemma_placed_filter(rest, item, key);
        assert(whole.drop_last() =~= placed(rest, item));
        assert(whole.last() == sorted.last());
        if item.0 == key {
            assert(!keep(sorted.last()));
        }
    }
}

/// Changing the items behind the keys changes the sorted items alike.
pub proof fn lemma_sorted_map<T, U>(items: Seq<(u64, T)>, f: spec_fn(T) -> U)
    ensures
        sorted_by_key(items.map_values(|p: (u64, T)| (p.0, f(p.1)))) == sorted_by_key(
            items,
        ).map_values(|p: (u64, T)| (p.0, f(p.1))),
    decreases items.len(),
{
    let g = |p: (u64, T)| (p.0, f(p.1));
    if items.len() > 0 {
        lemma_sorted_map(items.drop_last(), f);
        assert(items.map_values(g).drop_last() =~= items.drop_last().map_values(g));
        lemma_placed_map(sorted_by_key(items.drop_last()), items.last(), f);
    }
    assert(sorted_by_key(items.map_values(g)) =~= sorted_by_key(items).map_values(g));
}

proof fn lemma_placed_map<T, U>(sorted: Seq<(u64, T)>, item: (u64, T), f: spec_fn(T) -> U)
    ensures
        placed(sorted.map_values(|p: (u64, T)| (p.0, f(p.1))), (item.0, f(item.1))) == placed(
            sorted,
            item,
        ).map_values(|p: (u64, T)| (p.0, f(p.1))),
    decreases sorted.len(),
{
    let g = |p: (u64, T)| (p.0, f(p.1));
    let mapped = sorted.map_values(g);
    if sorted.len() == 0 || sorted.last().0 <= item.0 {
        assert(mapped.push(g(item)) =~= sorted.push(item).map_values(g));
    } else {
        assert(mapped.drop_last() =~= sorted.drop_last().map_values(g));
        lemma_placed_map(sorted.drop_last(), item, f);
        assert(placed(mapped, g(item)) =~= placed(sorted, item).map_values(g));
    }
}

/// Puts an item into a list that is sorted by keys.
pub fn place<T>(sorted: &mut Vec<(u64, T)>, item: (u64, T))
    requires
        keys_ascend(old(sorted)@),
    ensures
        final(sorted)@ == placed(old(sorted)@, item),
        keys_ascend(final(sorted)@),
{
    let ghost before = sorted@;
    let mut at: usize = sorted.len();
    while at > 0 && sorted[at - 1].0 > item.0
        invariant
            sorted@ == before,
            at <= before.len(),
            forall|i: int| at <= i < before.len() ==> (#[trigger] before[i]).0 > item.0,
        decreases at,
    {
        at = at - 1;
    }
    proof {
        lemma_placed_at(before, item, at as int);
        lemma_placed(before, item);
    }
    sorted.insert(at, item);
}

/// Items in ascending order of their keys, those with equal keys in their old order.
pub fn sort_by_key<T>(items: Vec<(u64, T)>) -> (r: Vec<(u64, T)>)
    ensures
        r@ == sorted_by_key(items@),
{
    let mut out: Vec<(u64, T)> = Vec::new();
    let ghost all = items@;
    proof {
        assert(all.take(0) =~= Seq::empty());
    }
    for item in it: items
        invariant
            it.seq() == all,
            out@ == sorted_by_key(all.take(it.index() as int)),
            keys_ascend(out@),
    {
        proof {
            let next = all.take(it.index() as int + 1);
            assert(next.drop_last() =~= all.take(it.index() as int));
            assert(next.last() == item);
        }
        place(&mut out, item);
    }
    proof {
        assert(all.take(all.len() as int) =~= all);
    }
    out
}

/// The key that brings larger numbers to the front.
pub open spec fn descending(key: u64) -> u64 {
    (u64::MAX - key) as u64
}

/// The first `n` of a list, or all of a shorter one.
pub open spec fn at_most<T>(items: Seq<T>, n: nat) -> Seq<T> {
    if items.len() <= n {
        items
    } else {
        items.take(n as int)
    }
}

/// The items of a list without their keys.
pub open spec fn without_keys<T>(items: Seq<(u64, T)>) -> Seq<T> {
    Seq::new(items.len(), |i: int| items[i].1)
}

/// The first `n` items in ascending order of their keys.
pub open spec fn ranked<T>(items: Seq<(u64, T)>, n: nat) -> Seq<T> {
    without_keys(at_most(sorted_by_key(items), n))
}

/// What keyed items hold.
pub open spec fn keyed_views<T: View>(items: Seq<(u64, T)>) -> Seq<(u64, T::V)> {
    Seq::new(items.len(), |i: int| (items[i].0, items[i].1@))
}

/// Sorting items sorts what they hold.
pub proof fn lemma_sorted_views<T: View>(items: Seq<(u64, T)>)
    ensures
        keyed_views(sorted_by_key(items)) == sorted_by_key(keyed_views(items)),
{
    let f = |t: T| t@;
    lemma_sorted_map(items, f);
    assert(items.map_values(|p: (u64, T)| (p.0, f(p.1))) =~= keyed_views(items));
    assert(sorted_by_key(items).map_values(|p: (u64, T)| (p.0, f(p.1))) =~= keyed_views(
        sorted_by_key(items),
    ));
}

/// The first `n` items in ascending order of their keys, those with equal keys in their old order.
pub fn take_ranked<T>(items: Vec<(u64, T)>, n: usize) -> (r: Vec<T>)
    ensures
        r@ == ranked(items@, n as nat),
{
    let ghost all = items@;
    let mut sorted = sort_by_key(items);
    if sorted.len() > n {
        sorted.truncate(n);
    }
    let ghost chosen = at_most(sorted_by_key(all), n as nat);
    proof {
        assert(sorted@ =~= chosen);
    }
    let mut out: Vec<T> = Vec::new();
    for item in it: sorted
        invariant
            it.seq() == chosen,
            out@ =~= without_keys(chosen).take(it.index() as int),
    {
        out.push(item.1);
    }
    out
}

/// Whether a value stands in a list with a key up to a given one.
pub open spec fn has_up_to<T>(items: Seq<(u64, T)>, value: T, key: u64) -> bool {
    exists|k: int| 0 <= k < items.len() && (#[trigger] items[k]).1 == value && items[k].0 <= key
}

/// Of a list the first by key are taken, as many as asked for or all where there are fewer: an item
/// that is not taken stands behind every one that is. Among those that are taken keys ascend.
pub proof fn law_the_first_are_taken<T>(items: Seq<(u64, T)>, n: nat, i: int)
    requires
        0 <= i < items.len(),
    ensures
        ranked(items, n).len() == (if items.len() < n {
            items.len()
        } else {
            n
        }),
        ranked(items, n).contains(items[i].1) || ranked(items, n).len() == n && forall|r: int|
            0 <= r < n ==> has_up_to(items, #[trigger] ranked(items, n)[r], items[i].0),
{
    broadcast use vstd::seq_lib::group_to_multiset_ensures;

    law_sorted_by_key(items);
    let sorted = sorted_by_key(items);
    let chosen = ranked(items, n);
    assert(items.contains(items[i]));
    assert(sorted.to_multiset().count(items[i]) > 0);
    assert(sorted.contains(items[i]));
    let p = choose|p: int| 0 <= p < sorted.len() && sorted[p] == items[i];
    if p < n {
        assert(chosen[p] == items[i].1);
    } else {
        assert forall|r: int| 0 <= r < n implies has_up_to(
            items,
            #[trigger] chosen[r],
            items[i].0,
        ) by {
            lemma_sorted_is_from(items, r);
            let k = choose|k: int| 0 <= k < items.len() && items[k] == sorted[r];
            assert(items[k].1 == chosen[r]);
            assert(sorted[r].0 <= sorted[p].0);
        }
    }
}

/// What a sorted list holds is in the list that was sorted.
pub proof fn lemma_sorted_is_from<T>(items: Seq<(u64, T)>, r: int)
    requires
        0 <= r < items.len(),
    ensures
        sorted_by_key(items).len() == items.len(),
        items.contains(sorted_by_key(items)[r]),
{
    broadcast use vstd::seq_lib::group_to_multiset_ensures;

    law_sorted_by_key(items);
    let sorted = sorted_by_key(items);
    assert(sorted.contains(sorted[r]));
    assert(items.to_multiset().count(sorted[r]) > 0);
}

/// Those that are taken come from the list, in ascending order of their keys.
pub proof fn law_those_taken_are_in_order<T>(items: Seq<(u64, T)>, n: nat, r: int, s: int)
    requires
        0 <= r <= s < ranked(items, n).len(),
    ensures
        exists|k: int, l: int|
            0 <= k < items.len() && 0 <= l < items.len() && (#[trigger] items[k]).1 == ranked(
                items,
                n,
            )[r] && (#[trigger] items[l]).1 == ranked(items, n)[s] && items[k].0 <= items[l].0,
{
    law_sorted_by_key(items);
    let sorted = sorted_by_key(items);
    lemma_sorted_is_from(items, r);
    lemma_sorted_is_from(items, s);
    let k = choose|k: int| 0 <= k < items.len() && items[k] == sorted[r];
    let l = choose|l: int| 0 <= l < items.len() && items[l] == sorted[s];
    assert(items[k].1 == ranked(items, n)[r]);
    assert(items[l].1 == ranked(items, n)[s]);
    assert(sorted[r].0 <= sorted[s].0);
}

/// The key of a larger number is smaller.
pub proof fn law_larger_numbers_come_first(a: u64, b: u64)
    ensures
        a < b <==> descending(b) < descending(a),
{
}

/// Of a list that is long enough the first are kept, of another one all.
pub proof fn law_the_beginning_is_kept<T>(items: Seq<T>, n: nat, i: int)
    requires
        0 <= i < items.len(),
    ensures
        i < n ==> i < at_most(items, n).len() && at_most(items, n)[i] == items[i],
        at_most(items, n).len() <= n,
        at_most(items, n).len() <= items.len(),
{
}

} // verus!
