//! Lists of values and of what they hold.
use vstd::prelude::*;

verus! {

/// What a list of values holds.
pub open spec fn views<T: View>(items: Seq<T>) -> Seq<T::V> {
    Seq::new(items.len(), |i: int| items[i]@)
}

/// Appending a value appends what it holds.
pub proof fn lemma_views_push<T: View>(items: Seq<T>, item: T)
    ensures
        views(items.push(item)) == views(items).push(item@),
{
    assert(views(items.push(item)) =~= views(items).push(item@));
}

/// Reading the items of a list that can be read gives no more than there are.
pub proof fn lemma_filter_map_len<T, U>(items: Seq<T>, f: spec_fn(T) -> Option<U>)
    ensures
        items.filter_map(f).len() <= items.len(),
    decreases items.len(),
{
    if items.len() > 0 {
        lemma_filter_map_len(items.drop_last(), f);
    }
}

/// Every item of a list that can be read is among those that are read.
pub proof fn lemma_filter_map_keeps<T, U>(items: Seq<T>, f: spec_fn(T) -> Option<U>, i: int)
    requires
        0 <= i < items.len(),
        f(items[i]) is Some,
    ensures
        items.filter_map(f).contains(f(items[i]).unwrap()),
    decreases items.len(),
{
    let read = items.filter_map(f);
    let rest = items.drop_last().filter_map(f);
    let wanted = f(items[i]).unwrap();
    if i < items.len() - 1 {
        lemma_filter_map_keeps(items.drop_last(), f, i);
        let k = choose|k: int| 0 <= k < rest.len() && rest[k] == wanted;
        assert(read[k] == wanted);
    } else {
        assert(read[rest.len() as int] == wanted);
    }
}

/// Whether places ascend and are below `n`.
pub open spec fn ascend_below(from: Seq<int>, n: int) -> bool {
    &&& forall|a: int| 0 <= a < from.len() ==> 0 <= #[trigger] from[a] < n
    &&& forall|a: int, b: int|
        0 <= a < b < from.len() ==> (#[trigger] from[a]) < (#[trigger] from[b])
}

/// Whether a list holds, in their order, those items of another that count, and no others, each of
/// them as it is to be shown.
pub open spec fn shows_in_order<T, U>(
    items: Seq<T>,
    shown: Seq<U>,
    counts: spec_fn(T) -> bool,
    is_as: spec_fn(U, T) -> bool,
) -> bool {
    exists|from: Seq<int>| #[trigger]
        ascend_below(from, items.len() as int) && from.len() == shown.len() && (forall|k: int|
            0 <= k < shown.len() ==> is_as(#[trigger] shown[k], items[from[k]]) && counts(
                items[from[k]],
            )) && (forall|i: int|
            0 <= i < items.len() && counts(#[trigger] items[i]) ==> from.contains(i))
}

/// Reading the items of a list that can be read shows them in their order.
pub proof fn lemma_read_in_order<T, U>(
    items: Seq<T>,
    f: spec_fn(T) -> Option<U>,
    counts: spec_fn(T) -> bool,
    is_as: spec_fn(U, T) -> bool,
)
    requires
        forall|i: int|
            0 <= i < items.len() ==> (counts(#[trigger] items[i]) <==> f(items[i]) is Some),
        forall|i: int|
            0 <= i < items.len() && f(#[trigger] items[i]) is Some ==> is_as(
                f(items[i]).unwrap(),
                items[i],
            ),
    ensures
        shows_in_order(items, items.filter_map(f), counts, is_as),
{
    let from = lemma_read_from(items, f);
    assert(ascend_below(from, items.len() as int));
}

/// The places of those items of a list that can be read.
proof fn lemma_read_from<T, U>(items: Seq<T>, f: spec_fn(T) -> Option<U>) -> (from: Seq<int>)
    ensures
        ascend_below(from, items.len() as int),
        from.len() == items.filter_map(f).len(),
        forall|k: int|
            0 <= k < from.len() ==> f(items[#[trigger] from[k]]) == Some(items.filter_map(f)[k]),
        forall|i: int| 0 <= i < items.len() && f(#[trigger] items[i]) is Some ==> from.contains(i),
    decreases items.len(),
{
    if items.len() == 0 {
        Seq::empty()
    } else {
        let rest = items.drop_last();
        let n = rest.len() as int;
        let before = lemma_read_from(rest, f);
        assert(forall|i: int| 0 <= i < n ==> #[trigger] items[i] == rest[i]);
        if f(items.last()) is Some {
            let from = before.push(n);
            assert forall|i: int|
                0 <= i < items.len() && f(#[trigger] items[i]) is Some implies from.contains(i) by {
                if i < n {
                    assert(f(rest[i]) is Some);
                    let k = choose|k: int| 0 <= k < before.len() && before[k] == i;
                    assert(from[k] == i);
                } else {
                    assert(from[before.len() as int] == i);
                }
            }
            assert forall|k: int| 0 <= k < from.len() implies f(items[#[trigger] from[k]]) == Some(
                items.filter_map(f)[k],
            ) by {
                if k < before.len() {
                    assert(from[k] == before[k]);
                    assert(items[before[k]] == rest[before[k]]);
                }
            }
            from
        } else {
            assert forall|i: int|
                0 <= i < items.len() && f(#[trigger] items[i]) is Some implies before.contains(
                i,
            ) by {
                assert(f(rest[i]) is Some);
            }
            assert forall|k: int| 0 <= k < before.len() implies f(items[#[trigger] before[k]])
                == Some(items.filter_map(f)[k]) by {
                assert(items[before[k]] == rest[before[k]]);
            }
            before
        }
    }
}

} // verus!
