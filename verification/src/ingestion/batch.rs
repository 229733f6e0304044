//! Rows that are stored a batch at a time.
use vstd::prelude::*;

verus! {

/// How many rows are stored at a time.
pub const BATCH_SIZE: usize = 10_000;

/// The rows that wait after one more was added to some.
pub open spec fn waiting_after<T>(waiting: Seq<T>, item: T) -> Seq<T> {
    if waiting.len() + 1 >= BATCH_SIZE {
        Seq::empty()
    } else {
        waiting.push(item)
    }
}

/// The rows that are handed out when one more is added to those that wait.
pub open spec fn handed_over<T>(waiting: Seq<T>, item: T) -> Option<Seq<T>> {
    if waiting.len() + 1 >= BATCH_SIZE {
        Some(waiting.push(item))
    } else {
        None
    }
}

/// Rows that wait to be stored together.
#[derive(Debug)]
pub struct Batch<T> {
    items: Vec<T>,
}

impl<T> Batch<T> {
    /// The rows that wait.
    pub closed spec fn waiting(self) -> Seq<T> {
        self.items@
    }

    /// Whether fewer rows wait than are stored at a time.
    pub open spec fn wf(self) -> bool {
        self.waiting().len() < BATCH_SIZE
    }

    /// An empty batch.
    pub fn new() -> (r: Batch<T>)
        ensures
            r.wf(),
            r.waiting() == Seq::<T>::empty(),
    {
        Batch { items: Vec::new() }
    }

    /// Adds a row, and hands all out that wait as soon as they are enough.
    pub fn push(&mut self, item: T) -> (r: Option<Vec<T>>)
        requires
            old(self).wf(),
        ensures
            final(self).wf(),
            final(self).waiting() == waiting_after(old(self).waiting(), item),
            match r {
                Some(full) => {
                    &&& handed_over(old(self).waiting(), item) == Some(full@)
                    &&& full@.len() == BATCH_SIZE
                },
                None => handed_over(old(self).waiting(), item) is None,
            },
    {
        self.items.push(item);
        if self.items.len() >= BATCH_SIZE {
            let mut full: Vec<T> = Vec::new();
            std::mem::swap(&mut full, &mut self.items);
            Some(full)
        } else {
            None
        }
    }

    /// Hands out what still waits, if anything does.
    pub fn finish(self) -> (r: Option<Vec<T>>)
        ensures
            match r {
                Some(rest) => rest@ == self.waiting() && rest@.len() > 0,
                None => self.waiting().len() == 0,
            },
    {
        if self.items.len() == 0 {
            None
        } else {
            Some(self.items)
        }
    }
}

/// The rows that wait after some were added, one after the other.
pub open spec fn left_waiting<T>(rows: Seq<T>) -> Seq<T>
    decreases rows.len(),
{
    if rows.len() == 0 {
        Seq::empty()
    } else {
        waiting_after(left_waiting(rows.drop_last()), rows.last())
    }
}

/// The batches that are handed out while rows are added, one after the other.
pub open spec fn handed_out<T>(rows: Seq<T>) -> Seq<Seq<T>>
    decreases rows.len(),
{
    if rows.len() == 0 {
        Seq::empty()
    } else {
        match handed_over(left_waiting(rows.drop_last()), rows.last()) {
            Some(full) => handed_out(rows.drop_last()).push(full),
            None => handed_out(rows.drop_last()),
        }
    }
}

/// The rows of some batches, one batch after the other.
pub open spec fn rows_of<T>(batches: Seq<Seq<T>>) -> Seq<T>
    decreases batches.len(),
{
    if batches.len() == 0 {
        Seq::empty()
    } else {
        rows_of(batches.drop_last()) + batches.last()
    }
}

/// No row is lost, added or moved: the batches that were handed out, and what waits, are the
/// rows that were added, in order.
pub proof fn law_every_row_is_stored<T>(rows: Seq<T>)
    ensures
        rows_of(handed_out(rows)) + left_waiting(rows) == rows,
        left_waiting(rows).len() < BATCH_SIZE,
    decreases rows.len(),
{
    if rows.len() == 0 {
        assert(rows_of(handed_out(rows)) + left_waiting(rows) =~= rows);
    } else {
        let before = rows.drop_last();
        law_every_row_is_stored(before);
        if handed_over(left_waiting(before), rows.last()) is Some {
            assert(handed_out(rows).drop_last() =~= handed_out(before));
        }
        assert(rows_of(handed_out(rows)) + left_waiting(rows) =~= (rows_of(handed_out(before))
            + left_waiting(before)).push(rows.last()));
        assert(before.push(rows.last()) =~= rows);
    }
}

/// Rows are handed out ten thousand at a time, and no sooner.
pub proof fn law_batches_are_full<T>(rows: Seq<T>, i: int)
    ensures
        0 <= i < handed_out(rows).len() ==> handed_out(rows)[i].len() == 10_000,
        left_waiting(rows).len() < 10_000,
        rows.len() == handed_out(rows).len() * 10_000 + left_waiting(rows).len(),
    decreases rows.len(),
{
    if rows.len() > 0 {
        let before = rows.drop_last();
        law_batches_are_full(before, i);
        if handed_over(left_waiting(before), rows.last()) is Some {
            assert(handed_out(rows).len() == handed_out(before).len() + 1);
        }
    }
}

} // verus!
