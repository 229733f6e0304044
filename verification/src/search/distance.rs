//! The Levenshtein distance between words.
use crate::text::chars_of;
use vstd::prelude::*;

verus! {

/// The smaller of two numbers.
pub open spec fn smaller(a: nat, b: nat) -> nat {
    if a <= b {
        a
    } else {
        b
    }
}

/// The larger of two numbers.
pub open spec fn larger(a: nat, b: nat) -> nat {
    if a <= b {
        b
    } else {
        a
    }
}

/// How many characters have to be inserted, removed or replaced to make one text of another.
pub open spec fn distance(a: Seq<char>, b: Seq<char>) -> nat
    decreases a.len() + b.len(),
{
    if a.len() == 0 {
        b.len()
    } else if b.len() == 0 {
        a.len()
    } else {
        let removed = distance(a.drop_last(), b) + 1;
        let inserted = distance(a, b.drop_last()) + 1;
        let replaced = distance(a.drop_last(), b.drop_last()) + (if a.last() == b.last() {
            0nat
        } else {
            1nat
        });
        smaller(smaller(removed, inserted), replaced)
    }
}

/// The distance of two texts is at most the length of the longer one, and at least what one is
/// longer than the other.
pub proof fn law_distance_is_bounded(a: Seq<char>, b: Seq<char>)
    ensures
        distance(a, b) <= larger(a.len(), b.len()),
        distance(a, b) >= a.len() - b.len(),
        distance(a, b) >= b.len() - a.len(),
    decreases a.len() + b.len(),
{
    if a.len() > 0 && b.len() > 0 {
        law_distance_is_bounded(a.drop_last(), b);
        law_distance_is_bounded(a, b.drop_last());
        law_distance_is_bounded(a.drop_last(), b.drop_last());
    }
}

/// The distance is the same in both directions.
pub proof fn law_distance_is_symmetric(a: Seq<char>, b: Seq<char>)
    ensures
        distance(a, b) == distance(b, a),
    decreases a.len() + b.len(),
{
    if a.len() > 0 && b.len() > 0 {
        law_distance_is_symmetric(a.drop_last(), b);
        law_distance_is_symmetric(a, b.drop_last());
        law_distance_is_symmetric(a.drop_last(), b.drop_last());
    }
}

/// The distance is zero between equal texts and no others.
pub proof fn law_distance_is_zero(a: Seq<char>, b: Seq<char>)
    ensures
        distance(a, b) == 0 <==> a == b,
    decreases a.len() + b.len(),
{
    if a.len() > 0 && b.len() > 0 {
        law_distance_is_zero(a.drop_last(), b.drop_last());
        assert(a =~= a.drop_last().push(a.last()));
        assert(b =~= b.drop_last().push(b.last()));
    } else {
        assert(a.len() == 0 && b.len() == 0 ==> a =~= b);
    }
}

/// Going through a third text is no shorter.
pub proof fn law_distance_obeys_the_triangle(a: Seq<char>, b: Seq<char>, c: Seq<char>)
    ensures
        distance(a, c) <= distance(a, b) + distance(b, c),
    decreases a.len() + b.len() + c.len(),
{
    law_distance_is_bounded(a, b);
    law_distance_is_bounded(b, c);
    law_distance_is_bounded(a, c);
    if a.len() > 0 && b.len() > 0 && c.len() > 0 {
        law_distance_obeys_the_triangle(a.drop_last(), b, c);
        law_distance_obeys_the_triangle(a, b, c.drop_last());
        law_distance_obeys_the_triangle(a, b.drop_last(), c);
        law_distance_obeys_the_triangle(a, b.drop_last(), c.drop_last());
        law_distance_obeys_the_triangle(a.drop_last(), b.drop_last(), c);
        law_distance_obeys_the_triangle(a.drop_last(), b.drop_last(), c.drop_last());
    }
}

proof fn lemma_one_more_at_the_end(a: Seq<char>, c: char)
    ensures
        distance(a, a.push(c)) <= 1,
{
    assert(a.push(c).drop_last() =~= a);
    law_distance_is_zero(a, a);
    law_distance_is_bounded(a, a.push(c));
}

proof fn lemma_same_last(a: Seq<char>, b: Seq<char>, c: char)
    ensures
        distance(a.push(c), b.push(c)) == distance(a, b),
{
    let x = a.push(c);
    let y = b.push(c);
    assert(x.drop_last() =~= a);
    assert(y.drop_last() =~= b);
    lemma_one_more_at_the_end(a, c);
    lemma_one_more_at_the_end(b, c);
    law_distance_is_symmetric(b, y);
    law_distance_obeys_the_triangle(a, x, b);
    law_distance_obeys_the_triangle(a, y, b);
}

proof fn lemma_same_end(a: Seq<char>, b: Seq<char>, end: Seq<char>)
    ensures
        distance(a + end, b + end) == distance(a, b),
    decreases end.len(),
{
    if end.len() == 0 {
        assert(a + end =~= a);
        assert(b + end =~= b);
    } else {
        let rest = end.drop_last();
        lemma_same_end(a, b, rest);
        assert(a + end =~= (a + rest).push(end.last()));
        assert(b + end =~= (b + rest).push(end.last()));
        lemma_same_last(a + rest, b + rest, end.last());
    }
}

proof fn lemma_longer_by(start: Seq<char>, more: Seq<char>)
    ensures
        distance(start, start + more) == more.len(),
        distance(start + more, start) == more.len(),
    decreases more.len(),
{
    law_distance_is_bounded(start, start + more);
    if more.len() == 0 {
        assert(start + more =~= start);
        law_distance_is_zero(start, start);
    } else {
        let rest = start + more.drop_last();
        lemma_longer_by(start, more.drop_last());
        assert(start + more =~= rest.push(more.last()));
        lemma_one_more_at_the_end(rest, more.last());
        law_distance_obeys_the_triangle(start, rest, start + more);
    }
    law_distance_is_symmetric(start, start + more);
}

proof fn lemma_same_start(start: Seq<char>, a: Seq<char>, b: Seq<char>)
    ensures
        distance(start + a, start + b) == distance(a, b),
    decreases a.len() + b.len(),
{
    if a.len() == 0 {
        assert(start + a =~= start);
        lemma_longer_by(start, b);
    } else if b.len() == 0 {
        assert(start + b =~= start);
        lemma_longer_by(start, a);
    } else {
        let x = start + a;
        let y = start + b;
        assert(x.drop_last() =~= start + a.drop_last());
        assert(y.drop_last() =~= start + b.drop_last());
        assert(x.last() == a.last() && y.last() == b.last());
        lemma_same_start(start, a.drop_last(), b);
        lemma_same_start(start, a, b.drop_last());
        lemma_same_start(start, a.drop_last(), b.drop_last());
    }
}

/// What two texts begin with or end with alike does not matter.
pub proof fn law_common_ends_do_not_matter(
    start: Seq<char>,
    a: Seq<char>,
    b: Seq<char>,
    end: Seq<char>,
)
    ensures
        distance(start + a + end, start + b + end) == distance(a, b),
{
    lemma_same_end(start + a, start + b, end);
    lemma_same_start(start, a, b);
}

// ---------------------------------------------------------------------------
// Edits
// ---------------------------------------------------------------------------

/// Whether a text is made of another by inserting, removing or replacing one character.
pub open spec fn one_edit(a: Seq<char>, b: Seq<char>) -> bool {
    ||| exists|i: int, c: char| 0 <= i <= a.len() && b == #[trigger] a.insert(i, c)
    ||| exists|i: int| 0 <= i < a.len() && b == #[trigger] a.remove(i)
    ||| exists|i: int, c: char| 0 <= i < a.len() && b == #[trigger] a.update(i, c)
}

/// Whether a text is made of another by so many edits of one character, one after the other.
pub open spec fn made_by_edits(a: Seq<char>, b: Seq<char>, n: nat) -> bool
    decreases n,
{
    if n == 0 {
        a == b
    } else {
        exists|between: Seq<char>| #[trigger]
            one_edit(a, between) && made_by_edits(between, b, (n - 1) as nat)
    }
}

proof fn lemma_one_edit(a: Seq<char>, b: Seq<char>)
    requires
        one_edit(a, b),
    ensures
        distance(a, b) <= 1,
{
    let none = Seq::<char>::empty();
    if exists|i: int, c: char| 0 <= i <= a.len() && b == #[trigger] a.insert(i, c) {
        let (i, c) = choose|i: int, c: char| 0 <= i <= a.len() && b == #[trigger] a.insert(i, c);
        assert(a =~= a.take(i) + none + a.skip(i));
        assert(b =~= a.take(i) + seq![c] + a.skip(i));
        law_common_ends_do_not_matter(a.take(i), none, seq![c], a.skip(i));
    } else if exists|i: int| 0 <= i < a.len() && b == #[trigger] a.remove(i) {
        let i = choose|i: int| 0 <= i < a.len() && b == #[trigger] a.remove(i);
        assert(a =~= a.take(i) + seq![a[i]] + a.skip(i + 1));
        assert(b =~= a.take(i) + none + a.skip(i + 1));
        law_common_ends_do_not_matter(a.take(i), seq![a[i]], none, a.skip(i + 1));
    } else {
        let (i, c) = choose|i: int, c: char| 0 <= i < a.len() && b == #[trigger] a.update(i, c);
        assert(a =~= a.take(i) + seq![a[i]] + a.skip(i + 1));
        assert(b =~= a.take(i) + seq![c] + a.skip(i + 1));
        law_common_ends_do_not_matter(a.take(i), seq![a[i]], seq![c], a.skip(i + 1));
        law_distance_is_bounded(seq![a[i]], seq![c]);
    }
}

proof fn lemma_one_edit_before(a: Seq<char>, b: Seq<char>, c: char)
    requires
        one_edit(a, b),
    ensures
        one_edit(a.push(c), b.push(c)),
{
    let x = a.push(c);
    if exists|i: int, d: char| 0 <= i <= a.len() && b == #[trigger] a.insert(i, d) {
        let (i, d) = choose|i: int, d: char| 0 <= i <= a.len() && b == #[trigger] a.insert(i, d);
        assert(b.push(c) =~= x.insert(i, d));
    } else if exists|i: int| 0 <= i < a.len() && b == #[trigger] a.remove(i) {
        let i = choose|i: int| 0 <= i < a.len() && b == #[trigger] a.remove(i);
        assert(b.push(c) =~= x.remove(i));
    } else {
        let (i, d) = choose|i: int, d: char| 0 <= i < a.len() && b == #[trigger] a.update(i, d);
        assert(b.push(c) =~= x.update(i, d));
    }
}

proof fn lemma_edits_before(a: Seq<char>, b: Seq<char>, n: nat, c: char)
    requires
        made_by_edits(a, b, n),
    ensures
        made_by_edits(a.push(c), b.push(c), n),
    decreases n,
{
    if n > 0 {
        let between = choose|between: Seq<char>| #[trigger]
            one_edit(a, between) && made_by_edits(between, b, (n - 1) as nat);
        lemma_one_edit_before(a, between, c);
        lemma_edits_before(between, b, (n - 1) as nat, c);
        assert(one_edit(a.push(c), between.push(c)));
    }
}

proof fn lemma_one_edit_more(a: Seq<char>, b: Seq<char>, c: Seq<char>, n: nat)
    requires
        made_by_edits(a, b, n),
        one_edit(b, c),
    ensures
        made_by_edits(a, c, n + 1),
    decreases n,
{
    if n == 0 {
        assert(one_edit(a, c) && made_by_edits(c, c, 0));
    } else {
        let between = choose|between: Seq<char>| #[trigger]
            one_edit(a, between) && made_by_edits(between, b, (n - 1) as nat);
        lemma_one_edit_more(between, b, c, (n - 1) as nat);
        assert(one_edit(a, between) && made_by_edits(between, c, n));
    }
}

proof fn lemma_edits_suffice(a: Seq<char>, b: Seq<char>)
    ensures
        made_by_edits(a, b, distance(a, b)),
    decreases a.len() + b.len(),
{
    let n = distance(a, b);
    if a.len() == 0 && b.len() == 0 {
        assert(a =~= b);
    } else if b.len() > 0 && (a.len() == 0 || n == distance(a, b.drop_last()) + 1) {
        let shorter = b.drop_last();
        lemma_edits_suffice(a, shorter);
        assert(b =~= shorter.insert(shorter.len() as int, b.last()));
        lemma_one_edit_more(a, shorter, b, distance(a, shorter));
    } else if b.len() == 0 || n == distance(a.drop_last(), b) + 1 {
        let shorter = a.drop_last();
        lemma_edits_suffice(shorter, b);
        assert(shorter =~= a.remove(a.len() - 1));
        assert(one_edit(a, shorter) && made_by_edits(shorter, b, (n - 1) as nat));
    } else {
        let x = a.drop_last();
        let y = b.drop_last();
        lemma_edits_suffice(x, y);
        lemma_edits_before(x, y, distance(x, y), b.last());
        assert(y.push(b.last()) =~= b);
        if a.last() == b.last() {
            assert(x.push(b.last()) =~= a);
        } else {
            assert(x.push(b.last()) =~= a.update(a.len() - 1, b.last()));
            assert(one_edit(a, x.push(b.last())));
        }
    }
}

/// The distance is the least number of edits of one character that make one text of the other: so
/// many suffice, and fewer do not.
pub proof fn law_distance_is_the_least_number_of_edits(a: Seq<char>, b: Seq<char>, n: nat)
    ensures
        made_by_edits(a, b, distance(a, b)),
        made_by_edits(a, b, n) ==> distance(a, b) <= n,
    decreases n,
{
    lemma_edits_suffice(a, b);
    if made_by_edits(a, b, n) {
        if n == 0 {
            law_distance_is_zero(a, b);
        } else {
            let between = choose|between: Seq<char>| #[trigger]
                one_edit(a, between) && made_by_edits(between, b, (n - 1) as nat);
            lemma_one_edit(a, between);
            law_distance_is_the_least_number_of_edits(between, b, (n - 1) as nat);
            law_distance_obeys_the_triangle(a, between, b);
        }
    }
}

/// How many characters have to be inserted, removed or replaced to make one text of another.
pub fn levenshtein_distance(a: &str, b: &str) -> (r: usize)
    ensures
        r == distance(a@, b@),
{
    let a_chars = chars_of(a);
    let b_chars = chars_of(b);
    let m = a_chars.len();
    let n = b_chars.len();
    if m == 0 {
        return n;
    }
    if n == 0 {
        return m;
    }
    // One row of the table: what is left of `a` so far, against each beginning of `b`.
    let mut row: Vec<usize> = Vec::new();
    row.push(0);
    for j in 0..n
        invariant
            b_chars@ == b@,
            n == b_chars@.len(),
            row@.len() == j + 1,
            forall|k: int|
                0 <= k <= j ==> #[trigger] row@[k] == distance(a@.take(0), b@.take(k)),
    {
        row.push(j + 1);
    }
    let width: usize = row.len();
    for i in 0..m
        invariant
            a_chars@ == a@,
            b_chars@ == b@,
            m == a_chars@.len(),
            n == b_chars@.len(),
            width == n + 1,
            row@.len() == n + 1,
            forall|k: int|
                0 <= k <= n ==> #[trigger] row@[k] == distance(a@.take(i as int), b@.take(k)),
    {
        let mut next: Vec<usize> = Vec::new();
        next.push(i + 1);
        let ghost upto = a@.take(i as int + 1);
        proof {
            assert(upto.drop_last() =~= a@.take(i as int));
            assert(upto.last() == a@[i as int]);
        }
        for j in 0..n
            invariant
                a_chars@ == a@,
                b_chars@ == b@,
                i < m,
                m == a_chars@.len(),
                n == b_chars@.len(),
                width == n + 1,
                row@.len() == n + 1,
                next@.len() == j + 1,
                upto == a@.take(i as int + 1),
                upto.drop_last() == a@.take(i as int),
                upto.last() == a@[i as int],
                forall|k: int|
                    0 <= k <= n ==> #[trigger] row@[k] == distance(a@.take(i as int), b@.take(k)),
                forall|k: int| 0 <= k <= j ==> #[trigger] next@[k] == distance(upto, b@.take(k)),
        {
            proof {
                let beginning = b@.take(j as int + 1);
                assert(beginning.drop_last() =~= b@.take(j as int));
                assert(beginning.last() == b@[j as int]);
                law_distance_is_bounded(a@.take(i as int), b@.take(j as int + 1));
                law_distance_is_bounded(a@.take(i as int), b@.take(j as int));
                assert(row@[j + 1] == distance(a@.take(i as int), b@.take(j as int + 1)));
                assert(row@[j as int] == distance(a@.take(i as int), b@.take(j as int)));
                assert(next@[j as int] == distance(upto, b@.take(j as int)));
            }
            let above: usize = row[j + 1];
            let left: usize = next[j];
            let near: usize = if above <= left {
                above
            } else {
                left
            };
            let shifted: usize = near + 1;
            let replaced: usize = if a_chars[i] == b_chars[j] {
                row[j]
            } else {
                row[j] + 1
            };
            let best: usize = if shifted <= replaced {
                shifted
            } else {
                replaced
            };
            next.push(best);
        }
        row = next;
    }
    proof {
        assert(a@.take(m as int) =~= a@);
        assert(b@.take(n as int) =~= b@);
    }
    row[n]
}

} // verus!
