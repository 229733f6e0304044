//! How ratings and Russian titles are held between the passes over the dumps.
use crate::lists::lemma_filter_map_keeps;
use crate::text::{
    contains_text, decimal, find_char, has_prefix, law_zeros_in_front_change_nothing, lemma_find_char,
    lemma_find_char_is, number_up_to, parse_u32, pieces, split_on, starts_with, text_between, texts,
};
use vstd::prelude::*;

verus! {

/// The number in an IMDb id such as `tt0111161`.
pub open spec fn tconst_number(tconst: Seq<char>) -> Option<nat> {
    if has_prefix(tconst, "tt"@) {
        number_up_to(tconst.skip(2), u32::MAX as nat)
    } else {
        None
    }
}

/// The number in an IMDb id such as `tt0111161`: what stands behind `tt`, if it is a number
/// that fits in 32 bits.
pub fn parse_tconst_id(tconst: &str) -> (r: Option<u32>)
    ensures
        match r {
            Some(id) => tconst_number(tconst@) == Some(id as nat),
            None => tconst_number(tconst@) is None,
        },
{
    if !starts_with(tconst, "tt") {
        return None;
    }
    let chars = crate::text::chars_of(tconst);
    proof {
        reveal_strlit("tt");
        assert(tconst@.skip(2) =~= chars@.subrange(2, chars@.len() as int));
    }
    let digits = text_between(&chars, 2, chars.len());
    parse_u32(digits.as_str())
}

/// The number of an IMDb id is the one that it was made of, with as many zeros before it as there
/// are.
pub proof fn law_tconst_reads_back(id: u32, zeros: nat)
    ensures
        tconst_number("tt"@ + (Seq::new(zeros, |i: int| '0') + decimal(id as nat))) == Some(
            id as nat,
        ),
{
    reveal_strlit("tt");
    let digits = Seq::new(zeros, |i: int| '0') + decimal(id as nat);
    let tconst = "tt"@ + digits;
    assert(tconst.take(2) =~= "tt"@);
    assert(tconst.skip(2) =~= digits);
    law_zeros_in_front_change_nothing(id as nat, zeros);
}

// ---------------------------------------------------------------------------
// Ratings
// ---------------------------------------------------------------------------

/// A rating in tenths and a number of votes as one number.
pub open spec fn packed(tenths: u8, votes: u32) -> u64 {
    (tenths * 0x1_0000_0000 + votes) as u64
}

/// Holds a rating in tenths and a number of votes in one number: the votes in the low 32 bits,
/// the rating above them.
pub fn pack_rating(tenths: u8, votes: u32) -> (r: u64)
    ensures
        r == packed(tenths, votes),
{
    let high: u64 = tenths as u64;
    let low: u64 = votes as u64;
    proof {
        assert(((high << 32) | low) == high * 0x1_0000_0000 + low) by (bit_vector)
            requires
                high <= 0xff,
                low <= 0xffff_ffff,
        ;
    }
    (high << 32) | low
}

/// The rating in tenths, by its low 8 bits, and the number of votes that one number holds.
pub fn unpack_rating(packed: u64) -> (r: (u8, u32))
    ensures
        r.0 == (packed / 0x1_0000_0000) % 0x100,
        r.1 == packed % 0x1_0000_0000,
        forall|tenths: u8, votes: u32|
            packed == #[trigger] self::packed(tenths, votes) ==> r.0 == tenths && r.1 == votes,
{
    proof {
        assert(packed >> 32 == packed / 0x1_0000_0000) by (bit_vector);
        assert(packed & 0xffff_ffff == packed % 0x1_0000_0000) by (bit_vector);
    }
    let tenths: u64 = (packed >> 32) % 0x100;
    let votes: u64 = packed & 0xffff_ffff;
    (tenths as u8, votes as u32)
}

/// What was packed is unpacked again.
pub proof fn law_ratings_unpack(tenths: u8, votes: u32)
    ensures
        (packed(tenths, votes) / 0x1_0000_0000) % 0x100 == tenths,
        packed(tenths, votes) % 0x1_0000_0000 == votes,
{
}

// ---------------------------------------------------------------------------
// Russian titles
// ---------------------------------------------------------------------------

/// The titles in one text, with a tab between each two.
pub open spec fn titles_in(held: Seq<char>) -> Seq<Seq<char>> {
    pieces(held, '\t')
}

/// One more title in the text that holds the titles, unless it is in it.
pub open spec fn with_title(held: Option<Seq<char>>, title: Seq<char>) -> Seq<char> {
    match held {
        Some(s) => if titles_in(s).contains(title) {
            s
        } else {
            s.push('\t') + title
        },
        None => title,
    }
}

/// One more title in the text that holds the titles, unless it is in it.
pub fn merge_title(held: Option<&str>, title: &str) -> (r: String)
    ensures
        r@ == with_title(crate::text::str_opt(held), title@),
{
    match held {
        Some(s) => {
            let known = split_on(s, '\t');
            if contains_text(&known, title) {
                s.to_owned()
            } else {
                let mut merged = s.to_owned();
                merged.push('\t');
                merged.append(title);
                merged
            }
        },
        None => title.to_owned(),
    }
}

/// The titles in one text, with a tab between each two.
pub fn split_titles(held: &str) -> (r: Vec<String>)
    ensures
        texts(r@) == titles_in(held@),
{
    split_on(held, '\t')
}

/// Splitting two texts with a separator between them splits each of them.
pub proof fn lemma_pieces_join(a: Seq<char>, b: Seq<char>, sep: char)
    ensures
        pieces(a.push(sep) + b, sep) == pieces(a, sep) + pieces(b, sep),
    decreases a.len(),
{
    let whole = a.push(sep) + b;
    let n = find_char(a, sep) as int;
    lemma_find_char(a, sep);
    assert(forall|i: int| 0 <= i < a.len() ==> #[trigger] whole[i] == a[i]);
    assert(whole[a.len() as int] == sep);
    lemma_find_char_is(whole, sep, n);
    if n < a.len() {
        assert(whole.take(n) =~= a.take(n));
        assert(whole.skip(n + 1) =~= a.skip(n + 1).push(sep) + b);
        lemma_pieces_join(a.skip(n + 1), b, sep);
        assert(seq![a.take(n)] + (pieces(a.skip(n + 1), sep) + pieces(b, sep)) =~= (seq![a.take(n)]
            + pieces(a.skip(n + 1), sep)) + pieces(b, sep));
    } else {
        assert(whole.take(n) =~= a);
        assert(whole.skip(n + 1) =~= b);
    }
}

/// A title without a tab is the one title of a text made of it alone.
pub proof fn lemma_single_piece(title: Seq<char>)
    requires
        !title.contains('\t'),
    ensures
        titles_in(title) == seq![title],
{
    assert forall|i: int| 0 <= i < title.len() implies #[trigger] title[i] != '\t' by {
        assert(title.contains(title[i]));
    }
    lemma_find_char_is(title, '\t', title.len() as int);
}

/// A title without a tab is kept behind those that were there, and only once.
pub proof fn law_titles_are_kept_once(held: Option<Seq<char>>, title: Seq<char>)
    requires
        !title.contains('\t'),
    ensures
        match held {
            Some(s) => titles_in(with_title(held, title)) == (if titles_in(s).contains(title) {
                titles_in(s)
            } else {
                titles_in(s).push(title)
            }),
            None => titles_in(with_title(held, title)) == seq![title],
        },
        (match held {
            Some(s) => titles_in(s).no_duplicates(),
            None => true,
        }) ==> titles_in(with_title(held, title)).no_duplicates(),
{
    lemma_single_piece(title);
    match held {
        Some(s) => {
            lemma_pieces_join(s, title, '\t');
            assert(titles_in(s) + seq![title] =~= titles_in(s).push(title));
            if !titles_in(s).contains(title) {
                let before = titles_in(s);
                let after = before.push(title);
                if before.no_duplicates() {
                    assert forall|i: int, j: int|
                        0 <= i < after.len() && 0 <= j < after.len() && i != j implies after[i]
                        != after[j] by {
                        if i < before.len() {
                            assert(before.contains(before[i]));
                        }
                        if j < before.len() {
                            assert(before.contains(before[j]));
                        }
                    }
                }
            }
        },
        None => {},
    }
}

// ---------------------------------------------------------------------------
// Batches of Russian titles
// ---------------------------------------------------------------------------

/// The text that a store holds under an id.
pub open spec fn held_for(store: Map<u32, Seq<char>>, id: u32) -> Option<Seq<char>> {
    if store.contains_key(id) {
        Some(store[id])
    } else {
        None
    }
}

/// The titles that a store holds under an id.
pub open spec fn titles_for(store: Map<u32, Seq<char>>, id: u32) -> Seq<Seq<char>> {
    match held_for(store, id) {
        Some(held) => titles_in(held),
        None => Seq::empty(),
    }
}

/// A store after titles were written to it, each under its id and one after the other.
pub open spec fn batch_stored(store: Map<u32, Seq<char>>, batch: Seq<(u32, Seq<char>)>) -> Map<
    u32,
    Seq<char>,
>
    decreases batch.len(),
{
    if batch.len() == 0 {
        store
    } else {
        let before = batch_stored(store, batch.drop_last());
        let (id, title) = batch.last();
        before.insert(id, with_title(held_for(before, id), title))
    }
}

/// How the titles of an id are read from a batch.
pub open spec fn title_reader(id: u32) -> spec_fn((u32, Seq<char>)) -> Option<Seq<char>> {
    |row: (u32, Seq<char>)|
        if row.0 == id {
            Some(row.1)
        } else {
            None
        }
}

/// The titles of an id in a batch.
pub open spec fn titles_given(batch: Seq<(u32, Seq<char>)>, id: u32) -> Seq<Seq<char>> {
    batch.filter_map(title_reader(id))
}

/// Whether no title of a batch has a tab in it.
pub open spec fn has_no_tabs(batch: Seq<(u32, Seq<char>)>) -> bool {
    forall|i: int| 0 <= i < batch.len() ==> !(#[trigger] batch[i]).1.contains('\t')
}

/// The titles that were known, and behind them those that were not, in order and each once.
pub open spec fn with_new(known: Seq<Seq<char>>, titles: Seq<Seq<char>>) -> Seq<Seq<char>>
    decreases titles.len(),
{
    if titles.len() == 0 {
        known
    } else {
        let before = with_new(known, titles.drop_last());
        if before.contains(titles.last()) {
            before
        } else {
            before.push(titles.last())
        }
    }
}

/// The titles of an id after a batch without tabs are those that were there, and behind them the
/// new ones of the batch, in order and each once. What is held under an id that is not in the batch
/// stays as it is.
pub proof fn law_batches_are_kept(
    store: Map<u32, Seq<char>>,
    batch: Seq<(u32, Seq<char>)>,
    id: u32,
)
    requires
        has_no_tabs(batch),
    ensures
        titles_for(batch_stored(store, batch), id) == with_new(
            titles_for(store, id),
            titles_given(batch, id),
        ),
        titles_given(batch, id).len() == 0 ==> held_for(batch_stored(store, batch), id) == held_for(
            store,
            id,
        ),
    decreases batch.len(),
{
    if batch.len() > 0 {
        let rest = batch.drop_last();
        assert(forall|i: int| 0 <= i < rest.len() ==> #[trigger] rest[i] == batch[i]);
        law_batches_are_kept(store, rest, id);
        let before = batch_stored(store, rest);
        let (last, title) = batch.last();
        assert(batch[batch.len() - 1].1 == title);
        if last == id {
            let given = titles_given(batch, id);
            assert(given == titles_given(rest, id) + seq![title]);
            assert(given.drop_last() =~= titles_given(rest, id));
            assert(given.last() == title);
            law_titles_are_kept_once(held_for(before, id), title);
            assert(Seq::<Seq<char>>::empty().push(title) =~= seq![title]);
        }
    }
}

/// The titles that were known stay where they are. Those of a batch are known then, no others are,
/// and none is there twice if none was.
pub proof fn law_new_titles(known: Seq<Seq<char>>, titles: Seq<Seq<char>>, title: Seq<char>)
    ensures
        with_new(known, titles).len() >= known.len(),
        with_new(known, titles).take(known.len() as int) == known,
        with_new(known, titles).contains(title) <==> known.contains(title) || titles.contains(title),
        known.no_duplicates() ==> with_new(known, titles).no_duplicates(),
    decreases titles.len(),
{
    let all = with_new(known, titles);
    if titles.len() == 0 {
        assert(known.take(known.len() as int) =~= known);
    } else {
        let rest = titles.drop_last();
        let before = with_new(known, rest);
        law_new_titles(known, rest, title);
        law_new_titles(known, rest, titles.last());
        assert(titles =~= rest.push(titles.last()));
        assert(all.take(known.len() as int) =~= known);
        if rest.contains(title) {
            let k = choose|k: int| 0 <= k < rest.len() && rest[k] == title;
            assert(titles[k] == title);
        }
        if titles.contains(title) && !rest.contains(title) {
            let k = choose|k: int| 0 <= k < titles.len() && titles[k] == title;
            assert(k < rest.len() ==> rest[k] == title);
        }
        if !before.contains(titles.last()) {
            assert(all[before.len() as int] == titles.last());
            if before.contains(title) {
                let k = choose|k: int| 0 <= k < before.len() && before[k] == title;
                assert(all[k] == title);
            }
            if before.no_duplicates() {
                assert forall|i: int, j: int|
                    0 <= i < all.len() && 0 <= j < all.len() && i != j implies all[i] != all[j] by {
                    if i < before.len() {
                        assert(before.contains(before[i]));
                    }
                    if j < before.len() {
                        assert(before.contains(before[j]));
                    }
                }
            }
        } else {
            assert(titles.contains(titles[titles.len() - 1]));
        }
    }
}

proof fn lemma_known_titles_change_nothing(
    store: Map<u32, Seq<char>>,
    batch: Seq<(u32, Seq<char>)>,
)
    requires
        forall|i: int|
            0 <= i < batch.len() ==> titles_for(store, (#[trigger] batch[i]).0).contains(
                batch[i].1,
            ),
    ensures
        batch_stored(store, batch) == store,
    decreases batch.len(),
{
    if batch.len() > 0 {
        let rest = batch.drop_last();
        assert(forall|i: int| 0 <= i < rest.len() ==> #[trigger] rest[i] == batch[i]);
        lemma_known_titles_change_nothing(store, rest);
        let (id, title) = batch[batch.len() - 1];
        assert(titles_for(store, id).contains(title));
        assert(held_for(store, id) is Some);
        assert(batch_stored(store, batch) =~= store);
    }
}

/// Writing a batch without tabs a second time changes nothing.
pub proof fn law_batches_are_kept_once(store: Map<u32, Seq<char>>, batch: Seq<(u32, Seq<char>)>)
    requires
        has_no_tabs(batch),
    ensures
        batch_stored(batch_stored(store, batch), batch) == batch_stored(store, batch),
{
    let after = batch_stored(store, batch);
    assert forall|i: int| 0 <= i < batch.len() implies titles_for(
        after,
        (#[trigger] batch[i]).0,
    ).contains(batch[i].1) by {
        let (id, title) = batch[i];
        law_batches_are_kept(store, batch, id);
        lemma_filter_map_keeps(batch, title_reader(id), i);
        law_new_titles(titles_for(store, id), titles_given(batch, id), title);
    }
    lemma_known_titles_change_nothing(after, batch);
}

/// An IMDb id with a number begins with `tt`, and goes on with the number.
pub proof fn law_ids_begin_with_tt(tconst: Seq<char>, digits: Seq<char>)
    ensures
        tconst_number(tconst) is Some ==> tconst.len() > 2 && tconst[0] == 't' && tconst[1] == 't',
        tconst_number("tt"@ + digits) == number_up_to(digits, u32::MAX as nat),
{
    reveal_strlit("tt");
    if tconst_number(tconst) is Some {
        assert(tconst.take(2)[0] == 't' && tconst.take(2)[1] == 't');
        assert(tconst.skip(2).len() > 0);
    }
    assert(("tt"@ + digits).take(2) =~= "tt"@);
    assert(("tt"@ + digits).skip(2) =~= digits);
}

/// A rating fills what the votes leave: a higher rating is a larger number whatever the votes are, and
/// of equal ratings the one with more votes is.
pub proof fn law_ratings_count_more_than_votes(a: u8, votes: u32, b: u8, others: u32)
    ensures
        a < b ==> packed(a, votes) < packed(b, others),
        a == b && votes < others ==> packed(a, votes) < packed(b, others),
        packed(0, votes) == votes,
{
}

} // verus!
