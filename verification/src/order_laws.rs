//! What holds of the sort engine: each key's order is total and transitive,
//! and the stable sort is an ordered, stable rearrangement that leaves an
//! ordered listing as it is.

use vstd::prelude::*;
use vstd::seq_lib::{to_multiset_build, to_multiset_contains, to_multiset_insert};
use crate::entry::EntryRecord;
use crate::order::{
    bytes_in_order_from,
    has_no_ties,
    in_order,
    insertion_point,
    is_ordered,
    ordering,
    same_rank,
    sorted_by,
    SortKey,
};

verus! {

proof fn lemma_bytes_total(a: Seq<u8>, b: Seq<u8>, from: int)
    requires
        0 <= from,
    ensures
        bytes_in_order_from(a, b, from) || bytes_in_order_from(b, a, from),
    decreases a.len() - from,
{
    if from < a.len() && from < b.len() && a[from] == b[from] {
        lemma_bytes_total(a, b, from + 1);
    }
}

proof fn lemma_bytes_transitive(a: Seq<u8>, b: Seq<u8>, c: Seq<u8>, from: int)
    requires
        0 <= from,
        bytes_in_order_from(a, b, from),
        bytes_in_order_from(b, c, from),
    ensures
        bytes_in_order_from(a, c, from),
    decreases a.len() - from,
{
    if from < a.len() && a[from] == b[from] && b[from] == c[from] {
        lemma_bytes_transitive(a, b, c, from + 1);
    }
}

/// Of any two records, one may stand before the other.
pub proof fn lemma_in_order_total(key: SortKey, a: EntryRecord, b: EntryRecord)
    ensures
        in_order(key, a, b) || in_order(key, b, a),
{
    if key is Name {
        lemma_bytes_total(crate::order::name_bytes(a), crate::order::name_bytes(b), 0);
    }
}

/// Where `a` may stand before `b` and `b` before `c`, `a` may stand before
/// `c`.
pub proof fn lemma_in_order_transitive(key: SortKey, a: EntryRecord, b: EntryRecord, c: EntryRecord)
    requires
        in_order(key, a, b),
        in_order(key, b, c),
    ensures
        in_order(key, a, c),
{
    if key is Name {
        lemma_bytes_transitive(
            crate::order::name_bytes(a),
            crate::order::name_bytes(b),
            crate::order::name_bytes(c),
            0,
        );
    }
}

/// The insertion point lies within the sequence, directly behind a record
/// that may stand before the new one, and before none that may.
pub proof fn lemma_insertion_point(sorted: Seq<EntryRecord>, record: EntryRecord, key: SortKey)
    ensures
        0 <= insertion_point(sorted, record, key) <= sorted.len(),
        insertion_point(sorted, record, key) > 0 ==> in_order(
            key,
            sorted[insertion_point(sorted, record, key) - 1],
            record,
        ),
        forall|j: int|
            insertion_point(sorted, record, key) <= j < sorted.len() ==> !in_order(
                key,
                #[trigger] sorted[j],
                record,
            ),
    decreases sorted.len(),
{
    if sorted.len() > 0 && !in_order(key, sorted.last(), record) {
        lemma_insertion_point(sorted.drop_last(), record, key);
        assert forall|j: int|
            insertion_point(sorted, record, key) <= j < sorted.len() implies !in_order(
            key,
            #[trigger] sorted[j],
            record,
        ) by {
            if j < sorted.len() - 1 {
                assert(sorted.drop_last()[j] == sorted[j]);
            }
        }
    }
}

/// Sorting rearranges: the result holds each record as often as the input
/// does.
pub proof fn lemma_sorted_is_permutation(entries: Seq<EntryRecord>, key: SortKey)
    ensures
        sorted_by(entries, key).len() == entries.len(),
        sorted_by(entries, key).to_multiset() == entries.to_multiset(),
    decreases entries.len(),
{
    if entries.len() > 0 {
        let rest = entries.drop_last();
        let last = entries.last();
        let front = sorted_by(rest, key);
        lemma_sorted_is_permutation(rest, key);
        lemma_insertion_point(front, last, key);
        to_multiset_insert(front, insertion_point(front, last, key), last);
        to_multiset_build(rest, last);
        assert(rest.push(last) == entries);
    }
}

proof fn lemma_insert_keeps_order(front: Seq<EntryRecord>, record: EntryRecord, key: SortKey)
    requires
        is_ordered(front, key),
    ensures
        is_ordered(front.insert(insertion_point(front, record, key), record), key),
{
    let at = insertion_point(front, record, key);
    let out = front.insert(at, record);
    lemma_insertion_point(front, record, key);
    assert forall|i: int, j: int| 0 <= i < j < out.len() implies in_order(
        key,
        #[trigger] out[i],
        #[trigger] out[j],
    ) by {
        if j < at {
            assert(out[i] == front[i] && out[j] == front[j]);
        } else if j == at {
            assert(out[i] == front[i] && out[j] == record);
            if i < at - 1 {
                lemma_in_order_transitive(key, front[i], front[at - 1], record);
            }
        } else {
            assert(out[j] == front[j - 1]);
            if i < at {
                assert(out[i] == front[i]);
            } else if i == at {
                assert(out[i] == record);
                lemma_in_order_total(key, front[j - 1], record);
            } else {
                assert(out[i] == front[i - 1]);
            }
        }
    }
}

/// Sorting orders: in the result each record may stand before every later
/// one.
pub proof fn lemma_sorted_is_ordered(entries: Seq<EntryRecord>, key: SortKey)
    ensures
        is_ordered(sorted_by(entries, key), key),
    decreases entries.len(),
{
    if entries.len() > 0 {
        lemma_sorted_is_ordered(entries.drop_last(), key);
        lemma_insert_keeps_order(sorted_by(entries.drop_last(), key), entries.last(), key);
    }
}

/// The records that `key` does not tell apart from `like`.
pub open spec fn of_rank(key: SortKey, like: EntryRecord) -> spec_fn(EntryRecord) -> bool {
    |record: EntryRecord| same_rank(key, record, like)
}

/// Sorting is stable: the records of any one rank come out in the order in
/// which they went in.
pub proof fn lemma_sorted_is_stable(entries: Seq<EntryRecord>, key: SortKey, like: EntryRecord)
    ensures
        sorted_by(entries, key).filter(of_rank(key, like)) == entries.filter(of_rank(key, like)),
    decreases entries.len(),
{
    let rank = of_rank(key, like);
    if entries.len() > 0 {
        let rest = entries.drop_last();
        let last = entries.last();
        let front = sorted_by(rest, key);
        let at = insertion_point(front, last, key);
        let head = front.subrange(0, at);
        let tail = front.subrange(at, front.len() as int);
        lemma_sorted_is_stable(rest, key, like);
        lemma_insertion_point(front, last, key);
        assert(rest.push(last) == entries);
        rest.lemma_filter_push(last, rank);
        head.lemma_filter_push(last, rank);
        assert(front == head + tail);
        Seq::filter_distributes_over_add(head, tail, rank);
        Seq::filter_distributes_over_add(head.push(last), tail, rank);
        if rank(last) {
            assert(tail.all(|record: EntryRecord| !rank(record))) by {
                assert forall|j: int| 0 <= j < tail.len() implies !rank(#[trigger] tail[j]) by {
                    assert(tail[j] == front[at + j]);
                    if rank(tail[j]) {
                        lemma_in_order_transitive(key, tail[j], like, last);
                    }
                }
            }
            tail.lemma_all_neg_filter_empty(rank);
            assert(tail.filter(rank) == Seq::<EntryRecord>::empty());
            assert(head.filter(rank) + tail.filter(rank) == head.filter(rank));
            assert(head.filter(rank).push(last) + tail.filter(rank) == head.filter(rank).push(
                last,
            ));
        }
    } else {
        assert(sorted_by(entries, key) == entries);
    }
}

/// Sorting leaves an ordered listing as it is.
pub proof fn lemma_sort_keeps_ordered(entries: Seq<EntryRecord>, key: SortKey)
    requires
        is_ordered(entries, key),
    ensures
        sorted_by(entries, key) == entries,
    decreases entries.len(),
{
    if entries.len() > 0 {
        let rest = entries.drop_last();
        assert(is_ordered(rest, key)) by {
            assert forall|i: int, j: int| 0 <= i < j < rest.len() implies in_order(
                key,
                #[trigger] rest[i],
                #[trigger] rest[j],
            ) by {
                assert(rest[i] == entries[i] && rest[j] == entries[j]);
            }
        }
        lemma_sort_keeps_ordered(rest, key);
        if rest.len() > 0 {
            assert(rest.last() == entries[rest.len() - 1]);
            assert(in_order(key, entries[rest.len() - 1], entries[entries.len() - 1]));
        }
        assert(rest.insert(rest.len() as int, entries.last()) == entries);
    }
}

/// Sorting is idempotent: sorting a sorted listing again by the same key
/// gives the same sequence.
pub proof fn lemma_sort_idempotent(entries: Seq<EntryRecord>, key: SortKey)
    ensures
        ordering(ordering(entries, key, false), key, false) == ordering(entries, key, false),
{
    lemma_sorted_is_ordered(entries, key);
    lemma_sort_keeps_ordered(sorted_by(entries, key), key);
}

/// Every record of a sorted listing is a record of the input.
proof fn lemma_sorted_records_come_from_input(entries: Seq<EntryRecord>, key: SortKey, at: int)
    requires
        0 <= at < sorted_by(entries, key).len(),
    ensures
        entries.contains(sorted_by(entries, key)[at]),
{
    let sorted = sorted_by(entries, key);
    lemma_sorted_is_permutation(entries, key);
    assert(sorted.contains(sorted[at]));
    to_multiset_contains(sorted, sorted[at]);
    to_multiset_contains(entries, sorted[at]);
}

/// Whether each record must stand before every later one.
pub open spec fn is_strictly_ordered(entries: Seq<EntryRecord>, key: SortKey) -> bool {
    forall|i: int, j: int|
        0 <= i < j < entries.len() ==> in_order(key, #[trigger] entries[i], #[trigger] entries[j])
            && !in_order(key, entries[j], entries[i])
}

/// Where no two records have the same rank, the sorted listing puts each
/// record strictly before every later one.
pub proof fn lemma_sorted_without_ties(entries: Seq<EntryRecord>, key: SortKey)
    requires
        has_no_ties(entries, key),
    ensures
        is_strictly_ordered(sorted_by(entries, key), key),
{
    let sorted = sorted_by(entries, key);
    lemma_sorted_is_ordered(entries, key);
    lemma_sorted_places_come_from_input(entries, key);
    assert forall|i: int, j: int| 0 <= i < j < sorted.len() implies in_order(
        key,
        #[trigger] sorted[i],
        #[trigger] sorted[j],
    ) && !in_order(key, sorted[j], sorted[i]) by {
        let (a, b) = choose|a: int, b: int|
            0 <= a < entries.len() && 0 <= b < entries.len() && a != b && entries[a] == sorted[i]
                && entries[b] == sorted[j];
        if a < b {
            assert(!same_rank(key, entries[a], entries[b]));
        } else {
            assert(!same_rank(key, entries[b], entries[a]));
        }
    }
}

/// Two places of the sorted listing hold the records of two places of the
/// input.
proof fn lemma_sorted_places_come_from_input(entries: Seq<EntryRecord>, key: SortKey)
    ensures
        forall|i: int, j: int|
            0 <= i < j < sorted_by(entries, key).len() ==> exists|a: int, b: int|
                0 <= a < entries.len() && 0 <= b < entries.len() && a != b && entries[a]
                    == #[trigger] sorted_by(entries, key)[i] && entries[b] == #[trigger] sorted_by(
                    entries,
                    key,
                )[j],
    decreases entries.len(),
{
    let sorted = sorted_by(entries, key);
    if entries.len() > 0 {
        let rest = entries.drop_last();
        let last = entries.last();
        let front = sorted_by(rest, key);
        let at = insertion_point(front, last, key);
        lemma_sorted_places_come_from_input(rest, key);
        lemma_sorted_is_permutation(rest, key);
        lemma_insertion_point(front, last, key);
        assert forall|i: int, j: int| 0 <= i < j < sorted.len() implies exists|a: int, b: int|
            0 <= a < entries.len() && 0 <= b < entries.len() && a != b && entries[a]
                == #[trigger] sorted[i] && entries[b] == #[trigger] sorted[j] by {
            let n = rest.len() as int;
            if i == at {
                let from = j - 1;
                lemma_sorted_records_come_from_input(rest, key, from);
                let b = choose|b: int| 0 <= b < rest.len() && rest[b] == front[from];
                assert(entries[n] == sorted[i] && entries[b] == sorted[j]);
            } else if j == at {
                lemma_sorted_records_come_from_input(rest, key, i);
                let a = choose|a: int| 0 <= a < rest.len() && rest[a] == front[i];
                assert(entries[a] == sorted[i] && entries[n] == sorted[j]);
            } else {
                let from_i = if i < at { i } else { i - 1 };
                let from_j = if j < at { j } else { j - 1 };
                assert(sorted[i] == front[from_i] && sorted[j] == front[from_j]);
                let (a, b) = choose|a: int, b: int|
                    0 <= a < rest.len() && 0 <= b < rest.len() && a != b && rest[a]
                        == front[from_i] && rest[b] == front[from_j];
                assert(entries[a] == sorted[i] && entries[b] == sorted[j]);
            }
        }
    }
}

/// The stable sort of a listing in which each record must stand behind every
/// later one is that listing turned end for end.
proof fn lemma_sort_turns_descending(entries: Seq<EntryRecord>, key: SortKey)
    requires
        forall|i: int, j: int|
            0 <= i < j < entries.len() ==> !in_order(
                key,
                #[trigger] entries[i],
                #[trigger] entries[j],
            ),
    ensures
        sorted_by(entries, key) == entries.reverse(),
    decreases entries.len(),
{
    if entries.len() > 0 {
        let rest = entries.drop_last();
        let last = entries.last();
        assert forall|i: int, j: int| 0 <= i < j < rest.len() implies !in_order(
            key,
            #[trigger] rest[i],
            #[trigger] rest[j],
        ) by {
            assert(rest[i] == entries[i] && rest[j] == entries[j]);
        }
        lemma_sort_turns_descending(rest, key);
        let front = sorted_by(rest, key);
        let at = insertion_point(front, last, key);
        lemma_insertion_point(front, last, key);
        if at > 0 {
            let from = rest.len() - 1 - (at - 1);
            assert(front[at - 1] == rest[from]);
            assert(rest[from] == entries[from]);
            assert(!in_order(key, entries[from], entries[entries.len() - 1]));
        }
        assert(front.insert(0, last) == entries.reverse());
    } else {
        assert(sorted_by(entries, key) == entries.reverse());
    }
}

/// With the reversal flag set, ordering is idempotent for listings in which
/// no two records have the same rank: ordering an ordered listing again by
/// the same key gives the same sequence. (Records of one rank are turned round
/// by each pass, so with ties a second pass changes their order.)
pub proof fn lemma_reversed_sort_idempotent(entries: Seq<EntryRecord>, key: SortKey)
    requires
        has_no_ties(entries, key),
    ensures
        ordering(ordering(entries, key, true), key, true) == ordering(entries, key, true),
{
    let sorted = sorted_by(entries, key);
    let turned = sorted.reverse();
    lemma_sorted_without_ties(entries, key);
    assert forall|i: int, j: int| 0 <= i < j < turned.len() implies !in_order(
        key,
        #[trigger] turned[i],
        #[trigger] turned[j],
    ) by {
        assert(turned[i] == sorted[sorted.len() - 1 - i]);
        assert(turned[j] == sorted[sorted.len() - 1 - j]);
    }
    lemma_sort_turns_descending(turned, key);
    assert(turned.reverse() == sorted);
}

/// Whether each record was modified no earlier than every later one.
pub open spec fn is_newest_first(entries: Seq<EntryRecord>) -> bool {
    forall|i: int, j: int|
        0 <= i < j < entries.len() ==> (#[trigger] entries[i])@.modified_at
            >= (#[trigger] entries[j])@.modified_at
}

/// Whether each record was modified no later than every later one.
pub open spec fn is_oldest_first(entries: Seq<EntryRecord>) -> bool {
    forall|i: int, j: int|
        0 <= i < j < entries.len() ==> (#[trigger] entries[i])@.modified_at
            <= (#[trigger] entries[j])@.modified_at
}

/// The reversal flag gives the exact reverse of the order without it. For
/// the time key that order is newest first, and so its reverse is oldest
/// first.
pub proof fn lemma_reverse_turns_order(entries: Seq<EntryRecord>, key: SortKey)
    ensures
        ordering(entries, key, true) == ordering(entries, key, false).reverse(),
        ordering(entries, key, true).reverse() == ordering(entries, key, false),
        is_newest_first(ordering(entries, SortKey::Time, false)),
        is_oldest_first(ordering(entries, SortKey::Time, true)),
{
    let sorted = sorted_by(entries, key);
    assert(sorted.reverse().reverse() == sorted);
    let by_time = sorted_by(entries, SortKey::Time);
    let turned = by_time.reverse();
    lemma_sorted_is_ordered(entries, SortKey::Time);
    assert forall|i: int, j: int| 0 <= i < j < turned.len() implies (#[trigger] turned[i])@.modified_at
        <= (#[trigger] turned[j])@.modified_at by {
        assert(turned[i] == by_time[by_time.len() - 1 - i]);
        assert(turned[j] == by_time[by_time.len() - 1 - j]);
        assert(in_order(SortKey::Time, by_time[by_time.len() - 1 - j], by_time[by_time.len() - 1 - i]));
    }
}

/// Ordering rearranges: whatever the key and the flag, the result holds each
/// record as often as the input does.
pub proof fn lemma_ordering_is_permutation(entries: Seq<EntryRecord>, key: SortKey, reverse: bool)
    ensures
        ordering(entries, key, reverse).len() == entries.len(),
        ordering(entries, key, reverse).to_multiset() == entries.to_multiset(),
{
    lemma_sorted_is_permutation(entries, key);
    sorted_by(entries, key).lemma_reverse_to_multiset();
}

} // verus!
