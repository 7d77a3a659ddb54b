//! The sort engine: the order that each sort key puts on records, the stable
//! sort by that order, and the reversal flag.

use vstd::prelude::*;
use vstd::string::*;
use vstd::utf8::encode_utf8;
use crate::entry::EntryRecord;
use crate::order_laws::{lemma_sorted_is_ordered, lemma_sorted_is_permutation};

verus! {

/// The attribute by which a listing is ordered.
#[derive(Clone, Copy, Debug, PartialEq, Eq, Structural)]
pub enum SortKey {
    /// By name, ascending byte by byte.
    Name,
    /// By size in bytes, ascending.
    Size,
    /// By modification time, newest first.
    Time,
}

/// The lower-case name of a key.
pub open spec fn name_of_key(key: SortKey) -> Seq<char> {
    match key {
        SortKey::Name => "name"@,
        SortKey::Size => "size"@,
        SortKey::Time => "time"@,
    }
}

/// The key that a text names: the key of which it is the lower-case name,
/// none for any other text.
pub open spec fn key_of_name(mode: Seq<char>) -> Option<SortKey> {
    if mode == "name"@ {
        Some(SortKey::Name)
    } else if mode == "size"@ {
        Some(SortKey::Size)
    } else if mode == "time"@ {
        Some(SortKey::Time)
    } else {
        None
    }
}

impl SortKey {
    /// The lower-case name of the key.
    pub fn name(&self) -> (name: &'static str)
        ensures
            name@ == name_of_key(*self),
    {
        match self {
            SortKey::Name => "name",
            SortKey::Size => "size",
            SortKey::Time => "time",
        }
    }

    /// Reads a sort key from its lower-case name; none for any other text.
    pub fn parse(mode: &str) -> (key: Option<SortKey>)
        ensures
            key == key_of_name(mode@),
    {
        let mode = mode.to_owned();
        if mode == "name".to_owned() {
            Some(SortKey::Name)
        } else if mode == "size".to_owned() {
            Some(SortKey::Size)
        } else if mode == "time".to_owned() {
            Some(SortKey::Time)
        } else {
            None
        }
    }
}

/// Each key is read back from its own name.
pub proof fn lemma_key_is_read_back(key: SortKey)
    ensures
        key_of_name(name_of_key(key)) == Some(key),
{
    reveal_strlit("name");
    reveal_strlit("size");
    reveal_strlit("time");
    assert("name"@[0] == 'n' && "size"@[0] == 's' && "time"@[0] == 't');
}

/// Whether `a` is at or before `b` in byte-wise lexicographic order, given
/// that the two agree on every byte before `from`.
pub open spec fn bytes_in_order_from(a: Seq<u8>, b: Seq<u8>, from: int) -> bool
    decreases a.len() - from,
{
    if from >= a.len() {
        true
    } else if from >= b.len() {
        false
    } else if a[from] != b[from] {
        a[from] < b[from]
    } else {
        bytes_in_order_from(a, b, from + 1)
    }
}

/// Whether `a` is at or before `b` in byte-wise lexicographic order: at the
/// first byte where they differ `a` has the smaller one, or `a` is a prefix of
/// `b`.
pub open spec fn bytes_in_order(a: Seq<u8>, b: Seq<u8>) -> bool {
    bytes_in_order_from(a, b, 0)
}

/// The bytes of a record's name.
pub open spec fn name_bytes(record: EntryRecord) -> Seq<u8> {
    encode_utf8(record@.name)
}

/// Whether `a` may stand before `b` under `key`: its name is at or before
/// `b`'s, its size is at most `b`'s, or it was modified no earlier than `b`.
pub open spec fn in_order(key: SortKey, a: EntryRecord, b: EntryRecord) -> bool {
    match key {
        SortKey::Name => bytes_in_order(name_bytes(a), name_bytes(b)),
        SortKey::Size => a@.size_bytes <= b@.size_bytes,
        SortKey::Time => a@.modified_at >= b@.modified_at,
    }
}

/// Whether `key` does not tell `a` and `b` apart.
pub open spec fn same_rank(key: SortKey, a: EntryRecord, b: EntryRecord) -> bool {
    in_order(key, a, b) && in_order(key, b, a)
}

/// Whether each record may stand before every later one.
pub open spec fn is_ordered(entries: Seq<EntryRecord>, key: SortKey) -> bool {
    forall|i: int, j: int|
        0 <= i < j < entries.len() ==> in_order(key, #[trigger] entries[i], #[trigger] entries[j])
}

/// Whether no two records have the same rank.
pub open spec fn has_no_ties(entries: Seq<EntryRecord>, key: SortKey) -> bool {
    forall|i: int, j: int|
        0 <= i < j < entries.len() ==> !same_rank(key, #[trigger] entries[i], #[trigger] entries[j])
}

/// Where `record` goes into `sorted`: behind the last record that may stand
/// before it, and so behind every record of its own rank.
pub open spec fn insertion_point(sorted: Seq<EntryRecord>, record: EntryRecord, key: SortKey) -> int
    decreases sorted.len(),
{
    if sorted.len() == 0 {
        0
    } else if in_order(key, sorted.last(), record) {
        sorted.len() as int
    } else {
        insertion_point(sorted.drop_last(), record, key)
    }
}

/// The stable sort of `entries` by `key`: the records taken in the order
/// they came in, each put at its insertion point among those before it.
pub open spec fn sorted_by(entries: Seq<EntryRecord>, key: SortKey) -> Seq<EntryRecord>
    decreases entries.len(),
{
    if entries.len() == 0 {
        entries
    } else {
        let front = sorted_by(entries.drop_last(), key);
        front.insert(insertion_point(front, entries.last(), key), entries.last())
    }
}

/// The order of a listing: the stable sort by `key`, turned end for end
/// where `reverse` is set.
pub open spec fn ordering(entries: Seq<EntryRecord>, key: SortKey, reverse: bool) -> Seq<
    EntryRecord,
> {
    if reverse {
        sorted_by(entries, key).reverse()
    } else {
        sorted_by(entries, key)
    }
}

fn bytes_precede(a: &[u8], b: &[u8]) -> (ordered: bool)
    ensures
        ordered == bytes_in_order(a@, b@),
{
    let mut at: usize = 0;
    while at < a.len() && at < b.len() && a[at] == b[at]
        invariant
            at <= a.len(),
            at <= b.len(),
            bytes_in_order(a@, b@) == bytes_in_order_from(a@, b@, at as int),
        decreases a.len() - at,
    {
        at = at + 1;
    }
    if at >= a.len() {
        true
    } else if at >= b.len() {
        false
    } else {
        a[at] < b[at]
    }
}

/// Decides `in_order`.
pub fn precedes(key: SortKey, a: &EntryRecord, b: &EntryRecord) -> (ordered: bool)
    ensures
        ordered == in_order(key, *a, *b),
{
    match key {
        SortKey::Name => bytes_precede(a.name().as_bytes(), b.name().as_bytes()),
        SortKey::Size => a.size_bytes() <= b.size_bytes(),
        SortKey::Time => a.modified_at().is_at_or_after(&b.modified_at()),
    }
}

/// Turns a listing end for end.
pub fn reversed(entries: Vec<EntryRecord>) -> (turned: Vec<EntryRecord>)
    ensures
        turned@ == entries@.reverse(),
{
    let ghost given = entries@;
    let mut rest = entries;
    let mut turned: Vec<EntryRecord> = Vec::new();
    while rest.len() > 0
        invariant
            rest@ == given.take(rest@.len() as int),
            rest@.len() <= given.len(),
            turned@.len() + rest@.len() == given.len(),
            forall|i: int|
                0 <= i < turned@.len() ==> #[trigger] turned@[i] == given[given.len() - 1
                    - i],
        decreases rest@.len(),
    {
        match rest.pop() {
            Some(record) => {
                turned.push(record);
            },
            None => {},
        }
    }
    assert(turned@ =~= given.reverse());
    turned
}

/// Orders a listing: a stable sort by `key`, then turned end for end where
/// `reverse` is set. Without `reverse`, records that `key` does not tell apart
/// stay in the order in which they came.
pub fn sort_entries(entries: Vec<EntryRecord>, key: SortKey, reverse: bool) -> (sorted: Vec<
    EntryRecord,
>)
    ensures
        sorted@ == ordering(entries@, key, reverse),
        sorted@.to_multiset() == entries@.to_multiset(),
        !reverse ==> is_ordered(sorted@, key),
{
    let ghost given = entries@;
    let mut sorted = entries;
    let mut next: usize = 0;
    assert(sorted@.take(0) == sorted_by(given.take(0), key));
    while next < sorted.len()
        invariant
            next <= sorted@.len(),
            sorted@.len() == given.len(),
            sorted@.take(next as int) == sorted_by(given.take(next as int), key),
            sorted@.skip(next as int) == given.skip(next as int),
        decreases sorted@.len() - next,
    {
        let ghost before = sorted@;
        let ghost front = sorted@.take(next as int);
        let record = sorted.remove(next);
        assert(record == given[next as int]) by {
            assert(before.skip(next as int)[0] == given.skip(next as int)[0]);
        }
        assert(sorted@.take(next as int) == front);
        let mut at: usize = next;
        assert(front.take(at as int) == front);
        while at > 0 && !precedes(key, &sorted[at - 1], &record)
            invariant
                at <= next,
                next <= sorted@.len(),
                sorted@.take(next as int) == front,
                insertion_point(front, record, key) == insertion_point(
                    front.take(at as int),
                    record,
                    key,
                ),
            decreases at,
        {
            assert(front.take(at as int).last() == sorted@[at - 1]);
            assert(front.take(at as int).drop_last() == front.take(at - 1));
            at = at - 1;
        }
        assert(insertion_point(front, record, key) == at) by {
            if at > 0 {
                assert(front.take(at as int).last() == sorted@[at - 1]);
            }
        }
        let ghost removed = sorted@;
        sorted.insert(at, record);
        proof {
            let grown = given.take(next + 1);
            assert(grown.drop_last() == given.take(next as int));
            assert(grown.last() == record);
            assert(sorted@.take(next + 1) == front.insert(at as int, record));
            assert(sorted@.skip(next + 1) == given.skip(next + 1)) by {
                assert(removed.skip(next as int) == before.skip(next as int).skip(1));
                assert(given.skip(next as int).skip(1) == given.skip(next + 1));
            }
        }
        next = next + 1;
    }
    proof {
        assert(sorted@.take(next as int) == sorted@);
        assert(given.take(next as int) == given);
        lemma_sorted_is_permutation(given, key);
        lemma_sorted_is_ordered(given, key);
        sorted_by(given, key).lemma_reverse_to_multiset();
    }
    if reverse {
        reversed(sorted)
    } else {
        sorted
    }
}

} // verus!
