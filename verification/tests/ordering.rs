use ls_clone::entry::{EntryKind, EntryRecord, Timestamp};
use ls_clone::order::{precedes, reversed, sort_entries, SortKey};

fn record(name: &str, size: u64, modified_secs: i64) -> EntryRecord {
    EntryRecord::new(
        name.to_string(),
        EntryKind::File,
        size,
        0o644,
        String::from("alice"),
        String::from("staff"),
        1,
        Timestamp::new(modified_secs, 0).unwrap(),
        format!("./{}", name),
    )
    .unwrap()
}

fn names(entries: &Vec<EntryRecord>) -> Vec<String> {
    entries.iter().map(|entry| entry.name().to_string()).collect()
}

fn sample() -> Vec<EntryRecord> {
    vec![
        record("delta", 40, 400),
        record("alpha", 30, 100),
        record("charlie", 10, 300),
        record("bravo", 20, 200),
    ]
}

#[test]
fn sort_key_is_read_from_its_name() {
    assert_eq!(SortKey::parse("name"), Some(SortKey::Name));
    assert_eq!(SortKey::parse("size"), Some(SortKey::Size));
    assert_eq!(SortKey::parse("time"), Some(SortKey::Time));
    assert_eq!(SortKey::parse("Name"), None);
    assert_eq!(SortKey::parse(""), None);
    assert_eq!(SortKey::parse("names"), None);
    assert_eq!(SortKey::parse("extension"), None);
}

#[test]
fn sorts_by_name_ascending() {
    let sorted = sort_entries(sample(), SortKey::Name, false);
    assert_eq!(names(&sorted), ["alpha", "bravo", "charlie", "delta"]);
}

#[test]
fn sorts_by_name_byte_by_byte() {
    let entries = vec![
        record("b", 0, 0),
        record("a", 0, 0),
        record("B", 0, 0),
        record("ab", 0, 0),
        record(".a", 0, 0),
        record("é", 0, 0),
        record("z", 0, 0),
        record("_", 0, 0),
    ];
    let sorted = sort_entries(entries, SortKey::Name, false);
    let mut expected = vec![".a", "B", "_", "a", "ab", "b", "z", "é"];
    assert_eq!(names(&sorted), expected);
    expected.sort();
    assert_eq!(names(&sorted), expected);
}

#[test]
fn sorts_by_size_ascending() {
    let sorted = sort_entries(sample(), SortKey::Size, false);
    assert_eq!(names(&sorted), ["charlie", "bravo", "alpha", "delta"]);
}

#[test]
fn sorts_by_time_newest_first() {
    let sorted = sort_entries(sample(), SortKey::Time, false);
    assert_eq!(names(&sorted), ["delta", "charlie", "bravo", "alpha"]);
}

#[test]
fn reverse_with_time_gives_oldest_first() {
    let newest_first = sort_entries(sample(), SortKey::Time, false);
    let oldest_first = sort_entries(sample(), SortKey::Time, true);
    assert_eq!(names(&oldest_first), ["alpha", "bravo", "charlie", "delta"]);
    let mut turned = names(&newest_first);
    turned.reverse();
    assert_eq!(names(&oldest_first), turned);
}

#[test]
fn reverse_turns_every_key_round() {
    for key in [SortKey::Name, SortKey::Size, SortKey::Time] {
        let mut forward = names(&sort_entries(sample(), key, false));
        forward.reverse();
        assert_eq!(names(&sort_entries(sample(), key, true)), forward);
    }
}

#[test]
fn equal_keys_keep_the_order_they_came_in() {
    let entries = vec![
        record("third", 5, 7),
        record("first", 1, 7),
        record("fourth", 5, 7),
        record("second", 1, 7),
        record("fifth", 5, 7),
    ];
    let by_size = sort_entries(entries.clone(), SortKey::Size, false);
    assert_eq!(names(&by_size), ["first", "second", "third", "fourth", "fifth"]);
    let by_time = sort_entries(entries.clone(), SortKey::Time, false);
    assert_eq!(names(&by_time), ["third", "first", "fourth", "second", "fifth"]);
    let by_size_reversed = sort_entries(entries, SortKey::Size, true);
    assert_eq!(names(&by_size_reversed), ["fifth", "fourth", "third", "second", "first"]);
}

#[test]
fn sorting_a_sorted_listing_changes_nothing() {
    for key in [SortKey::Name, SortKey::Size, SortKey::Time] {
        let once = sort_entries(sample(), key, false);
        let twice = sort_entries(once.clone(), key, false);
        assert_eq!(names(&twice), names(&once));
        let once_reversed = sort_entries(sample(), key, true);
        let twice_reversed = sort_entries(once_reversed.clone(), key, true);
        assert_eq!(names(&twice_reversed), names(&once_reversed));
    }
}

#[test]
fn sorting_keeps_every_record() {
    for key in [SortKey::Name, SortKey::Size, SortKey::Time] {
        for reverse in [false, true] {
            let mut sorted = names(&sort_entries(sample(), key, reverse));
            sorted.sort();
            assert_eq!(sorted, ["alpha", "bravo", "charlie", "delta"]);
        }
    }
}

#[test]
fn sorting_nothing_or_one_record() {
    assert!(sort_entries(Vec::new(), SortKey::Name, false).is_empty());
    assert!(sort_entries(Vec::new(), SortKey::Time, true).is_empty());
    let one = sort_entries(vec![record("only", 1, 1)], SortKey::Size, true);
    assert_eq!(names(&one), ["only"]);
}

#[test]
fn time_order_looks_at_nanoseconds_and_at_times_before_the_epoch() {
    let at = |name: &str, secs: i64, nanos: u32| {
        EntryRecord::new(
            name.to_string(),
            EntryKind::File,
            0,
            0o600,
            String::from("o"),
            String::from("g"),
            1,
            Timestamp::new(secs, nanos).unwrap(),
            name.to_string(),
        )
        .unwrap()
    };
    let entries = vec![
        at("early", -5, 999_999_999),
        at("late", 3, 1),
        at("middle", 3, 0),
        at("earliest", -6, 0),
    ];
    let sorted = sort_entries(entries, SortKey::Time, false);
    assert_eq!(names(&sorted), ["late", "middle", "early", "earliest"]);
}

#[test]
fn precedes_follows_each_key() {
    let small_old = record("b", 1, 10);
    let large_new = record("a", 2, 20);
    assert!(precedes(SortKey::Size, &small_old, &large_new));
    assert!(!precedes(SortKey::Size, &large_new, &small_old));
    assert!(precedes(SortKey::Name, &large_new, &small_old));
    assert!(!precedes(SortKey::Name, &small_old, &large_new));
    assert!(precedes(SortKey::Time, &large_new, &small_old));
    assert!(!precedes(SortKey::Time, &small_old, &large_new));
    assert!(precedes(SortKey::Name, &small_old, &small_old));
    assert!(precedes(SortKey::Name, &record("ab", 0, 0), &record("abc", 0, 0)));
    assert!(!precedes(SortKey::Name, &record("abc", 0, 0), &record("ab", 0, 0)));
}

#[test]
fn reversed_turns_a_listing_end_for_end() {
    assert_eq!(names(&reversed(sample())), ["bravo", "charlie", "alpha", "delta"]);
    assert!(reversed(Vec::new()).is_empty());
}
