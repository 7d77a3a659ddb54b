use ls_clone::entry::{EntryKind, EntryRecord, Timestamp};
use ls_clone::local_time::{choose_time_text, modified_text, MODIFIED_PATTERN};
use ls_clone::order::{sort_entries, SortKey};
use ls_clone::render::{
    is_hidden, join_with_spaces, long_format_line, render, render_compact, render_long,
    render_long_line, visible_names, Options,
};

fn entry(name: &str, kind: EntryKind, size: u64, mode: u32, links: u64) -> EntryRecord {
    EntryRecord::new(
        name.to_string(),
        kind,
        size,
        mode,
        String::from("alice"),
        String::from("staff"),
        links,
        Timestamp::new(1_700_000_000, 0).unwrap(),
        format!("dir/{}", name),
    )
    .unwrap()
}

fn scenario() -> Vec<EntryRecord> {
    vec![
        entry("beta.log", EntryKind::File, 2_500_000, 0o644, 1),
        entry(".hidden", EntryKind::File, 10, 0o600, 1),
        entry("alpha.txt", EntryKind::File, 500, 0o644, 1),
    ]
}

fn now() -> Timestamp {
    Timestamp::new(1_750_000_000, 0).unwrap()
}

fn options(all: bool, long_format: bool, author: bool, reverse: bool, human: bool) -> Options {
    Options { all, long_format, author, reverse, human }
}

fn looks_like_a_time_column(text: &str) -> bool {
    let chars: Vec<char> = text.chars().collect();
    chars.len() == 12
        && chars[0].is_ascii_uppercase()
        && chars[1].is_ascii_lowercase()
        && chars[2].is_ascii_lowercase()
        && chars[3] == ' '
        && (chars[4] == ' ' || chars[4].is_ascii_digit())
        && chars[5].is_ascii_digit()
        && chars[6] == ' '
        && chars[7].is_ascii_digit()
        && chars[8].is_ascii_digit()
        && chars[9] == ':'
        && chars[10].is_ascii_digit()
        && chars[11].is_ascii_digit()
}

#[test]
fn names_that_begin_with_a_dot_are_hidden() {
    assert!(is_hidden(".hidden"));
    assert!(is_hidden("."));
    assert!(is_hidden(".."));
    assert!(!is_hidden("alpha.txt"));
    assert!(!is_hidden("a."));
    assert!(!is_hidden(""));
}

#[test]
fn compact_listing_by_size_without_hidden_entries() {
    let sorted = sort_entries(scenario(), SortKey::Size, false);
    assert_eq!(render_compact(&sorted, false), "alpha.txt beta.log");
    let lines = render(&sorted, &options(false, false, false, false, false), now());
    assert_eq!(lines, ["alpha.txt beta.log"]);
}

#[test]
fn compact_listing_by_name_reversed_with_hidden_entries() {
    let sorted = sort_entries(scenario(), SortKey::Name, true);
    assert_eq!(render_compact(&sorted, true), "beta.log alpha.txt .hidden");
    let lines = render(&sorted, &options(true, false, false, true, false), now());
    assert_eq!(lines, ["beta.log alpha.txt .hidden"]);
}

#[test]
fn compact_listing_of_nothing_is_one_empty_line() {
    assert_eq!(render_compact(&Vec::new(), true), "");
    let only_hidden = vec![entry(".a", EntryKind::File, 1, 0o600, 1)];
    assert_eq!(render_compact(&only_hidden, false), "");
    assert_eq!(render(&only_hidden, &options(false, false, false, false, false), now()), [""]);
    assert_eq!(render_compact(&only_hidden, true), ".a");
}

#[test]
fn the_same_entries_are_listed_whatever_the_sort_key() {
    for show_hidden in [false, true] {
        let mut seen: Vec<Vec<String>> = Vec::new();
        for key in [SortKey::Name, SortKey::Size, SortKey::Time] {
            for reverse in [false, true] {
                let mut names = visible_names(&sort_entries(scenario(), key, reverse), show_hidden);
                names.sort();
                seen.push(names);
            }
        }
        let expected: Vec<String> = if show_hidden {
            vec![".hidden".into(), "alpha.txt".into(), "beta.log".into()]
        } else {
            vec!["alpha.txt".into(), "beta.log".into()]
        };
        for names in seen {
            assert_eq!(names, expected);
        }
    }
}

#[test]
fn joining_puts_single_blanks_between_parts() {
    assert_eq!(join_with_spaces(&Vec::new()), "");
    assert_eq!(join_with_spaces(&vec![String::from("a")]), "a");
    assert_eq!(join_with_spaces(&vec![String::from("a"), String::from("b c"), String::new()]), "a b c ");
}

#[test]
fn long_line_of_a_file() {
    let file = entry("alpha.txt", EntryKind::File, 500, 0o644, 1);
    let line = render_long_line(&file, false, false, "Nov 14 22:13");
    assert_eq!(line, "-rw-r--r-- 1        500         alice staff Nov 14 22:13 alpha.txt");
    let expected = format!(
        "{:<3} {:<8} {:<8} {:>8} {} {} {}",
        "-rw-r--r--", 1, "500", "alice", "staff", "Nov 14 22:13", "alpha.txt"
    );
    assert_eq!(line, expected);
}

#[test]
fn long_line_with_author_and_human_sizes() {
    let file = entry("beta.log", EntryKind::File, 2_500_000, 0o755, 12);
    let line = render_long_line(&file, true, true, "Jan  1 00:00");
    let expected = format!(
        "{:<3} {:<8} {:<8} {:>8} {} {} {} {}",
        "-rwxr-xr-x", 12, "2.5M", "alice", "staff", "alice", "Jan  1 00:00", "beta.log"
    );
    assert_eq!(line, expected);
    assert_eq!(line, "-rwxr-xr-x 12       2.5M        alice staff alice Jan  1 00:00 beta.log");
}

#[test]
fn long_line_of_a_directory_shows_a_dash_for_its_size() {
    for size in [0u64, 4096, 1_000_000] {
        for human in [false, true] {
            let dir = entry("src", EntryKind::Directory, size, 0o755, 3);
            let line = render_long_line(&dir, false, human, "Jan  1 00:00");
            assert_eq!(line, "drwxr-xr-x 3        -           alice staff Jan  1 00:00 src");
        }
    }
}

#[test]
fn long_line_of_another_kind_shows_its_size_and_a_dash_for_its_kind() {
    let other = entry("socket", EntryKind::Other, 0, 0o600, 1);
    let line = render_long_line(&other, false, false, "Jan  1 00:00");
    assert_eq!(line, "-rw------- 1        0           alice staff Jan  1 00:00 socket");
}

#[test]
fn long_line_never_cuts_a_wide_field() {
    let wide = EntryRecord::new(
        String::from("a name with blanks"),
        EntryKind::File,
        u64::MAX,
        0o640,
        String::from("a-very-long-owner"),
        String::from("a-very-long-group"),
        1_234_567_890_123,
        Timestamp::new(0, 0).unwrap(),
        String::from("p"),
    )
    .unwrap();
    let line = render_long_line(&wide, true, false, "Jan  1 00:00");
    assert_eq!(
        line,
        "-rw-r----- 1234567890123 18446744073709551615 a-very-long-owner a-very-long-group a-very-long-owner Jan  1 00:00 a name with blanks"
    );
}

#[test]
fn time_column_is_month_day_hours_and_minutes() {
    assert_eq!(MODIFIED_PATTERN, "%b %e %H:%M");
    for secs in [0i64, 86_399, 1_700_000_000, -1, 4_102_444_800] {
        let text = modified_text(Timestamp::new(secs, 0).unwrap(), now());
        assert!(looks_like_a_time_column(&text));
    }
}

#[test]
fn time_column_is_shown_for_every_instant_the_calendar_holds() {
    let beyond = Timestamp::new(i64::MAX, 0).unwrap();
    let reach = 8_000_000_000_000i64;
    for secs in [-reach, -reach + 1, -86_400, -1, 0, 1, 2_000_000_000, reach - 1, reach] {
        for nanos in [0u32, 1, 999_999_999] {
            let text = modified_text(Timestamp::new(secs, nanos).unwrap(), beyond);
            assert!(looks_like_a_time_column(&text));
        }
    }
}

#[test]
fn time_column_shows_single_digit_days_behind_a_blank() {
    let beyond = Timestamp::new(i64::MAX, 0).unwrap();
    let mut single = 0;
    let mut double = 0;
    for day in 0..40i64 {
        let text = modified_text(Timestamp::new(1_700_000_000 + day * 86_400, 0).unwrap(), beyond);
        assert!(looks_like_a_time_column(&text));
        if text.as_bytes()[4] == b' ' {
            single += 1;
        } else {
            double += 1;
        }
    }
    assert!(single >= 9);
    assert!(double >= 19);
}

#[test]
fn time_column_follows_the_instant() {
    let instant = chrono::DateTime::from_timestamp(1_700_000_000, 0).unwrap();
    let expected = instant.with_timezone(&chrono::Local).format("%b %e %H:%M").to_string();
    assert_eq!(modified_text(Timestamp::new(1_700_000_000, 0).unwrap(), now()), expected);
    let half_a_year_on = modified_text(Timestamp::new(1_715_000_000, 0).unwrap(), now());
    assert_ne!(half_a_year_on, expected);
}

#[test]
fn time_column_of_an_instant_beyond_the_calendar_is_the_present() {
    let present = modified_text(now(), now());
    assert!(looks_like_a_time_column(&present));
    let late = modified_text(Timestamp::new(i64::MAX, 0).unwrap(), now());
    assert_eq!(late, present);
    let early = modified_text(Timestamp::new(i64::MIN, 0).unwrap(), now());
    assert_eq!(early, present);
    let neither = modified_text(
        Timestamp::new(i64::MAX, 0).unwrap(),
        Timestamp::new(i64::MIN, 0).unwrap(),
    );
    assert_eq!(neither, "");
}

#[test]
fn time_text_prefers_the_modification_time() {
    let shown = Some(String::from("Jan  1 00:00"));
    let now = Some(String::from("Feb  2 12:34"));
    assert_eq!(choose_time_text(shown.clone(), now.clone()), "Jan  1 00:00");
    assert_eq!(choose_time_text(shown, None), "Jan  1 00:00");
    assert_eq!(choose_time_text(None, now), "Feb  2 12:34");
    assert_eq!(choose_time_text(None, None), "");
}

#[test]
fn long_format_line_has_the_local_time_in_its_place() {
    let file = entry("alpha.txt", EntryKind::File, 500, 0o644, 1);
    let line = long_format_line(&file, false, false, now());
    let time = modified_text(file.modified_at(), now());
    assert_eq!(line, render_long_line(&file, false, false, &time));
    assert!(line.starts_with("-rw-r--r-- 1        500         alice staff "));
    assert!(line.ends_with(" alpha.txt"));
}

#[test]
fn long_listing_has_one_line_for_each_listed_entry() {
    let sorted = sort_entries(scenario(), SortKey::Name, false);
    let lines = render_long(&sorted, false, false, true, now());
    assert_eq!(lines.len(), 2);
    assert!(lines[0].ends_with(" alpha.txt"));
    assert!(lines[0].starts_with("-rw-r--r-- 1        500B    "));
    assert!(lines[1].ends_with(" beta.log"));
    assert!(lines[1].starts_with("-rw-r--r-- 1        2.5M    "));
    let all = render(&sorted, &options(true, true, true, false, false), now());
    assert_eq!(all.len(), 3);
    assert!(all[0].ends_with(" .hidden"));
    assert!(all[0].starts_with("-rw------- 1        10          alice staff alice "));
}
