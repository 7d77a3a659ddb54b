//! Rendering: the hidden-entry filter, the compact line of names and the
//! long lines with their columns.

use vstd::prelude::*;
use vstd::seq_lib::to_multiset_build;
use vstd::string::*;
use crate::entry::{EntryRecord, EntryRecordView, Timestamp};
use crate::order::{ordering, SortKey};
use crate::order_laws::lemma_ordering_is_permutation;
use crate::local_time::{is_calendar_instant, is_month_day_time, is_time_text, modified_text};
use crate::permissions::{format_permissions, permission_text};
use crate::size::{size_column, size_column_text};
use crate::text::{
    decimal_string,
    decimal_text,
    left_aligned,
    push_left_aligned,
    push_right_aligned,
    right_aligned,
    starts_with_char,
};

verus! {

/// What to show and how, settled before any entry is read.
#[derive(Clone, Copy, Debug, PartialEq, Eq, Structural)]
pub struct Options {
    /// Show entries whose name begins with a dot.
    pub all: bool,
    /// One line per entry, with its metadata columns.
    pub long_format: bool,
    /// In the long format, name the owner a second time after the group.
    pub author: bool,
    /// Reverse the order that the sort key gave.
    pub reverse: bool,
    /// In the long format, scale sizes to `K`, `M` and `G`.
    pub human: bool,
}

/// A name is hidden where it begins with a dot.
pub open spec fn is_hidden_name(name: Seq<char>) -> bool {
    name.len() > 0 && name[0] == '.'
}

/// Decides `is_hidden_name`.
pub fn is_hidden(name: &str) -> (hidden: bool)
    ensures
        hidden == is_hidden_name(name@),
{
    starts_with_char(name, '.')
}

/// Whether a record is listed: always where hidden entries are asked for,
/// else where its name is not hidden.
pub open spec fn is_shown(record: EntryRecord, show_hidden: bool) -> bool {
    show_hidden || !is_hidden_name(record@.name)
}

/// The records that are listed, in the order they came in.
pub open spec fn visible_entries(entries: Seq<EntryRecord>, show_hidden: bool) -> Seq<
    EntryRecord,
> {
    entries.filter(|record: EntryRecord| is_shown(record, show_hidden))
}

/// The names of records, in order.
pub open spec fn names_of(entries: Seq<EntryRecord>) -> Seq<Seq<char>> {
    entries.map_values(|record: EntryRecord| record@.name)
}

/// The texts of strings, in order.
pub open spec fn texts(strings: Seq<String>) -> Seq<Seq<char>> {
    strings.map_values(|text: String| text@)
}

/// The parts in order with a single blank between neighbours, and none
/// before the first or after the last.
pub open spec fn joined(parts: Seq<Seq<char>>) -> Seq<char>
    decreases parts.len(),
{
    if parts.len() == 0 {
        Seq::empty()
    } else if parts.len() == 1 {
        parts[0]
    } else {
        joined(parts.drop_last()) + seq![' '] + parts.last()
    }
}

/// The compact listing: the names of the listed records, separated by single
/// blanks.
pub open spec fn compact_text(entries: Seq<EntryRecord>, show_hidden: bool) -> Seq<char> {
    joined(names_of(visible_entries(entries, show_hidden)))
}

/// The long line of a record whose modification time reads `modified`:
/// permissions, link count, size, owner, group, the owner once more where
/// `author` is set, modification time and name, each separated from the next
/// by a blank. Permissions, link count and size are left-aligned and the owner
/// right-aligned in a minimum width; no field is ever cut.
pub open spec fn long_line(
    record: EntryRecordView,
    author: bool,
    human: bool,
    modified: Seq<char>,
) -> Seq<char> {
    left_aligned(permission_text(record.permission_bits, record.kind is Directory), 3) + seq![' ']
        + left_aligned(decimal_text(record.link_count), 8) + seq![' '] + left_aligned(
        size_column_text(record.kind is Directory, record.size_bytes, human),
        8,
    ) + seq![' '] + right_aligned(record.owner_display, 8) + seq![' '] + record.group_display
        + seq![' '] + (if author {
        record.owner_display + seq![' ']
    } else {
        Seq::empty()
    }) + modified + seq![' '] + record.name
}

/// Whether `line` is the long line of `record` for some reading of the
/// time column, at the present moment `now`. The column has the form of the
/// time pattern wherever the calendar can show the record's modification time
/// or the present moment; it is empty only where it can show neither.
pub open spec fn is_long_line_of(
    line: Seq<char>,
    record: EntryRecordView,
    author: bool,
    human: bool,
    now: int,
) -> bool {
    exists|modified: Seq<char>|
        {
            &&& is_time_text(modified)
            &&& is_calendar_instant(record.modified_at) || is_calendar_instant(now)
                ==> is_month_day_time(modified)
            &&& line == #[trigger] long_line(record, author, human, modified)
        }
}

/// Joins `parts` with single blanks.
pub fn join_with_spaces(parts: &Vec<String>) -> (line: String)
    ensures
        line@ == joined(texts(parts@)),
{
    let mut line = String::new();
    let mut done: usize = 0;
    while done < parts.len()
        invariant
            done <= parts.len(),
            line@ == joined(texts(parts@.take(done as int))),
        decreases parts.len() - done,
    {
        proof {
            let before = texts(parts@.take(done as int));
            let after = texts(parts@.take(done + 1));
            assert(after.drop_last() == before);
            assert(after.last() == parts@[done as int]@);
        }
        if done > 0 {
            line.push(' ');
        }
        line.append(parts[done].as_str());
        done = done + 1;
    }
    assert(parts@.take(done as int) == parts@);
    line
}

/// The names of the listed records, in order.
pub fn visible_names(entries: &Vec<EntryRecord>, show_hidden: bool) -> (names: Vec<String>)
    ensures
        texts(names@) == names_of(visible_entries(entries@, show_hidden)),
{
    let mut names: Vec<String> = Vec::new();
    let mut done: usize = 0;
    assert(entries@.take(0).filter(|record: EntryRecord| is_shown(record, show_hidden)).len() == 0)
        by {
        entries@.take(0).lemma_filter_len(|record: EntryRecord| is_shown(record, show_hidden));
    }
    while done < entries.len()
        invariant
            done <= entries.len(),
            texts(names@) == names_of(visible_entries(entries@.take(done as int), show_hidden)),
        decreases entries.len() - done,
    {
        let record = &entries[done];
        proof {
            let before = entries@.take(done as int);
            assert(entries@.take(done + 1) == before.push(*record));
            before.lemma_filter_push(*record, |record: EntryRecord| is_shown(record, show_hidden));
        }
        let ghost seen = names@;
        if show_hidden || !is_hidden(record.name()) {
            names.push(record.name().to_owned());
            assert(texts(names@) == texts(seen).push(record@.name));
            assert(names_of(
                visible_entries(entries@.take(done as int), show_hidden).push(*record),
            ) == names_of(visible_entries(entries@.take(done as int), show_hidden)).push(
                record@.name,
            ));
        }
        done = done + 1;
    }
    assert(entries@.take(done as int) == entries@);
    names
}

/// Renders the compact listing.
pub fn render_compact(entries: &Vec<EntryRecord>, show_hidden: bool) -> (line: String)
    ensures
        line@ == compact_text(entries@, show_hidden),
{
    let names = visible_names(entries, show_hidden);
    join_with_spaces(&names)
}

/// Renders the long line of `record`, with `modified` in the time column.
pub fn render_long_line(record: &EntryRecord, author: bool, human: bool, modified: &str) -> (line:
    String)
    ensures
        line@ == long_line(record@, author, human, modified@),
{
    let is_dir = record.kind().is_directory();
    let mut line = String::new();
    let perms = format_permissions(record.permission_bits(), is_dir);
    push_left_aligned(&mut line, perms.as_str(), 3);
    line.push(' ');
    let links = decimal_string(record.link_count());
    push_left_aligned(&mut line, links.as_str(), 8);
    line.push(' ');
    let size = size_column(is_dir, record.size_bytes(), human);
    push_left_aligned(&mut line, size.as_str(), 8);
    line.push(' ');
    push_right_aligned(&mut line, record.owner_display(), 8);
    line.push(' ');
    line.append(record.group_display());
    line.push(' ');
    if author {
        line.append(record.owner_display());
        line.push(' ');
    }
    line.append(modified);
    line.push(' ');
    line.append(record.name());
    assert(line@ =~= long_line(record@, author, human, modified@));
    line
}

/// Renders the long line of `record`, with its modification time in local
/// time. `now` is the present moment, shown in place of a modification time
/// that the calendar cannot show.
pub fn long_format_line(record: &EntryRecord, author: bool, human: bool, now: Timestamp) -> (line:
    String)
    ensures
        is_long_line_of(line@, record@, author, human, now@),
{
    let modified = modified_text(record.modified_at(), now);
    render_long_line(record, author, human, modified.as_str())
}

/// Renders the long listing: one line for each listed record, in order.
pub fn render_long(
    entries: &Vec<EntryRecord>,
    show_hidden: bool,
    author: bool,
    human: bool,
    now: Timestamp,
) -> (lines: Vec<String>)
    ensures
        lines@.len() == visible_entries(entries@, show_hidden).len(),
        forall|i: int|
            0 <= i < lines@.len() ==> is_long_line_of(
                #[trigger] lines@[i]@,
                visible_entries(entries@, show_hidden)[i]@,
                author,
                human,
                now@,
            ),
{
    let mut lines: Vec<String> = Vec::new();
    let mut done: usize = 0;
    assert(entries@.take(0).filter(|record: EntryRecord| is_shown(record, show_hidden)).len() == 0)
        by {
        entries@.take(0).lemma_filter_len(|record: EntryRecord| is_shown(record, show_hidden));
    }
    while done < entries.len()
        invariant
            done <= entries.len(),
            lines@.len() == visible_entries(entries@.take(done as int), show_hidden).len(),
            forall|i: int|
                0 <= i < lines@.len() ==> is_long_line_of(
                    #[trigger] lines@[i]@,
                    visible_entries(entries@.take(done as int), show_hidden)[i]@,
                    author,
                    human,
                    now@,
                ),
        decreases entries.len() - done,
    {
        let record = &entries[done];
        proof {
            let before = entries@.take(done as int);
            assert(entries@.take(done + 1) == before.push(*record));
            before.lemma_filter_push(*record, |record: EntryRecord| is_shown(record, show_hidden));
        }
        if show_hidden || !is_hidden(record.name()) {
            lines.push(long_format_line(record, author, human, now));
        }
        done = done + 1;
    }
    assert(entries@.take(done as int) == entries@);
    lines
}

/// Renders the listing after `options`: in the long format one line for each
/// listed record, else a single line that holds the compact listing. `now` is
/// the present moment, for the time column of the long format.
pub fn render(entries: &Vec<EntryRecord>, options: &Options, now: Timestamp) -> (lines: Vec<
    String,
>)
    ensures
        !options.long_format ==> lines@.len() == 1 && lines@[0]@ == compact_text(
            entries@,
            options.all,
        ),
        options.long_format ==> lines@.len() == visible_entries(entries@, options.all).len(),
        options.long_format ==> forall|i: int|
            0 <= i < lines@.len() ==> is_long_line_of(
                #[trigger] lines@[i]@,
                visible_entries(entries@, options.all)[i]@,
                options.author,
                options.human,
                now@,
            ),
{
    if options.long_format {
        render_long(entries, options.all, options.author, options.human, now)
    } else {
        let mut lines: Vec<String> = Vec::new();
        lines.push(render_compact(entries, options.all));
        lines
    }
}

/// A directory shows a dash in the size column of its long line, whatever
/// size was read for it and whether or not sizes are scaled.
pub proof fn lemma_directory_shows_dash(
    record: EntryRecordView,
    other_size: nat,
    author: bool,
    human: bool,
    other_human: bool,
    modified: Seq<char>,
)
    requires
        record.kind is Directory,
    ensures
        size_column_text(record.kind is Directory, record.size_bytes, human) == seq!['-'],
        long_line(record, author, human, modified) == long_line(
            EntryRecordView { size_bytes: other_size, ..record },
            author,
            other_human,
            modified,
        ),
{
}

proof fn lemma_filter_counts<A>(entries: Seq<A>, keep: spec_fn(A) -> bool, value: A)
    ensures
        entries.filter(keep).to_multiset().count(value) == (if keep(value) {
            entries.to_multiset().count(value)
        } else {
            0
        }),
    decreases entries.len(),
{
    broadcast use vstd::multiset::group_multiset_axioms;

    if entries.len() == 0 {
        entries.lemma_filter_len(keep);
        assert(entries.filter(keep) == Seq::<A>::empty());
        assert(entries == Seq::<A>::empty());
        Seq::<A>::empty().to_multiset_ensures();
    } else {
        let rest = entries.drop_last();
        let last = entries.last();
        lemma_filter_counts(rest, keep, value);
        assert(rest.push(last) == entries);
        rest.lemma_filter_push(last, keep);
        to_multiset_build(rest, last);
        to_multiset_build(rest.filter(keep), last);
    }
}

/// Which entries are listed does not depend on the order: whatever the sort
/// key and the reversal flag, the listed records are those of the input that
/// are not hidden, each as often as it occurs there.
pub proof fn lemma_visible_entries_independent_of_order(
    entries: Seq<EntryRecord>,
    show_hidden: bool,
    key: SortKey,
    reverse: bool,
    other_key: SortKey,
    other_reverse: bool,
)
    ensures
        visible_entries(ordering(entries, key, reverse), show_hidden).to_multiset()
            == visible_entries(entries, show_hidden).to_multiset(),
        visible_entries(ordering(entries, key, reverse), show_hidden).to_multiset()
            == visible_entries(ordering(entries, other_key, other_reverse), show_hidden).to_multiset(),
{
    let keep = |record: EntryRecord| is_shown(record, show_hidden);
    let plain = visible_entries(entries, show_hidden).to_multiset();
    let first = visible_entries(ordering(entries, key, reverse), show_hidden).to_multiset();
    let second = visible_entries(ordering(entries, other_key, other_reverse), show_hidden).to_multiset();
    lemma_ordering_is_permutation(entries, key, reverse);
    lemma_ordering_is_permutation(entries, other_key, other_reverse);
    assert forall|record: EntryRecord|
        first.count(record) == plain.count(record) && second.count(record) == plain.count(
            record,
        ) by {
        lemma_filter_counts(entries, keep, record);
        lemma_filter_counts(ordering(entries, key, reverse), keep, record);
        lemma_filter_counts(ordering(entries, other_key, other_reverse), keep, record);
    }
    assert(first =~= plain);
    assert(second =~= plain);
}

} // verus!
