//! The listing as a whole: opening the directory, collecting a record or a
//! failure for each entry that was read, and presenting the records in order.

use vstd::prelude::*;
use vstd::string::*;
use crate::entry::{
    valid_entry_name,
    is_valid_entry_name,
    EntryRecord,
    EntryRecordView,
    MetadataSnapshot,
    StatFailed,
    Timestamp,
};
use crate::identity::{
    identity_text,
    is_identity_of,
    lookup_group_name,
    lookup_user_name,
    name_text,
    resolve_identity,
};
use crate::order::{ordering, sort_entries, SortKey};
use crate::render::{compact_text, is_long_line_of, render, texts, visible_entries, Options};

verus! {

/// The record that a name, a path, a snapshot and the shown owner and group
/// make.
pub open spec fn record_of(
    name: Seq<char>,
    source_path: Seq<char>,
    snapshot: MetadataSnapshot,
    owner: Seq<char>,
    group: Seq<char>,
) -> EntryRecordView {
    EntryRecordView {
        name,
        kind: snapshot.kind,
        size_bytes: snapshot.size as nat,
        permission_bits: snapshot.mode,
        owner_display: owner,
        group_display: group,
        link_count: snapshot.link_count as nat,
        modified_at: snapshot.modified@,
        source_path,
    }
}

/// Builds the record of an entry from its snapshot and from what the lookups
/// of its owner and its group gave. It fails, naming the path, where the name
/// is not a final path component.
pub fn build_record(
    name: &str,
    source_path: &str,
    snapshot: &MetadataSnapshot,
    owner_name: Option<String>,
    group_name: Option<String>,
) -> (built: Result<EntryRecord, StatFailed>)
    ensures
        built is Ok <==> valid_entry_name(name@),
        built matches Ok(record) ==> record@ == record_of(
            name@,
            source_path@,
            *snapshot,
            identity_text(snapshot.uid, name_text(owner_name)),
            identity_text(snapshot.gid, name_text(group_name)),
        ) && record@.well_formed(),
        built matches Err(failure) ==> failure.path@ == source_path@,
{
    if is_valid_entry_name(name) {
        Ok(
            EntryRecord::assemble(
                name.to_owned(),
                snapshot.kind,
                snapshot.size,
                snapshot.mode,
                resolve_identity(snapshot.uid, owner_name),
                resolve_identity(snapshot.gid, group_name),
                snapshot.link_count,
                snapshot.modified,
                source_path.to_owned(),
            ),
        )
    } else {
        Err(StatFailed { path: source_path.to_owned() })
    }
}

/// Whether `record` is the record of the entry `name` at `source_path` with
/// `snapshot`, for some outcome of the lookups of its owner and its group.
pub open spec fn is_record_of(
    record: EntryRecordView,
    name: Seq<char>,
    source_path: Seq<char>,
    snapshot: MetadataSnapshot,
) -> bool {
    &&& record == record_of(
        name,
        source_path,
        snapshot,
        record.owner_display,
        record.group_display,
    )
    &&& is_identity_of(record.owner_display, snapshot.uid)
    &&& is_identity_of(record.group_display, snapshot.gid)
    &&& record.well_formed()
}

/// Builds the record of one entry from what reading its metadata gave,
/// resolving owner and group on the way. It fails, naming the path, where the
/// metadata could not be read or the name is not a final path component; it
/// never gives a record made of parts.
pub fn build_file_data(name: &str, source_path: &str, read: Option<MetadataSnapshot>) -> (built:
    Result<EntryRecord, StatFailed>)
    ensures
        built is Ok <==> read is Some && valid_entry_name(name@),
        built matches Ok(record) ==> is_record_of(record@, name@, source_path@, read->0),
        built matches Err(failure) ==> failure.path@ == source_path@,
{
    match read {
        Some(snapshot) => {
            let owner_name = lookup_user_name(snapshot.uid);
            let group_name = lookup_group_name(snapshot.gid);
            build_record(name, source_path, &snapshot, owner_name, group_name)
        },
        None => Err(StatFailed { path: source_path.to_owned() }),
    }
}

/// The target is not a directory, or it cannot be opened. Nothing is listed.
#[derive(Clone, Copy, Debug, PartialEq, Eq, Structural)]
pub struct OpenFailed;

impl OpenFailed {
    /// The diagnostic for the operator.
    pub fn diagnostic(&self) -> (line: String)
        ensures
            line@ == "Path is not a directory"@,
    {
        String::from_str("Path is not a directory")
    }
}

/// A listing that is being collected: the records built so far and the
/// entries that failed so far, each in the order in which the entries were
/// read.
#[derive(Debug)]
pub struct Listing {
    pub records: Vec<EntryRecord>,
    pub failures: Vec<StatFailed>,
}

/// What a finished listing shows: the lines for the output stream and the
/// diagnostics for the error stream.
#[derive(Debug)]
pub struct Presentation {
    pub lines: Vec<String>,
    pub diagnostics: Vec<String>,
}

/// The paths that failures carry, in order.
pub open spec fn paths_of(failures: Seq<StatFailed>) -> Seq<Seq<char>> {
    failures.map_values(|failure: StatFailed| failure.path@)
}

/// The diagnostic lines for the entries at `paths`, in order.
pub open spec fn diagnostics_of(paths: Seq<Seq<char>>) -> Seq<Seq<char>> {
    paths.map_values(|path: Seq<char>| "Could not read metadata for: "@ + path)
}

/// What was found for one entry of the directory: its name, the path by
/// which its metadata was read, and the snapshot, or none where the read
/// failed.
#[derive(Debug)]
pub struct EntryRead {
    pub name: String,
    pub source_path: String,
    pub snapshot: Option<MetadataSnapshot>,
}

/// Whether a record can be built from what was found.
pub open spec fn is_readable(read: EntryRead) -> bool {
    read.snapshot is Some && valid_entry_name(read.name@)
}

/// The entries from which a record can be built, in order.
pub open spec fn readable_reads(reads: Seq<EntryRead>) -> Seq<EntryRead> {
    reads.filter(|read: EntryRead| is_readable(read))
}

/// The entries from which no record can be built, in order.
pub open spec fn failed_reads(reads: Seq<EntryRead>) -> Seq<EntryRead> {
    reads.filter(|read: EntryRead| !is_readable(read))
}

/// The paths of entries, in order.
pub open spec fn read_paths(reads: Seq<EntryRead>) -> Seq<Seq<char>> {
    reads.map_values(|read: EntryRead| read.source_path@)
}

/// Whether `records` are the records of the readable entries among `reads`,
/// one for each and in the same order.
pub open spec fn are_records_of(records: Seq<EntryRecord>, reads: Seq<EntryRead>) -> bool {
    &&& records.len() == readable_reads(reads).len()
    &&& forall|i: int|
        0 <= i < records.len() ==> is_record_of(
            #[trigger] records[i]@,
            readable_reads(reads)[i].name@,
            readable_reads(reads)[i].source_path@,
            readable_reads(reads)[i].snapshot->0,
        )
}

/// Whether `lines` shows `entries` after `options` at the present moment
/// `now`: in the long format one long line for each listed record, in order;
/// else one line that holds the compact listing.
pub open spec fn shows(
    lines: Seq<String>,
    entries: Seq<EntryRecord>,
    options: Options,
    now: int,
) -> bool {
    if options.long_format {
        &&& lines.len() == visible_entries(entries, options.all).len()
        &&& forall|i: int|
            0 <= i < lines.len() ==> is_long_line_of(
                #[trigger] lines[i]@,
                visible_entries(entries, options.all)[i]@,
                options.author,
                options.human,
                now,
            )
    } else {
        lines.len() == 1 && lines[0]@ == compact_text(entries, options.all)
    }
}

impl Listing {
    /// Opening: a listing starts empty where the target is a directory that
    /// could be opened, and fails for good where it is not.
    pub fn open(is_directory: bool) -> (opened: Result<Listing, OpenFailed>)
        ensures
            opened is Ok <==> is_directory,
            opened matches Ok(listing) ==> listing.records@.len() == 0 && listing.failures@.len()
                == 0,
    {
        if is_directory {
            Ok(Listing { records: Vec::new(), failures: Vec::new() })
        } else {
            Err(OpenFailed)
        }
    }

    /// Collecting: takes in what one entry gave, a record or a failure. A
    /// failure is kept for its diagnostic and does not stop the listing.
    pub fn collect(&mut self, built: Result<EntryRecord, StatFailed>)
        ensures
            built matches Ok(record) ==> final(self).records@ == old(self).records@.push(record)
                && final(self).failures@ == old(self).failures@,
            built matches Err(failure) ==> final(self).records@ == old(self).records@
                && final(self).failures@ == old(self).failures@.push(failure),
    {
        match built {
            Ok(record) => {
                self.records.push(record);
            },
            Err(failure) => {
                self.failures.push(failure);
            },
        }
    }

    /// Presenting: orders the records by `key` and the reversal flag, leaves
    /// out the hidden ones, renders the rest, and turns each failure into its
    /// diagnostic. `now` is the present moment, for the time column.
    pub fn present(self, options: &Options, key: SortKey, now: Timestamp) -> (shown: Presentation)
        ensures
            shows(shown.lines@, ordering(self.records@, key, options.reverse), *options, now@),
            texts(shown.diagnostics@) == diagnostics_of(paths_of(self.failures@)),
    {
        let Listing { records, failures } = self;
        let sorted = sort_entries(records, key, options.reverse);
        let lines = render(&sorted, options, now);
        let mut diagnostics: Vec<String> = Vec::new();
        let mut done: usize = 0;
        while done < failures.len()
            invariant
                done <= failures.len(),
                texts(diagnostics@) == diagnostics_of(paths_of(failures@.take(done as int))),
            decreases failures.len() - done,
        {
            let ghost before = diagnostics@;
            diagnostics.push(failures[done].diagnostic());
            assert(failures@.take(done + 1) == failures@.take(done as int).push(
                failures@[done as int],
            ));
            assert(texts(diagnostics@) == texts(before).push(diagnostics@.last()@));
            done = done + 1;
        }
        assert(failures@.take(done as int) == failures@);
        Presentation { lines, diagnostics }
    }
}

/// Collects a listing from what was found for each entry of a directory:
/// a record for each readable entry and a failure for each other one, both in
/// the order of the entries.
pub fn collect_all(reads: &Vec<EntryRead>) -> (listing: Listing)
    ensures
        are_records_of(listing.records@, reads@),
        paths_of(listing.failures@) == read_paths(failed_reads(reads@)),
{
    let mut listing = Listing { records: Vec::new(), failures: Vec::new() };
    let mut done: usize = 0;
    proof {
        reads@.take(0).lemma_filter_len(|read: EntryRead| is_readable(read));
        reads@.take(0).lemma_filter_len(|read: EntryRead| !is_readable(read));
        assert(paths_of(listing.failures@) == read_paths(failed_reads(reads@.take(0))));
    }
    while done < reads.len()
        invariant
            done <= reads.len(),
            are_records_of(listing.records@, reads@.take(done as int)),
            paths_of(listing.failures@) == read_paths(failed_reads(reads@.take(done as int))),
        decreases reads.len() - done,
    {
        let read = &reads[done];
        let ghost seen = reads@.take(done as int);
        let ghost records = listing.records@;
        let ghost failures = listing.failures@;
        proof {
            assert(reads@.take(done + 1) == seen.push(*read));
            seen.lemma_filter_push(*read, |read: EntryRead| is_readable(read));
            seen.lemma_filter_push(*read, |read: EntryRead| !is_readable(read));
        }
        let built = build_file_data(read.name.as_str(), read.source_path.as_str(), read.snapshot);
        listing.collect(built);
        proof {
            if is_readable(*read) {
                assert forall|i: int| 0 <= i < listing.records@.len() implies is_record_of(
                    #[trigger] listing.records@[i]@,
                    readable_reads(seen.push(*read))[i].name@,
                    readable_reads(seen.push(*read))[i].source_path@,
                    readable_reads(seen.push(*read))[i].snapshot->0,
                ) by {
                    if i < records.len() {
                        assert(listing.records@[i] == records[i]);
                        assert(readable_reads(seen.push(*read))[i] == readable_reads(seen)[i]);
                    }
                }
            } else {
                assert(paths_of(listing.failures@) == paths_of(failures).push(read.source_path@));
                assert(read_paths(failed_reads(seen).push(*read)) == read_paths(
                    failed_reads(seen),
                ).push(read.source_path@));
            }
        }
        done = done + 1;
    }
    assert(reads@.take(done as int) == reads@);
    listing
}

/// Lists a directory from what was found in it: `opened` is none where the
/// target is not a directory or could not be opened, and then nothing is
/// listed. Else each readable entry is shown in its place and each other
/// entry gets one diagnostic; an unreadable entry never stops the listing.
/// `now` is the present moment, for the time column.
pub fn list(
    opened: Option<&Vec<EntryRead>>,
    options: &Options,
    key: SortKey,
    now: Timestamp,
) -> (listed: Result<Presentation, OpenFailed>)
    ensures
        listed is Ok <==> opened is Some,
        listed matches Ok(shown) ==> texts(shown.diagnostics@) == diagnostics_of(
            read_paths(failed_reads(opened->0@)),
        ) && exists|records: Seq<EntryRecord>| #[trigger]
            are_records_of(records, opened->0@) && shows(
                shown.lines@,
                ordering(records, key, options.reverse),
                *options,
                now@,
            ),
{
    match opened {
        Some(reads) => {
            let listing = collect_all(reads);
            let ghost records = listing.records@;
            let shown = listing.present(options, key, now);
            assert(are_records_of(records, reads@) && shows(
                shown.lines@,
                ordering(records, key, options.reverse),
                *options,
                now@,
            ));
            Ok(shown)
        },
        None => Err(OpenFailed),
    }
}

} // verus!
