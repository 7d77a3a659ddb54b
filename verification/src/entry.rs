//! Directory entries: the instant an entry was modified, the metadata
//! snapshot read for it, and the immutable record that the listing shows.

use vstd::prelude::*;
use vstd::string::*;
use crate::text::contains_char;

verus! {

/// What kind of filesystem object an entry is.
#[derive(Clone, Copy, Debug, PartialEq, Eq, Structural)]
pub enum EntryKind {
    File,
    Directory,
    Other,
}

impl EntryKind {
    /// Whether this is the directory kind.
    pub fn is_directory(&self) -> (dir: bool)
        ensures
            dir == (*self is Directory),
    {
        match self {
            EntryKind::Directory => true,
            _ => false,
        }
    }
}

/// A point in time, held as whole seconds since the Unix epoch and the
/// nanoseconds past that second. Its view is the instant in nanoseconds since
/// the epoch, so that a later instant has a greater view.
#[derive(Clone, Copy, Debug)]
pub struct Timestamp {
    secs: i64,
    nanos: u32,
}

impl View for Timestamp {
    type V = int;

    closed spec fn view(&self) -> int {
        self.secs * 1_000_000_000 + self.nanos
    }
}

impl Timestamp {
    #[verifier::type_invariant]
    spec fn well_formed(self) -> bool {
        self.nanos < 1_000_000_000
    }

    /// The instant `nanos` nanoseconds after the whole second `secs`; none
    /// where `nanos` is a full second or more.
    pub fn new(secs: i64, nanos: u32) -> (made: Option<Timestamp>)
        ensures
            made is Some <==> nanos < 1_000_000_000,
            made matches Some(t) ==> t@ == secs * 1_000_000_000 + nanos,
    {
        if nanos < 1_000_000_000 {
            Some(Timestamp { secs, nanos })
        } else {
            None
        }
    }

    /// The instant `secs` seconds and `nanos` nanoseconds after the epoch;
    /// none where `nanos` is a full second or more, or `secs` is beyond the
    /// signed 64-bit range.
    pub fn since_epoch(secs: u64, nanos: u32) -> (made: Option<Timestamp>)
        ensures
            made is Some <==> nanos < 1_000_000_000 && secs <= i64::MAX,
            made matches Some(t) ==> t@ == secs * 1_000_000_000 + nanos,
    {
        if nanos < 1_000_000_000 && secs <= i64::MAX as u64 {
            Some(Timestamp { secs: secs as i64, nanos })
        } else {
            None
        }
    }

    /// The instant `secs` seconds and `nanos` nanoseconds before the epoch;
    /// none where `nanos` is a full second or more, or `secs` is beyond the
    /// signed 64-bit range.
    pub fn before_epoch(secs: u64, nanos: u32) -> (made: Option<Timestamp>)
        ensures
            made is Some <==> nanos < 1_000_000_000 && secs <= i64::MAX,
            made matches Some(t) ==> t@ == -(secs * 1_000_000_000 + nanos),
    {
        if nanos >= 1_000_000_000 || secs > i64::MAX as u64 {
            None
        } else if nanos == 0 {
            Some(Timestamp { secs: -(secs as i64), nanos: 0 })
        } else {
            Some(Timestamp { secs: -(secs as i64) - 1, nanos: 1_000_000_000 - nanos })
        }
    }

    /// The whole seconds since the epoch, rounded towards the past.
    pub fn secs(&self) -> (secs: i64)
        ensures
            secs == self@ / 1_000_000_000,
    {
        proof {
            use_type_invariant(self);
        }
        self.secs
    }

    /// The nanoseconds past the whole second.
    pub fn nanos(&self) -> (nanos: u32)
        ensures
            nanos == self@ % 1_000_000_000,
            nanos < 1_000_000_000,
    {
        proof {
            use_type_invariant(self);
        }
        self.nanos
    }

    /// Whether this instant is `other` or later.
    pub fn is_at_or_after(&self, other: &Timestamp) -> (later: bool)
        ensures
            later == (self@ >= other@),
    {
        proof {
            use_type_invariant(self);
            use_type_invariant(other);
        }
        self.secs > other.secs || (self.secs == other.secs && self.nanos >= other.nanos)
    }
}

/// The attributes of one entry as a single read of its metadata gave them.
#[derive(Clone, Copy, Debug)]
pub struct MetadataSnapshot {
    pub size: u64,
    pub mode: u32,
    pub kind: EntryKind,
    pub uid: u32,
    pub gid: u32,
    pub link_count: u64,
    pub modified: Timestamp,
}

/// An entry whose metadata could not be read; it carries the entry's path.
#[derive(Debug)]
pub struct StatFailed {
    pub path: String,
}

impl Clone for StatFailed {
    fn clone(&self) -> (copy: StatFailed)
        ensures
            copy.path@ == self.path@,
    {
        StatFailed { path: self.path.clone() }
    }
}

impl StatFailed {
    /// The diagnostic line that names the entry.
    pub fn diagnostic(&self) -> (line: String)
        ensures
            line@ == "Could not read metadata for: "@ + self.path@,
    {
        let mut line = String::from_str("Could not read metadata for: ");
        line.append(self.path.as_str());
        line
    }
}

/// Whether `name` can be the final component of a path: not empty, and free
/// of the path separator.
pub open spec fn valid_entry_name(name: Seq<char>) -> bool {
    name.len() > 0 && !name.contains('/')
}

/// Decides `valid_entry_name`.
pub fn is_valid_entry_name(name: &str) -> (valid: bool)
    ensures
        valid == valid_entry_name(name@),
{
    name.unicode_len() > 0 && !contains_char(name, '/')
}

/// What an entry record holds, as mathematical values.
pub struct EntryRecordView {
    pub name: Seq<char>,
    pub kind: EntryKind,
    pub size_bytes: nat,
    pub permission_bits: u32,
    pub owner_display: Seq<char>,
    pub group_display: Seq<char>,
    pub link_count: nat,
    pub modified_at: int,
    pub source_path: Seq<char>,
}

impl EntryRecordView {
    /// What holds of every record: the name is a final path component, and
    /// owner and group each have something to show.
    pub open spec fn well_formed(self) -> bool {
        &&& valid_entry_name(self.name)
        &&& self.owner_display.len() > 0
        &&& self.group_display.len() > 0
    }
}

/// The display state of one entry. All fields come from one metadata
/// snapshot and cannot be changed once the record is made.
#[derive(Debug)]
pub struct EntryRecord {
    name: String,
    kind: EntryKind,
    size_bytes: u64,
    permission_bits: u32,
    owner_display: String,
    group_display: String,
    link_count: u64,
    modified_at: Timestamp,
    source_path: String,
}

impl View for EntryRecord {
    type V = EntryRecordView;

    closed spec fn view(&self) -> EntryRecordView {
        EntryRecordView {
            name: self.name@,
            kind: self.kind,
            size_bytes: self.size_bytes as nat,
            permission_bits: self.permission_bits,
            owner_display: self.owner_display@,
            group_display: self.group_display@,
            link_count: self.link_count as nat,
            modified_at: self.modified_at@,
            source_path: self.source_path@,
        }
    }
}

impl Clone for EntryRecord {
    fn clone(&self) -> (copy: EntryRecord)
        ensures
            copy@ == self@,
    {
        proof {
            use_type_invariant(self);
        }
        EntryRecord {
            name: self.name.clone(),
            kind: self.kind,
            size_bytes: self.size_bytes,
            permission_bits: self.permission_bits,
            owner_display: self.owner_display.clone(),
            group_display: self.group_display.clone(),
            link_count: self.link_count,
            modified_at: self.modified_at,
            source_path: self.source_path.clone(),
        }
    }
}

impl EntryRecord {
    #[verifier::type_invariant]
    spec fn well_formed(self) -> bool {
        self@.well_formed()
    }

    /// Makes a record from parts that are known to be in order.
    pub(crate) fn assemble(
        name: String,
        kind: EntryKind,
        size_bytes: u64,
        permission_bits: u32,
        owner_display: String,
        group_display: String,
        link_count: u64,
        modified_at: Timestamp,
        source_path: String,
    ) -> (record: EntryRecord)
        requires
            valid_entry_name(name@),
            owner_display@.len() > 0,
            group_display@.len() > 0,
        ensures
            record@ == (EntryRecordView {
                name: name@,
                kind,
                size_bytes: size_bytes as nat,
                permission_bits,
                owner_display: owner_display@,
                group_display: group_display@,
                link_count: link_count as nat,
                modified_at: modified_at@,
                source_path: source_path@,
            }),
            record@.well_formed(),
    {
        EntryRecord {
            name,
            kind,
            size_bytes,
            permission_bits,
            owner_display,
            group_display,
            link_count,
            modified_at,
            source_path,
        }
    }

    /// Makes a record from its parts; none where the name is not a final
    /// path component or where owner or group is empty.
    pub fn new(
        name: String,
        kind: EntryKind,
        size_bytes: u64,
        permission_bits: u32,
        owner_display: String,
        group_display: String,
        link_count: u64,
        modified_at: Timestamp,
        source_path: String,
    ) -> (made: Option<EntryRecord>)
        ensures
            made is Some <==> valid_entry_name(name@) && owner_display@.len() > 0
                && group_display@.len() > 0,
            made matches Some(record) ==> record@ == (EntryRecordView {
                name: name@,
                kind,
                size_bytes: size_bytes as nat,
                permission_bits,
                owner_display: owner_display@,
                group_display: group_display@,
                link_count: link_count as nat,
                modified_at: modified_at@,
                source_path: source_path@,
            }) && record@.well_formed(),
    {
        if is_valid_entry_name(name.as_str()) && owner_display.as_str().unicode_len() > 0
            && group_display.as_str().unicode_len() > 0 {
            Some(
                EntryRecord::assemble(
                    name,
                    kind,
                    size_bytes,
                    permission_bits,
                    owner_display,
                    group_display,
                    link_count,
                    modified_at,
                    source_path,
                ),
            )
        } else {
            None
        }
    }

    /// The display name: the final path component.
    pub fn name(&self) -> (name: &str)
        ensures
            name@ == self@.name,
            valid_entry_name(name@),
    {
        proof {
            use_type_invariant(self);
        }
        self.name.as_str()
    }

    /// The kind of entry.
    pub fn kind(&self) -> (kind: EntryKind)
        ensures
            kind == self@.kind,
    {
        self.kind
    }

    /// The size in bytes.
    pub fn size_bytes(&self) -> (size: u64)
        ensures
            size == self@.size_bytes,
    {
        self.size_bytes
    }

    /// The mode bits as they were read.
    pub fn permission_bits(&self) -> (bits: u32)
        ensures
            bits == self@.permission_bits,
    {
        self.permission_bits
    }

    /// The owner, by name or by number; never empty.
    pub fn owner_display(&self) -> (owner: &str)
        ensures
            owner@ == self@.owner_display,
            owner@.len() > 0,
    {
        proof {
            use_type_invariant(self);
        }
        self.owner_display.as_str()
    }

    /// The group, by name or by number; never empty.
    pub fn group_display(&self) -> (group: &str)
        ensures
            group@ == self@.group_display,
            group@.len() > 0,
    {
        proof {
            use_type_invariant(self);
        }
        self.group_display.as_str()
    }

    /// The number of hard links.
    pub fn link_count(&self) -> (links: u64)
        ensures
            links == self@.link_count,
    {
        self.link_count
    }

    /// When the entry was last modified.
    pub fn modified_at(&self) -> (modified: Timestamp)
        ensures
            modified@ == self@.modified_at,
    {
        self.modified_at
    }

    /// The path by which the entry was read.
    pub fn source_path(&self) -> (path: &str)
        ensures
            path@ == self@.source_path,
    {
        self.source_path.as_str()
    }
}

} // verus!
