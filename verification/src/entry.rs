//! The snapshot of a directory tree that the walker measures.
//!
//! A snapshot holds, as plain values, what a walk over the file system
//! reads: names, sizes, modification times, and for every read that can
//! fail the text of the failure in place of the value.

use vstd::prelude::*;
use vstd::string::*;

verus! {

/// An instant as a file system reports it: seconds and nanoseconds since
/// the Unix epoch.
#[derive(Clone, Copy, Debug, PartialEq, Eq, Structural)]
pub struct Timestamp {
    pub secs: i64,
    pub nanos: u32,
}

/// A number of seconds held to the range of the machine.
pub open spec fn held(secs: int) -> int {
    if secs < i64::MIN {
        i64::MIN as int
    } else if secs > i64::MAX {
        i64::MAX as int
    } else {
        secs
    }
}

/// The nanoseconds from the epoch to the instant that lies `secs` seconds
/// and `nanos` nanoseconds before it: a negative number, or zero.
pub open spec fn nanos_before(secs: nat, nanos: nat) -> int {
    -(secs * 1_000_000_000 + nanos)
}

impl Timestamp {
    /// The instant that lies `secs` seconds and `nanos` nanoseconds after
    /// the epoch. Seconds beyond the range of the machine are held to it.
    pub fn after_epoch(secs: u64, nanos: u32) -> (at: Timestamp)
        ensures
            at.secs == held(secs as int),
            at.nanos == nanos,
    {
        if secs > i64::MAX as u64 {
            Timestamp { secs: i64::MAX, nanos }
        } else {
            Timestamp { secs: secs as i64, nanos }
        }
    }

    /// The instant that lies `secs` seconds and `nanos` nanoseconds before
    /// the epoch. The nanoseconds of an instant count forwards from a whole
    /// second, so a part of a second before the epoch belongs to the second
    /// before. Seconds beyond the range of the machine are held to it.
    pub fn before_epoch(secs: u64, nanos: u32) -> (at: Timestamp)
        ensures
            at.secs == held(nanos_before(secs as nat, nanos as nat) / 1_000_000_000),
            at.nanos == nanos_before(secs as nat, nanos as nat) % 1_000_000_000,
    {
        let whole: u64 = (nanos / 1_000_000_000) as u64;
        let part: u32 = nanos % 1_000_000_000;
        let sub: u32 = if part == 0 {
            0
        } else {
            1_000_000_000 - part
        };
        let borrow: u64 = if part == 0 {
            0
        } else {
            1
        };
        // the smallest second is one further from zero than the largest
        let limit: u64 = 9_223_372_036_854_775_808u64;
        if secs >= limit || secs + whole + borrow >= limit {
            Timestamp { secs: i64::MIN, nanos: sub }
        } else {
            let back: u64 = secs + whole + borrow;
            Timestamp { secs: -(back as i64), nanos: sub }
        }
    }
}

/// What the metadata of an entry holds for the walker.
#[derive(Clone, Copy, Debug, PartialEq, Eq, Structural)]
pub struct Stat {
    /// The size in bytes that the file system reports for the entry itself.
    pub size: u64,
    /// When the entry was last modified.
    pub modified: Timestamp,
}

/// Anything that is not a directory: a leaf whose size is its own.
#[derive(Clone, Debug, PartialEq, Eq)]
pub struct FileEntry {
    pub name: String,
    pub stat: Stat,
}

/// A directory with the outcome of the two reads that a walk makes of it.
#[derive(Debug, PartialEq, Eq)]
pub struct Directory {
    pub name: String,
    /// The directory's own metadata, or why it could not be read.
    pub stat: Result<Stat, String>,
    /// The directory's immediate children in listing order, or why the
    /// directory could not be listed.
    pub listing: Result<Vec<Entry>, String>,
}

/// One child of a listed directory.
#[derive(Debug, PartialEq, Eq)]
pub enum Entry {
    File(FileEntry),
    Directory(Directory),
    /// A child whose metadata could not be read, so that it is not even
    /// known whether it is a directory.
    Unreadable { name: String, error: String },
}

/// The mathematical content of a [`Directory`].
pub ghost struct DirectoryView {
    pub name: Seq<char>,
    pub stat: Result<Stat, Seq<char>>,
    pub listing: Result<Seq<EntryView>, Seq<char>>,
}

/// The mathematical content of an [`Entry`].
pub ghost enum EntryView {
    File { name: Seq<char>, stat: Stat },
    Directory(DirectoryView),
    Unreadable { name: Seq<char>, error: Seq<char> },
}

impl View for Directory {
    type V = DirectoryView;

    open spec fn view(&self) -> DirectoryView
        decreases self,
    {
        DirectoryView {
            name: self.name@,
            stat: match self.stat {
                Ok(s) => Ok(s),
                Err(e) => Err(e@),
            },
            listing: match self.listing {
                Ok(v) => Ok(first_views(v@, v@.len())),
                Err(e) => Err(e@),
            },
        }
    }
}

impl View for Entry {
    type V = EntryView;

    open spec fn view(&self) -> EntryView
        decreases self,
    {
        match self {
            Entry::File(f) => EntryView::File { name: f.name@, stat: f.stat },
            Entry::Directory(d) => EntryView::Directory(d.view()),
            Entry::Unreadable { name, error } => EntryView::Unreadable {
                name: name@,
                error: error@,
            },
        }
    }
}

/// The contents of the first `upto` children of a listing.
pub open spec fn first_views(listing: Seq<Entry>, upto: nat) -> Seq<EntryView>
    decreases listing, upto,
{
    if upto == 0 || upto > listing.len() {
        Seq::empty()
    } else {
        first_views(listing, (upto - 1) as nat).push(listing[upto - 1].view())
    }
}

/// The contents of a listing, child by child.
pub open spec fn listing_view(listing: Seq<Entry>) -> Seq<EntryView> {
    Seq::new(listing.len(), |i: int| listing[i]@)
}

impl EntryView {
    /// The modification time that the entry's metadata gave, if it was read.
    pub open spec fn modified(self) -> Option<Timestamp> {
        match self {
            EntryView::File { stat, .. } => Some(stat.modified),
            EntryView::Directory(d) => match d.stat {
                Ok(stat) => Some(stat.modified),
                Err(_) => None,
            },
            EntryView::Unreadable { .. } => None,
        }
    }
}

/// `first_views` goes child by child.
pub proof fn lemma_first_views(listing: Seq<Entry>, upto: nat)
    requires
        upto <= listing.len(),
    ensures
        first_views(listing, upto).len() == upto,
        forall|i: int| 0 <= i < upto ==> first_views(listing, upto)[i] == listing[i]@,
    decreases upto,
{
    if upto > 0 {
        lemma_first_views(listing, (upto - 1) as nat);
        assert(first_views(listing, upto) == first_views(listing, (upto - 1) as nat).push(
            listing[upto - 1]@,
        ));
    }
}

impl Directory {
    /// A directory that was not read, as one that lies beyond the depth
    /// ceiling need not be. A walk that does go into it fails.
    pub fn unread(name: String) -> (dir: Directory)
        ensures
            dir@.name == name@,
            dir@.stat is Err,
            dir@.listing is Err,
    {
        let dir = Directory {
            name,
            stat: Err(String::from_str("not read")),
            listing: Err(String::from_str("not read")),
        };
        dir
    }

    /// The view of a directory, field by field.
    pub proof fn lemma_view(&self)
        ensures
            self@.name == self.name@,
            self@.stat == match self.stat {
                Ok(s) => Ok::<Stat, Seq<char>>(s),
                Err(e) => Err(e@),
            },
            self@.listing == match self.listing {
                Ok(v) => Ok::<Seq<EntryView>, Seq<char>>(listing_view(v@)),
                Err(e) => Err(e@),
            },
    {
        if let Ok(v) = self.listing {
            lemma_first_views(v@, v@.len());
            assert(first_views(v@, v@.len()) =~= listing_view(v@));
        }
    }
}

} // verus!
