//! The collector: one record for each entry directly under the root.

use vstd::prelude::*;

use crate::clock::{
    format_modified, has_calendar_time, is_minute_text, time_error, time_error_text,
};
use crate::diagnostic::{log_view, note, silent, single, Diagnostic, DiagnosticView};
use crate::entry::{listing_view, Entry, EntryView, Timestamp};
use crate::record::{records_view, AggregateRecord, RecordView};
use crate::walker::{aggregate, walk, Walk, WalkError, WalkErrorView};

verus! {

/// What a run hands to the renderer: the records in listing order, and the
/// diagnostics in the order in which the failures were met.
#[derive(Clone, Debug, PartialEq, Eq)]
pub struct Report {
    pub records: Vec<AggregateRecord>,
    pub diagnostics: Vec<Diagnostic>,
}

/// The mathematical content of a [`Report`].
pub ghost struct ReportView {
    pub records: Seq<RecordView>,
    pub log: Seq<DiagnosticView>,
}

impl View for Report {
    type V = ReportView;

    open spec fn view(&self) -> ReportView {
        ReportView { records: records_view(self.records@), log: log_view(self.diagnostics@) }
    }
}

/// The contents of a text that may be missing.
pub open spec fn stamp_view(stamp: Option<String>) -> Option<Seq<char>> {
    match stamp {
        Some(text) => Some(text@),
        None => None,
    }
}

/// The texts of the modification times of a listing, entry by entry:
/// nothing where an entry has no time or its time has no text.
pub open spec fn stamps_view(stamps: Seq<Option<String>>) -> Seq<Option<Seq<char>>> {
    stamps.map_values(|s: Option<String>| stamp_view(s))
}

/// What one entry of the root adds to a report.
pub ghost struct PlacedView {
    pub record: Option<RecordView>,
    pub log: Seq<DiagnosticView>,
}

/// What the entry `entry` of the root adds, walked under the ceiling
/// `max_depth`, where `stamp` is the text of its modification time.
///
/// A file gives a record of its own size. A directory gives a record of
/// its walk from depth zero, after the diagnostics of that walk. An entry
/// that could not be read, a directory whose walk failed, and an entry
/// whose time has no text give a diagnostic and no record.
pub open spec fn place(entry: EntryView, max_depth: nat, stamp: Option<Seq<char>>) -> PlacedView {
    match entry {
        EntryView::Unreadable { name, error } => PlacedView {
            record: None,
            log: seq![DiagnosticView::EntrySkipped { name, error }],
        },
        EntryView::File { name, stat } => match stamp {
            Some(text) => PlacedView {
                record: Some(RecordView { name, modified: text, total_size: stat.size as nat }),
                log: Seq::empty(),
            },
            None => PlacedView {
                record: None,
                log: seq![DiagnosticView::EntrySkipped { name, error: time_error() }],
            },
        },
        EntryView::Directory(d) => {
            let w = walk(d, 0, max_depth);
            match w.result {
                Ok(m) => match stamp {
                    Some(text) => PlacedView {
                        record: Some(
                            RecordView { name: m.name, modified: text, total_size: m.total_size },
                        ),
                        log: w.log,
                    },
                    None => PlacedView {
                        record: None,
                        log: w.log.push(
                            DiagnosticView::DirectoryFailed { name: d.name, error: time_error() },
                        ),
                    },
                },
                Err(WalkErrorView::Unreadable(e)) => PlacedView {
                    record: None,
                    log: w.log.push(DiagnosticView::DirectoryFailed { name: d.name, error: e }),
                },
                Err(WalkErrorView::Overflow) => PlacedView { record: None, log: w.log },
            }
        },
    }
}

/// The text that `stamps` holds for the entry at `index`; nothing where
/// the list is too short.
pub open spec fn stamp_at(stamps: Seq<Option<Seq<char>>>, index: int) -> Option<Seq<char>> {
    if 0 <= index < stamps.len() {
        stamps[index]
    } else {
        None
    }
}

/// The report of the first `upto` entries of the root, with sizes as
/// unbounded numbers.
pub open spec fn gather(
    listing: Seq<EntryView>,
    upto: nat,
    max_depth: nat,
    stamps: Seq<Option<Seq<char>>>,
) -> ReportView
    decreases upto,
{
    if upto == 0 || upto > listing.len() {
        ReportView { records: Seq::empty(), log: Seq::empty() }
    } else {
        let before = gather(listing, (upto - 1) as nat, max_depth, stamps);
        let placed = place(listing[upto - 1], max_depth, stamp_at(stamps, upto - 1));
        ReportView {
            records: match placed.record {
                Some(r) => before.records.push(r),
                None => before.records,
            },
            log: before.log + placed.log,
        }
    }
}

/// Whether every total of a report fits in 64 bits.
pub open spec fn fits(report: ReportView) -> bool {
    forall|i: int| 0 <= i < report.records.len() ==> report.records[i].total_size <= u64::MAX
}

/// Whether `stamps` holds one entry for each entry of `listing`, with a
/// text exactly for the entries whose modification time was read and lies
/// within the calendar, each text in the shape of a date and a time.
pub open spec fn stamped(listing: Seq<EntryView>, stamps: Seq<Option<Seq<char>>>) -> bool {
    &&& stamps.len() == listing.len()
    &&& forall|i: int|
        0 <= i < listing.len() ==> (#[trigger] stamps[i] is Some <==> match listing[i].modified() {
            Some(at) => has_calendar_time(at.secs, at.nanos),
            None => false,
        })
    &&& forall|i: int|
        0 <= i < listing.len() && #[trigger] stamps[i] is Some ==> is_minute_text(
            stamps[i]->Some_0,
        )
}

/// What a collection returns for the report `ideal`: the report itself
/// where its totals fit in 64 bits, and nothing where one does not.
pub open spec fn delivered(ideal: ReportView, out: Option<Report>) -> bool {
    match out {
        Some(report) => fits(ideal) && report@ == ideal,
        None => !fits(ideal),
    }
}

/// The records of a longer prefix of the root begin with those of a
/// shorter one.
pub proof fn lemma_gather_grows(
    listing: Seq<EntryView>,
    from: nat,
    upto: nat,
    max_depth: nat,
    stamps: Seq<Option<Seq<char>>>,
)
    requires
        from <= upto <= listing.len(),
    ensures
        gather(listing, from, max_depth, stamps).records.len() <= gather(
            listing,
            upto,
            max_depth,
            stamps,
        ).records.len(),
        forall|i: int|
            0 <= i < gather(listing, from, max_depth, stamps).records.len() ==> gather(
                listing,
                upto,
                max_depth,
                stamps,
            ).records[i] == gather(listing, from, max_depth, stamps).records[i],
    decreases upto - from,
{
    if from < upto {
        lemma_gather_grows(listing, from, (upto - 1) as nat, max_depth, stamps);
    }
}

/// The records of a report without the texts of their times: each name
/// with its total.
pub open spec fn outline(records: Seq<RecordView>) -> Seq<(Seq<char>, nat)> {
    records.map_values(|r: RecordView| (r.name, r.total_size))
}

/// Two collections of a prefix of one root differ at most in the texts of
/// the times.
proof fn lemma_gather_repeatable(
    listing: Seq<EntryView>,
    upto: nat,
    max_depth: nat,
    first: Seq<Option<Seq<char>>>,
    second: Seq<Option<Seq<char>>>,
)
    requires
        upto <= listing.len(),
        stamped(listing, first),
        stamped(listing, second),
    ensures
        outline(gather(listing, upto, max_depth, first).records) == outline(
            gather(listing, upto, max_depth, second).records,
        ),
        gather(listing, upto, max_depth, first).log == gather(
            listing,
            upto,
            max_depth,
            second,
        ).log,
    decreases upto,
{
    if upto > 0 {
        lemma_gather_repeatable(listing, (upto - 1) as nat, max_depth, first, second);
        let before = gather(listing, (upto - 1) as nat, max_depth, first).records;
        let placed = place(listing[upto - 1], max_depth, stamp_at(first, upto - 1));
        if placed.record is Some {
            let r = placed.record->Some_0;
            assert(outline(before.push(r)) =~= outline(before).push((r.name, r.total_size)));
        }
    }
}

/// Collecting one unchanged root twice gives the same report but for the
/// texts of the times: the same entries have a record, in the same order,
/// with the same names and totals, and the diagnostics are the same.
/// Where the texts are the same too, the two reports are identical. Both
/// collections fit in 64 bits or neither does.
pub proof fn lemma_collect_repeatable(
    listing: Seq<EntryView>,
    max_depth: nat,
    first: Seq<Option<Seq<char>>>,
    second: Seq<Option<Seq<char>>>,
)
    requires
        stamped(listing, first),
        stamped(listing, second),
    ensures
        outline(gather(listing, listing.len(), max_depth, first).records) == outline(
            gather(listing, listing.len(), max_depth, second).records,
        ),
        gather(listing, listing.len(), max_depth, first).log == gather(
            listing,
            listing.len(),
            max_depth,
            second,
        ).log,
        fits(gather(listing, listing.len(), max_depth, first)) == fits(
            gather(listing, listing.len(), max_depth, second),
        ),
        first == second ==> gather(listing, listing.len(), max_depth, first) == gather(
            listing,
            listing.len(),
            max_depth,
            second,
        ),
{
    lemma_gather_repeatable(listing, listing.len(), max_depth, first, second);
    let a = gather(listing, listing.len(), max_depth, first);
    let b = gather(listing, listing.len(), max_depth, second);
    assert(a.records.len() == outline(a.records).len());
    assert forall|i: int| 0 <= i < a.records.len() implies a.records[i].total_size
        == b.records[i].total_size by {
        assert(outline(a.records)[i] == outline(b.records)[i]);
    }
}

/// What one entry of the root adds, as the machine holds it.
struct Placed {
    record: Option<AggregateRecord>,
    diagnostics: Vec<Diagnostic>,
}

/// Whether `out` holds what `ideal` says, or nothing because the total of
/// the record in `ideal` does not fit in 64 bits.
spec fn placed_as(ideal: PlacedView, out: Option<Placed>) -> bool {
    match out {
        Some(p) => {
            &&& log_view(p.diagnostics@) == ideal.log
            &&& match p.record {
                Some(r) => ideal.record == Some(r@),
                None => ideal.record is None,
            }
        },
        None => ideal.record is Some && ideal.record->Some_0.total_size > u64::MAX,
    }
}

/// Computes [`place`] for one entry of the root.
fn place_entry(entry: &Entry, max_depth: usize, stamp: &Option<String>) -> (out: Option<Placed>)
    ensures
        placed_as(place(entry@, max_depth as nat, stamp_view(*stamp)), out),
{
    match entry {
        Entry::Unreadable { name, error } => Some(
            Placed {
                record: None,
                diagnostics: single(
                    Diagnostic::EntrySkipped { name: name.clone(), error: error.clone() },
                ),
            },
        ),
        Entry::File(f) => match stamp {
            Some(text) => Some(
                Placed {
                    record: Some(
                        AggregateRecord {
                            name: f.name.clone(),
                            modified: text.clone(),
                            total_size: f.stat.size,
                        },
                    ),
                    diagnostics: silent(),
                },
            ),
            None => Some(
                Placed {
                    record: None,
                    diagnostics: single(
                        Diagnostic::EntrySkipped { name: f.name.clone(), error: time_error_text() },
                    ),
                },
            ),
        },
        Entry::Directory(d) => {
            let Walk { result, mut diagnostics } = aggregate(d, 0, max_depth);
            match result {
                Ok(m) => match stamp {
                    Some(text) => Some(
                        Placed {
                            record: Some(
                                AggregateRecord {
                                    name: m.name,
                                    modified: text.clone(),
                                    total_size: m.total_size,
                                },
                            ),
                            diagnostics,
                        },
                    ),
                    None => {
                        note(
                            &mut diagnostics,
                            Diagnostic::DirectoryFailed {
                                name: d.name.clone(),
                                error: time_error_text(),
                            },
                        );
                        Some(Placed { record: None, diagnostics })
                    },
                },
                Err(WalkError::Unreadable(e)) => {
                    note(
                        &mut diagnostics,
                        Diagnostic::DirectoryFailed { name: d.name.clone(), error: e },
                    );
                    Some(Placed { record: None, diagnostics })
                },
                Err(WalkError::Overflow) => match stamp {
                    Some(_) => None,
                    None => {
                        note(
                            &mut diagnostics,
                            Diagnostic::DirectoryFailed {
                                name: d.name.clone(),
                                error: time_error_text(),
                            },
                        );
                        Some(Placed { record: None, diagnostics })
                    },
                },
            }
        },
    }
}

/// Collects the report of the root whose entries are `listing`, walking
/// each directory under the ceiling `max_depth`, where `stamps` holds the
/// text of each entry's modification time (an entry beyond the end of
/// `stamps` has none).
///
/// Returns the report of [`gather`], or nothing where a total in it does
/// not fit in 64 bits.
pub fn collect_with(listing: &Vec<Entry>, max_depth: usize, stamps: &Vec<Option<String>>) -> (out:
    Option<Report>)
    ensures
        delivered(
            gather(
                listing_view(listing@),
                listing@.len(),
                max_depth as nat,
                stamps_view(stamps@),
            ),
            out,
        ),
{
    let ghost lv = listing_view(listing@);
    let ghost sv = stamps_view(stamps@);
    let missing: Option<String> = None;
    let mut records: Vec<AggregateRecord> = Vec::new();
    let mut log: Vec<Diagnostic> = Vec::new();
    let mut i: usize = 0;
    while i < listing.len()
        invariant
            lv == listing_view(listing@),
            sv == stamps_view(stamps@),
            missing is None,
            i <= listing.len(),
            records_view(records@) == gather(lv, i as nat, max_depth as nat, sv).records,
            log_view(log@) == gather(lv, i as nat, max_depth as nat, sv).log,
        decreases listing.len() - i,
    {
        let stamp = if i < stamps.len() {
            &stamps[i]
        } else {
            &missing
        };
        match place_entry(&listing[i], max_depth, stamp) {
            Some(Placed { record, mut diagnostics }) => {
                log.append(&mut diagnostics);
                if let Some(r) = record {
                    records.push(r);
                }
            },
            None => {
                proof {
                    // the record that does not fit stays in the report of the whole root
                    let before = gather(lv, i as nat, max_depth as nat, sv);
                    let next = gather(lv, (i + 1) as nat, max_depth as nat, sv);
                    let ideal = place(lv[i as int], max_depth as nat, stamp_at(sv, i as int));
                    assert(next.records[before.records.len() as int] == ideal.record->Some_0);
                    lemma_gather_grows(lv, (i + 1) as nat, lv.len(), max_depth as nat, sv);
                }
                return None;
            },
        }
        i += 1;
    }
    Some(Report { records, diagnostics: log })
}

/// The modification time that the metadata of `entry` gave, if it was
/// read.
pub fn modified_of(entry: &Entry) -> (at: Option<Timestamp>)
    ensures
        at == entry@.modified(),
{
    match entry {
        Entry::File(f) => Some(f.stat.modified),
        Entry::Directory(d) => {
            match &d.stat {
                Ok(stat) => Some(stat.modified),
                Err(_) => None,
            }
        },
        Entry::Unreadable { .. } => None,
    }
}

/// Writes the modification time of each entry of `listing` as text in the
/// local time zone.
///
/// The result is `stamped`: one entry for each entry of the listing, with
/// a text exactly where the entry has a time that lies within the
/// calendar. What the texts say depends on the time zone of the machine.
pub fn stamps_of(listing: &Vec<Entry>) -> (stamps: Vec<Option<String>>)
    ensures
        stamped(listing_view(listing@), stamps_view(stamps@)),
{
    let ghost lv = listing_view(listing@);
    let mut stamps: Vec<Option<String>> = Vec::new();
    let mut i: usize = 0;
    while i < listing.len()
        invariant
            lv == listing_view(listing@),
            i <= listing.len(),
            stamps@.len() == i,
            forall|k: int|
                0 <= k < i ==> (#[trigger] stamps@[k] is Some <==> match lv[k].modified() {
                    Some(at) => has_calendar_time(at.secs, at.nanos),
                    None => false,
                }),
            forall|k: int|
                0 <= k < i && #[trigger] stamps@[k] is Some ==> is_minute_text(
                    stamps@[k]->Some_0@,
                ),
        decreases listing.len() - i,
    {
        let stamp = match modified_of(&listing[i]) {
            Some(at) => format_modified(at),
            None => None,
        };
        stamps.push(stamp);
        i += 1;
    }
    stamps
}

/// Collects the report of the root whose entries are `listing`, walking
/// each directory under the ceiling `max_depth`, with each modification
/// time written in the local time zone.
///
/// The report is that of [`gather`] for some texts that are `stamped`:
/// which entries have a record, their names, their sizes and all the
/// diagnostics are fixed by the listing; only what the texts say is not.
/// Nothing is returned where a total does not fit in 64 bits.
pub fn collect(listing: &Vec<Entry>, max_depth: usize) -> (out: Option<Report>)
    ensures
        exists|stamps: Seq<Option<Seq<char>>>|
            #[trigger] stamped(listing_view(listing@), stamps) && delivered(
                gather(listing_view(listing@), listing@.len(), max_depth as nat, stamps),
                out,
            ),
{
    let stamps = stamps_of(listing);
    collect_with(listing, max_depth, &stamps)
}

/// The report of a run that was given nothing to look at.
pub fn empty_report() -> (report: Report)
    ensures
        report@.records == Seq::<RecordView>::empty(),
        report@.log == Seq::<DiagnosticView>::empty(),
{
    Report { records: Vec::new(), diagnostics: silent() }
}

} // verus!
