//! A whole run: from what was read of the file system to the lines that are
//! printed and the status with which the program ends.

use vstd::prelude::*;

use crate::clock::{format_modified, has_calendar_time, is_minute_text};
use crate::collector::{
    collect_with, empty_report, fits, gather, lemma_collect_repeatable, outline, stamp_at,
    stamped, stamps_of, stamps_view, Report, ReportView,
};
use crate::config::Config;
use crate::diagnostic::{log_view, DiagnosticView};
use crate::entry::{listing_view, Entry, EntryView};
use crate::order::lemma_arranged_by_size;
use crate::record::RecordView;
use crate::render::{lines_view, render, rendered};
use crate::single::{collect_file_with, file_report, probe_view, Probe};

verus! {

/// What was read of the file system for a run.
#[derive(Debug, PartialEq, Eq)]
pub enum Snapshot {
    /// The entries of the root, in listing order.
    Root(Vec<Entry>),
    /// The single file that was asked for: its name, and its metadata or
    /// why that could not be read.
    File { name: String, probe: Result<Probe, String> },
    /// Nothing was asked for.
    Nothing,
}

/// The mathematical content of a [`Snapshot`].
pub ghost enum SnapshotView {
    Root(Seq<EntryView>),
    File { name: Seq<char>, probe: Result<Probe, Seq<char>> },
    Nothing,
}

impl View for Snapshot {
    type V = SnapshotView;

    open spec fn view(&self) -> SnapshotView {
        match self {
            Snapshot::Root(listing) => SnapshotView::Root(listing_view(listing@)),
            Snapshot::File { name, probe } => SnapshotView::File {
                name: name@,
                probe: probe_view(*probe),
            },
            Snapshot::Nothing => SnapshotView::Nothing,
        }
    }
}

/// What a run leaves behind: the lines it prints, in order and without
/// line breaks, and the status with which the program ends.
#[derive(Clone, Debug, PartialEq, Eq)]
pub struct Outcome {
    pub lines: Vec<String>,
    pub exit_code: i32,
}

/// The mathematical content of an [`Outcome`].
pub ghost struct OutcomeView {
    pub lines: Seq<Seq<char>>,
    pub exit_code: int,
}

impl View for Outcome {
    type V = OutcomeView;

    open spec fn view(&self) -> OutcomeView {
        OutcomeView { lines: lines_view(self.lines@), exit_code: self.exit_code as int }
    }
}

/// The lines of a run that ends well: the diagnostics in the order in which
/// the failures were met, then the table.
pub open spec fn shown(report: ReportView, clean: bool, reverse: bool) -> Seq<Seq<char>> {
    report.log.map_values(|d: DiagnosticView| d.text()) + rendered(
        report.records,
        clean,
        reverse,
    )
}

/// The outcome of a run on `snapshot` under `config`, where `stamps` holds
/// the texts of the modification times: one for each entry of a root, or
/// the one of the single file.
///
/// A run on a root or on nothing ends with status zero whatever failed on
/// the way. A run on a single file that could not be read or is a directory
/// prints the failure alone and ends with status one. There is no outcome
/// where a total does not fit in 64 bits.
pub open spec fn outcome(
    snapshot: SnapshotView,
    config: Config,
    stamps: Seq<Option<Seq<char>>>,
) -> Option<OutcomeView> {
    match snapshot {
        SnapshotView::Root(listing) => {
            let report = gather(listing, listing.len(), config.max_depth as nat, stamps);
            if fits(report) {
                Some(
                    OutcomeView {
                        lines: shown(report, config.clean, config.reverse),
                        exit_code: 0,
                    },
                )
            } else {
                None
            }
        },
        SnapshotView::File { name, probe } => match file_report(name, probe, stamp_at(stamps, 0)) {
            Ok(report) => Some(
                OutcomeView { lines: shown(report, config.clean, config.reverse), exit_code: 0 },
            ),
            Err(e) => Some(OutcomeView { lines: seq![e.text()], exit_code: 1 }),
        },
        SnapshotView::Nothing => Some(
            OutcomeView {
                lines: rendered(Seq::<RecordView>::empty(), config.clean, config.reverse),
                exit_code: 0,
            },
        ),
    }
}

/// Whether `stamps` holds the texts that a run on `snapshot` writes: for a
/// root one for each entry, as `stamped` says; for a single file whose
/// metadata was read the one text of its time, if that lies within the
/// calendar; each text in the shape of a date and a time.
pub open spec fn stamped_for(snapshot: SnapshotView, stamps: Seq<Option<Seq<char>>>) -> bool {
    match snapshot {
        SnapshotView::Root(listing) => stamped(listing, stamps),
        SnapshotView::File { name, probe } => match probe {
            Ok(p) => {
                &&& stamps.len() == 1
                &&& stamps[0] is Some <==> has_calendar_time(
                    p.stat.modified.secs,
                    p.stat.modified.nanos,
                )
                &&& stamps[0] is Some ==> is_minute_text(stamps[0]->Some_0)
            },
            Err(_) => stamps.len() == 0,
        },
        SnapshotView::Nothing => stamps.len() == 0,
    }
}

/// Two runs on one unchanged snapshot under one configuration both have an
/// outcome or both have none; they end with the same status and print the
/// same number of lines. Where the texts of the times are the same too,
/// the two outcomes are identical.
pub proof fn lemma_run_repeatable(
    snapshot: SnapshotView,
    config: Config,
    first: Seq<Option<Seq<char>>>,
    second: Seq<Option<Seq<char>>>,
)
    requires
        stamped_for(snapshot, first),
        stamped_for(snapshot, second),
    ensures
        outcome(snapshot, config, first) is Some <==> outcome(snapshot, config, second) is Some,
        outcome(snapshot, config, first) is Some ==> {
            &&& outcome(snapshot, config, first)->Some_0.exit_code == outcome(
                snapshot,
                config,
                second,
            )->Some_0.exit_code
            &&& outcome(snapshot, config, first)->Some_0.lines.len() == outcome(
                snapshot,
                config,
                second,
            )->Some_0.lines.len()
        },
        first == second ==> outcome(snapshot, config, first) == outcome(snapshot, config, second),
{
    match snapshot {
        SnapshotView::Root(listing) => {
            lemma_collect_repeatable(listing, config.max_depth as nat, first, second);
            let a = gather(listing, listing.len(), config.max_depth as nat, first);
            let b = gather(listing, listing.len(), config.max_depth as nat, second);
            assert(a.records.len() == outline(a.records).len());
            lemma_arranged_by_size(a.records, config.reverse);
            lemma_arranged_by_size(b.records, config.reverse);
        },
        SnapshotView::File { name, probe } => {
            let a = file_report(name, probe, stamp_at(first, 0));
            let b = file_report(name, probe, stamp_at(second, 0));
            if a is Ok {
                lemma_arranged_by_size(a->Ok_0.records, config.reverse);
                lemma_arranged_by_size(b->Ok_0.records, config.reverse);
            }
        },
        SnapshotView::Nothing => {},
    }
}

/// Writes the lines of a run that ends well.
fn show(report: Report, clean: bool, reverse: bool) -> (lines: Vec<String>)
    ensures
        lines_view(lines@) == shown(report@, clean, reverse),
{
    let Report { records, diagnostics } = report;
    let ghost log = log_view(diagnostics@);
    let mut lines: Vec<String> = Vec::new();
    let mut i: usize = 0;
    while i < diagnostics.len()
        invariant
            log == log_view(diagnostics@),
            i <= diagnostics.len(),
            lines_view(lines@) == log.take(i as int).map_values(|d: DiagnosticView| d.text()),
        decreases diagnostics.len() - i,
    {
        let line = diagnostics[i].message();
        let ghost before = lines@;
        lines.push(line);
        i += 1;
        assert(lines_view(before.push(line)) =~= lines_view(before).push(line@));
    }
    assert(log.take(diagnostics@.len() as int) =~= log);
    let mut table = render(records, clean, reverse);
    lines.append(&mut table);
    lines
}

/// Makes the outcome of a run on `snapshot` under `config`, where `stamps`
/// holds the texts of the modification times.
pub fn run_with(snapshot: &Snapshot, config: &Config, stamps: &Vec<Option<String>>) -> (out:
    Option<Outcome>)
    ensures
        match outcome(snapshot@, *config, stamps_view(stamps@)) {
            Some(ideal) => out is Some && out->Some_0@ == ideal,
            None => out is None,
        },
{
    match snapshot {
        Snapshot::Root(listing) => match collect_with(listing, config.max_depth, stamps) {
            Some(report) => Some(
                Outcome { lines: show(report, config.clean, config.reverse), exit_code: 0 },
            ),
            None => None,
        },
        Snapshot::File { name, probe } => {
            let missing: Option<String> = None;
            let stamp = if stamps.len() > 0 {
                &stamps[0]
            } else {
                &missing
            };
            match collect_file_with(name, probe, stamp) {
                Ok(report) => Some(
                    Outcome { lines: show(report, config.clean, config.reverse), exit_code: 0 },
                ),
                Err(e) => {
                    let mut lines: Vec<String> = Vec::new();
                    lines.push(e.message());
                    assert(lines_view(lines@) =~= seq![e@.text()]);
                    Some(Outcome { lines, exit_code: 1 })
                },
            }
        },
        Snapshot::Nothing => Some(
            Outcome { lines: show(empty_report(), config.clean, config.reverse), exit_code: 0 },
        ),
    }
}

/// Writes the modification times that a run on `snapshot` shows, as texts
/// in the local time zone.
pub fn stamps_for(snapshot: &Snapshot) -> (stamps: Vec<Option<String>>)
    ensures
        stamped_for(snapshot@, stamps_view(stamps@)),
{
    match snapshot {
        Snapshot::Root(listing) => stamps_of(listing),
        Snapshot::File { name, probe } => match probe {
            Ok(p) => {
                let mut stamps: Vec<Option<String>> = Vec::new();
                stamps.push(format_modified(p.stat.modified));
                stamps
            },
            Err(_) => Vec::new(),
        },
        Snapshot::Nothing => Vec::new(),
    }
}

/// Makes the outcome of a run on `snapshot` under `config`, with each
/// modification time written in the local time zone.
///
/// The outcome is that of [`outcome`] for texts that are `stamped_for` the
/// snapshot: whether there is an outcome, its status, its diagnostics and
/// the names and sizes in its table are fixed by the snapshot and the
/// configuration; only what the texts of the times say is not.
pub fn run(snapshot: &Snapshot, config: &Config) -> (out: Option<Outcome>)
    ensures
        exists|stamps: Seq<Option<Seq<char>>>|
            #[trigger] stamped_for(snapshot@, stamps) && match outcome(
                snapshot@,
                *config,
                stamps,
            ) {
                Some(ideal) => out is Some && out->Some_0@ == ideal,
                None => out is None,
            },
{
    let stamps = stamps_for(snapshot);
    run_with(snapshot, config, &stamps)
}

} // verus!
