//! A run on a single file: one record, or the failure that ends the run.

use vstd::prelude::*;
use vstd::string::*;

use crate::clock::{
    format_modified, has_calendar_time, is_minute_text, time_error, time_error_text,
};
use crate::collector::{stamp_view, Report, ReportView};
use crate::diagnostic::silent;
use crate::entry::Stat;
use crate::record::{AggregateRecord, RecordView};

verus! {

/// What the metadata of the single file that was asked for holds.
#[derive(Clone, Copy, Debug, PartialEq, Eq, Structural)]
pub struct Probe {
    /// Whether the target is a directory.
    pub is_dir: bool,
    pub stat: Stat,
}

/// Why there is no record of the single file that was asked for. Each of
/// these ends the run.
#[derive(Clone, Debug, PartialEq, Eq)]
pub enum FileError {
    /// The target could not be examined; the text is that of the failure.
    Unreadable { error: String },
    /// The target is a directory.
    NotAFile { name: String },
}

/// The mathematical content of a [`FileError`].
pub ghost enum FileErrorView {
    Unreadable { error: Seq<char> },
    NotAFile { name: Seq<char> },
}

impl FileErrorView {
    /// The line that reports the failure.
    pub open spec fn text(self) -> Seq<char> {
        match self {
            FileErrorView::Unreadable { error } => "An error occured when handling this file: "@
                + error,
            FileErrorView::NotAFile { name } => "Argument "@ + name
                + " is not a file, consider using -r instead"@,
        }
    }
}

impl View for FileError {
    type V = FileErrorView;

    open spec fn view(&self) -> FileErrorView {
        match self {
            FileError::Unreadable { error } => FileErrorView::Unreadable { error: error@ },
            FileError::NotAFile { name } => FileErrorView::NotAFile { name: name@ },
        }
    }
}

impl FileError {
    /// The line that reports the failure, without a line break.
    pub fn message(&self) -> (line: String)
        ensures
            line@ == self@.text(),
    {
        match self {
            FileError::Unreadable { error } => {
                let mut line = String::from_str("An error occured when handling this file: ");
                line.append(error.as_str());
                line
            },
            FileError::NotAFile { name } => {
                let mut line = String::from_str("Argument ");
                line.append(name.as_str());
                line.append(" is not a file, consider using -r instead");
                line
            },
        }
    }
}

/// The contents of the outcome of the metadata read of the single file.
pub open spec fn probe_view(probe: Result<Probe, String>) -> Result<Probe, Seq<char>> {
    match probe {
        Ok(p) => Ok(p),
        Err(e) => Err(e@),
    }
}

/// The contents of the outcome of a run on a single file.
pub open spec fn result_view(out: Result<Report, FileError>) -> Result<ReportView, FileErrorView> {
    match out {
        Ok(report) => Ok(report@),
        Err(e) => Err(e@),
    }
}

/// The report of the single file `name`, where `probe` is the outcome of
/// reading its metadata and `stamp` the text of its modification time.
///
/// A failed read and a directory end the run, and so does a time that has
/// no text. Otherwise the report holds exactly one record, of the file's
/// own size, and no diagnostic.
pub open spec fn file_report(
    name: Seq<char>,
    probe: Result<Probe, Seq<char>>,
    stamp: Option<Seq<char>>,
) -> Result<ReportView, FileErrorView> {
    match probe {
        Err(error) => Err(FileErrorView::Unreadable { error }),
        Ok(p) => if p.is_dir {
            Err(FileErrorView::NotAFile { name })
        } else {
            match stamp {
                Some(text) => Ok(
                    ReportView {
                        records: seq![
                            RecordView { name, modified: text, total_size: p.stat.size as nat },
                        ],
                        log: Seq::empty(),
                    },
                ),
                None => Err(FileErrorView::Unreadable { error: time_error() }),
            }
        },
    }
}

/// Makes the report of the single file `name`, where `probe` is the
/// outcome of reading its metadata and `stamp` the text of its
/// modification time.
pub fn collect_file_with(name: &String, probe: &Result<Probe, String>, stamp: &Option<String>) -> (out:
    Result<Report, FileError>)
    ensures
        result_view(out) == file_report(name@, probe_view(*probe), stamp_view(*stamp)),
{
    match probe {
        Err(error) => Err(FileError::Unreadable { error: error.clone() }),
        Ok(p) => {
            if p.is_dir {
                Err(FileError::NotAFile { name: name.clone() })
            } else {
                match stamp {
                    Some(text) => {
                        let record = AggregateRecord {
                            name: name.clone(),
                            modified: text.clone(),
                            total_size: p.stat.size,
                        };
                        let mut records = Vec::new();
                        records.push(record);
                        let report = Report { records, diagnostics: silent() };
                        assert(report@.records =~= seq![record@]);
                        Ok(report)
                    },
                    None => Err(FileError::Unreadable { error: time_error_text() }),
                }
            }
        },
    }
}

/// Makes the report of the single file `name`, where `probe` is the
/// outcome of reading its metadata, with the modification time written in
/// the local time zone.
///
/// The outcome is that of [`file_report`] for a text that exists exactly
/// where the file's time lies within the calendar; what the text says
/// depends on the time zone of the machine.
pub fn collect_file(name: &String, probe: &Result<Probe, String>) -> (out: Result<
    Report,
    FileError,
>)
    ensures
        exists|stamp: Option<Seq<char>>|
            result_view(out) == #[trigger] file_report(name@, probe_view(*probe), stamp) && (
            probe matches Ok(p) ==> (stamp is Some <==> has_calendar_time(
                p.stat.modified.secs,
                p.stat.modified.nanos,
            ))) && (stamp matches Some(text) ==> is_minute_text(text)),
{
    let stamp = match probe {
        Ok(p) => format_modified(p.stat.modified),
        Err(_) => None,
    };
    collect_file_with(name, probe, &stamp)
}

} // verus!
