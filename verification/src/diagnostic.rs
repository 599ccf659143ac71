//! The warnings that a run collects instead of stopping.

use vstd::prelude::*;
use vstd::string::*;

verus! {

/// A failure that was stepped over: the run goes on and the entry named
/// here adds nothing to the result.
#[derive(Clone, Debug, PartialEq, Eq)]
pub enum Diagnostic {
    /// A directory below a measured one could not be aggregated; it counts
    /// as zero bytes in its parent.
    ChildFailed { name: String, error: String },
    /// A directory directly under the root could not be aggregated; no
    /// record is made for it.
    DirectoryFailed { name: String, error: String },
    /// An entry directly under the root could not be examined; no record
    /// is made for it.
    EntrySkipped { name: String, error: String },
}

/// The mathematical content of a [`Diagnostic`].
pub ghost enum DiagnosticView {
    ChildFailed { name: Seq<char>, error: Seq<char> },
    DirectoryFailed { name: Seq<char>, error: Seq<char> },
    EntrySkipped { name: Seq<char>, error: Seq<char> },
}

impl DiagnosticView {
    /// The line that reports this diagnostic.
    pub open spec fn text(self) -> Seq<char> {
        match self {
            DiagnosticView::ChildFailed { name, error } => "Faulty when handling directory "@
                + name + ": "@ + error + ", continuing..."@,
            DiagnosticView::DirectoryFailed { name, error } =>
                "An error occured when proccessing directory "@ + name + ": "@ + error
                    + ", continuing..."@,
            DiagnosticView::EntrySkipped { name, error } => "Skipping "@ + name + ": "@ + error
                + ", continuing..."@,
        }
    }
}

impl View for Diagnostic {
    type V = DiagnosticView;

    open spec fn view(&self) -> DiagnosticView {
        match self {
            Diagnostic::ChildFailed { name, error } => DiagnosticView::ChildFailed {
                name: name@,
                error: error@,
            },
            Diagnostic::DirectoryFailed { name, error } => DiagnosticView::DirectoryFailed {
                name: name@,
                error: error@,
            },
            Diagnostic::EntrySkipped { name, error } => DiagnosticView::EntrySkipped {
                name: name@,
                error: error@,
            },
        }
    }
}

/// The contents of a list of diagnostics, in order.
pub open spec fn log_view(log: Seq<Diagnostic>) -> Seq<DiagnosticView> {
    log.map_values(|d: Diagnostic| d@)
}

/// Joins the five parts of a report line.
fn compose(head: &str, name: &String, error: &String) -> (line: String)
    ensures
        line@ == head@ + name@ + ": "@ + error@ + ", continuing..."@,
{
    let mut line = String::from_str(head);
    line.append(name.as_str());
    line.append(": ");
    line.append(error.as_str());
    line.append(", continuing...");
    line
}

impl Diagnostic {
    /// The line that reports this diagnostic, without a line break.
    pub fn message(&self) -> (line: String)
        ensures
            line@ == self@.text(),
    {
        match self {
            Diagnostic::ChildFailed { name, error } => compose(
                "Faulty when handling directory ",
                name,
                error,
            ),
            Diagnostic::DirectoryFailed { name, error } => compose(
                "An error occured when proccessing directory ",
                name,
                error,
            ),
            Diagnostic::EntrySkipped { name, error } => compose("Skipping ", name, error),
        }
    }
}

/// A list that holds one diagnostic.
pub(crate) fn single(d: Diagnostic) -> (log: Vec<Diagnostic>)
    ensures
        log_view(log@) == seq![d@],
{
    let mut log = Vec::new();
    log.push(d);
    log
}

/// A list that holds no diagnostic.
pub(crate) fn silent() -> (log: Vec<Diagnostic>)
    ensures
        log_view(log@) == Seq::<DiagnosticView>::empty(),
{
    Vec::new()
}

/// Adds one diagnostic at the end of a list.
pub(crate) fn note(log: &mut Vec<Diagnostic>, d: Diagnostic)
    ensures
        log_view(final(log)@) == log_view(old(log)@).push(d@),
{
    log.push(d);
}

} // verus!
