//! The unit of output: one line of the table.

use vstd::prelude::*;

verus! {

/// The aggregate of one entry directly under the root, or of the single
/// file that was asked for.
#[derive(Clone, Debug, PartialEq, Eq)]
pub struct AggregateRecord {
    pub name: String,
    /// The modification time as text in the local time zone.
    pub modified: String,
    /// The bytes attributed to the entry.
    pub total_size: u64,
}

/// The mathematical content of an [`AggregateRecord`].
pub ghost struct RecordView {
    pub name: Seq<char>,
    pub modified: Seq<char>,
    pub total_size: nat,
}

impl View for AggregateRecord {
    type V = RecordView;

    open spec fn view(&self) -> RecordView {
        RecordView {
            name: self.name@,
            modified: self.modified@,
            total_size: self.total_size as nat,
        }
    }
}

/// The contents of a list of records, in order.
pub open spec fn records_view(records: Seq<AggregateRecord>) -> Seq<RecordView> {
    records.map_values(|r: AggregateRecord| r@)
}

} // verus!
