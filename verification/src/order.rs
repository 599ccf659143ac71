//! The order of the rows of the table.

use vstd::prelude::*;

use crate::record::{records_view, AggregateRecord, RecordView};

verus! {

/// `sorted` with `r` put in before the first record that is not smaller
/// than `r`, or at the end where every record is smaller.
pub open spec fn insert_before(sorted: Seq<RecordView>, r: RecordView) -> Seq<RecordView>
    decreases sorted.len(),
{
    if sorted.len() == 0 {
        seq![r]
    } else if r.total_size <= sorted[0].total_size {
        seq![r] + sorted
    } else {
        seq![sorted[0]] + insert_before(sorted.drop_first(), r)
    }
}

/// The records by size, smallest first; records of one size keep the
/// order in which they came.
pub open spec fn ascending(records: Seq<RecordView>) -> Seq<RecordView>
    decreases records.len(),
{
    if records.len() == 0 {
        Seq::empty()
    } else {
        insert_before(ascending(records.drop_first()), records[0])
    }
}

/// The rows of the table: largest first, or smallest first where
/// `reverse` is set. The one order is the other read backwards.
pub open spec fn arranged(records: Seq<RecordView>, reverse: bool) -> Seq<RecordView> {
    if reverse {
        ascending(records)
    } else {
        ascending(records).reverse()
    }
}

/// Whether the sizes never fall from one record to the next.
pub open spec fn non_decreasing(records: Seq<RecordView>) -> bool {
    forall|i: int, j: int|
        0 <= i <= j < records.len() ==> records[i].total_size <= records[j].total_size
}

/// Whether the sizes never rise from one record to the next.
pub open spec fn non_increasing(records: Seq<RecordView>) -> bool {
    forall|i: int, j: int|
        0 <= i <= j < records.len() ==> records[i].total_size >= records[j].total_size
}

/// Where `r` goes in `sorted`: `insert_before` puts it at the first
/// position whose record is not smaller.
proof fn lemma_insert_position(sorted: Seq<RecordView>, r: RecordView, at: int)
    requires
        0 <= at <= sorted.len(),
        forall|j: int| 0 <= j < at ==> sorted[j].total_size < r.total_size,
        at < sorted.len() ==> r.total_size <= sorted[at].total_size,
    ensures
        insert_before(sorted, r) == sorted.insert(at, r),
    decreases sorted.len(),
{
    if sorted.len() > 0 && at > 0 {
        lemma_insert_position(sorted.drop_first(), r, at - 1);
    }
}

/// The number of records at the front of `sorted` that are smaller than
/// `r`.
pub open spec fn smaller_before(sorted: Seq<RecordView>, r: RecordView) -> nat
    decreases sorted.len(),
{
    if sorted.len() == 0 || r.total_size <= sorted[0].total_size {
        0
    } else {
        1 + smaller_before(sorted.drop_first(), r)
    }
}

/// `smaller_before` is the position that `lemma_insert_position` asks for.
proof fn lemma_smaller_before(sorted: Seq<RecordView>, r: RecordView)
    ensures
        smaller_before(sorted, r) <= sorted.len(),
        forall|j: int| 0 <= j < smaller_before(sorted, r) ==> sorted[j].total_size < r.total_size,
        smaller_before(sorted, r) < sorted.len() ==> r.total_size <= sorted[smaller_before(
            sorted,
            r,
        ) as int].total_size,
    decreases sorted.len(),
{
    if sorted.len() > 0 && r.total_size > sorted[0].total_size {
        let rest = sorted.drop_first();
        lemma_smaller_before(rest, r);
        let at = smaller_before(rest, r) as int;
        assert forall|j: int| 0 <= j < at + 1 implies sorted[j].total_size < r.total_size by {
            if j > 0 {
                assert(sorted[j] == rest[j - 1]);
            }
        }
    }
}

/// Putting a record into an ascending list keeps it ascending, adds one
/// record and loses none.
proof fn lemma_insert_keeps_order(sorted: Seq<RecordView>, r: RecordView)
    requires
        non_decreasing(sorted),
    ensures
        non_decreasing(insert_before(sorted, r)),
        insert_before(sorted, r).len() == sorted.len() + 1,
        insert_before(sorted, r).to_multiset() == sorted.to_multiset().insert(r),
{
    let at = smaller_before(sorted, r) as int;
    lemma_smaller_before(sorted, r);
    lemma_insert_position(sorted, r, at);
    vstd::seq_lib::to_multiset_insert(sorted, at, r);
}

/// `ascending` sorts: the sizes never fall, and the records are those
/// that were given, each as often as it was given.
pub proof fn lemma_ascending_sorts(records: Seq<RecordView>)
    ensures
        non_decreasing(ascending(records)),
        ascending(records).len() == records.len(),
        ascending(records).to_multiset() == records.to_multiset(),
    decreases records.len(),
{
    if records.len() > 0 {
        let rest = records.drop_first();
        lemma_ascending_sorts(rest);
        lemma_insert_keeps_order(ascending(rest), records[0]);
        assert(records =~= rest.insert(0, records[0]));
        vstd::seq_lib::to_multiset_insert(rest, 0, records[0]);
    } else {
        assert(records =~= ascending(records));
    }
}

/// The rows come largest first, and smallest first where `reverse` is
/// set; either way they are the records that were given.
pub proof fn lemma_arranged_by_size(records: Seq<RecordView>, reverse: bool)
    ensures
        reverse ==> non_decreasing(arranged(records, reverse)),
        !reverse ==> non_increasing(arranged(records, reverse)),
        arranged(records, reverse).len() == records.len(),
        arranged(records, reverse).to_multiset() == records.to_multiset(),
{
    lemma_ascending_sorts(records);
    if !reverse {
        ascending(records).lemma_reverse_to_multiset();
    }
}

/// The records of `size` bytes among `records`, in the order in which they
/// stand there.
pub open spec fn of_size(records: Seq<RecordView>, size: nat) -> Seq<RecordView> {
    records.filter(|r: RecordView| r.total_size == size)
}

/// Where no record has `size` bytes, `of_size` finds none.
proof fn lemma_of_size_none(records: Seq<RecordView>, size: nat)
    requires
        forall|i: int| 0 <= i < records.len() ==> records[i].total_size != size,
    ensures
        of_size(records, size) == Seq::<RecordView>::empty(),
    decreases records.len(),
{
    reveal(Seq::filter);
    if records.len() > 0 {
        lemma_of_size_none(records.drop_last(), size);
    }
}

/// `of_size` of a single record.
proof fn lemma_of_size_one(r: RecordView, size: nat)
    ensures
        of_size(seq![r], size) == if r.total_size == size {
            seq![r]
        } else {
            Seq::<RecordView>::empty()
        },
{
    reveal(Seq::filter);
    lemma_of_size_none(seq![r].drop_last(), size);
}

/// A record put into an ascending list comes before the records of its own
/// size, and the others keep their order.
proof fn lemma_insert_is_stable(sorted: Seq<RecordView>, r: RecordView, size: nat)
    requires
        non_decreasing(sorted),
    ensures
        of_size(insert_before(sorted, r), size) == of_size(seq![r], size) + of_size(
            sorted,
            size,
        ),
{
    let at = smaller_before(sorted, r) as int;
    lemma_smaller_before(sorted, r);
    lemma_insert_position(sorted, r, at);
    let front = sorted.subrange(0, at);
    let back = sorted.subrange(at, sorted.len() as int);
    assert(sorted =~= front + back);
    assert(sorted.insert(at, r) =~= (front + seq![r]) + back);
    lemma_of_size_one(r, size);
    if r.total_size == size {
        lemma_of_size_none(front, size);
    }
}

/// `ascending` is stable: the records of one size stand in the order in
/// which they were given.
pub proof fn lemma_ascending_is_stable(records: Seq<RecordView>, size: nat)
    ensures
        of_size(ascending(records), size) == of_size(records, size),
    decreases records.len(),
{
    if records.len() > 0 {
        let rest = records.drop_first();
        lemma_ascending_is_stable(rest, size);
        lemma_ascending_sorts(rest);
        lemma_insert_is_stable(ascending(rest), records[0], size);
        assert(records =~= seq![records[0]] + rest);
    }
}

/// Read backwards, the records of one size stand in the opposite order.
proof fn lemma_of_size_backwards(records: Seq<RecordView>, size: nat)
    ensures
        of_size(records.reverse(), size) == of_size(records, size).reverse(),
    decreases records.len(),
{
    if records.len() > 0 {
        let first = records[0];
        let rest = records.drop_first();
        lemma_of_size_backwards(rest, size);
        assert(records =~= seq![first] + rest);
        assert(records.reverse() =~= rest.reverse() + seq![first]);
    }
}

/// The rows are the stable sort of the records: among the records of one
/// size, those given first come first where the smallest record is first,
/// and last where the largest record is first.
pub proof fn lemma_arranged_is_stable(records: Seq<RecordView>, reverse: bool, size: nat)
    ensures
        reverse ==> of_size(arranged(records, reverse), size) == of_size(records, size),
        !reverse ==> of_size(arranged(records, reverse), size) == of_size(
            records,
            size,
        ).reverse(),
{
    lemma_ascending_is_stable(records, size);
    if !reverse {
        lemma_of_size_backwards(ascending(records), size);
    }
}

/// Finds where a record of `size` bytes goes in `sorted`: the first
/// position whose record is not smaller.
fn position(sorted: &Vec<AggregateRecord>, size: u64) -> (at: usize)
    ensures
        at <= sorted.len(),
        forall|j: int| 0 <= j < at ==> sorted@[j].total_size < size,
        at < sorted.len() ==> size <= sorted@[at as int].total_size,
{
    let mut at: usize = 0;
    while at < sorted.len() && sorted[at].total_size < size
        invariant
            at <= sorted.len(),
            forall|j: int| 0 <= j < at ==> sorted@[j].total_size < size,
        decreases sorted.len() - at,
    {
        at += 1;
    }
    at
}

/// Turns a list of records back to front.
fn backwards(rows: Vec<AggregateRecord>) -> (out: Vec<AggregateRecord>)
    ensures
        out@ == rows@.reverse(),
{
    let ghost given = rows@;
    let mut rest = rows;
    let mut out: Vec<AggregateRecord> = Vec::new();
    while rest.len() > 0
        invariant
            rest@ == given.subrange(0, rest@.len() as int),
            rest@.len() <= given.len(),
            out@.len() == given.len() - rest@.len(),
            forall|k: int| 0 <= k < out@.len() ==> out@[k] == given[given.len() - 1 - k],
        decreases rest.len(),
    {
        let r = rest.pop().unwrap();
        out.push(r);
    }
    out
}

/// Puts the records in the order of the table: by size, largest first; or
/// smallest first where `reverse` is set. Records of one size come in the
/// order in which they were given where the smallest is first, and in the
/// opposite order where the largest is first.
pub fn arrange(records: Vec<AggregateRecord>, reverse: bool) -> (rows: Vec<AggregateRecord>)
    ensures
        records_view(rows@) == arranged(records_view(records@), reverse),
        reverse ==> non_decreasing(records_view(rows@)),
        !reverse ==> non_increasing(records_view(rows@)),
        rows@.len() == records@.len(),
{
    let ghost given = records_view(records@);
    proof {
        lemma_arranged_by_size(given, reverse);
    }
    let mut rest = records;
    let mut sorted: Vec<AggregateRecord> = Vec::new();
    assert(given.subrange(given.len() as int, given.len() as int) =~= Seq::empty());
    while rest.len() > 0
        invariant
            rest@.len() <= given.len(),
            records_view(rest@) == given.subrange(0, rest@.len() as int),
            records_view(sorted@) == ascending(
                given.subrange(rest@.len() as int, given.len() as int),
            ),
        decreases rest.len(),
    {
        let ghost k = rest@.len() as int;
        let ghost before = rest@;
        let ghost placed = sorted@;
        let r = rest.pop().unwrap();
        let at = position(&sorted, r.total_size);
        sorted.insert(at, r);
        proof {
            let tail = given.subrange(k, given.len() as int);
            let longer = given.subrange(k - 1, given.len() as int);
            assert(r@ == records_view(before)[k - 1]);
            assert(longer.drop_first() =~= tail);
            lemma_insert_position(records_view(placed), r@, at as int);
        }
    }
    assert(given.subrange(0, given.len() as int) =~= given);
    if reverse {
        sorted
    } else {
        backwards(sorted)
    }
}

} // verus!
