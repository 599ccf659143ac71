//! The walker: the size of a directory with all that lies below it, down
//! to a depth.

use vstd::prelude::*;

use crate::diagnostic::{log_view, silent, Diagnostic, DiagnosticView};
use crate::entry::{
    listing_view, Directory, DirectoryView, Entry, EntryView, Stat, Timestamp,
};

verus! {

/// What a walk reports of the directory it was started on.
#[derive(Clone, Debug, PartialEq, Eq)]
pub struct Measured {
    /// The directory's name; empty for a pruned directory.
    pub name: String,
    /// The directory's modification time; none for a pruned directory.
    pub modified: Option<Timestamp>,
    /// The directory's own size and the sizes of all that was counted
    /// below it.
    pub total_size: u64,
}

/// Why a walk gives no measure of its directory.
#[derive(Clone, Debug, PartialEq, Eq)]
pub enum WalkError {
    /// A read that the walk depends on failed; the text is that of the
    /// failure.
    Unreadable(String),
    /// The total does not fit in 64 bits.
    Overflow,
}

/// The outcome of a walk: the measure or the failure, and the diagnostics
/// of the child directories that were stepped over on the way.
#[derive(Debug, PartialEq, Eq)]
pub struct Walk {
    pub result: Result<Measured, WalkError>,
    pub diagnostics: Vec<Diagnostic>,
}

/// The mathematical content of a [`Measured`], with an unbounded total.
pub ghost struct MeasuredView {
    pub name: Seq<char>,
    pub modified: Option<Timestamp>,
    pub total_size: nat,
}

/// The mathematical content of a [`WalkError`].
pub ghost enum WalkErrorView {
    Unreadable(Seq<char>),
    Overflow,
}

/// The mathematical content of a [`Walk`].
pub ghost struct WalkView {
    pub result: Result<MeasuredView, WalkErrorView>,
    pub log: Seq<DiagnosticView>,
}

impl View for Measured {
    type V = MeasuredView;

    open spec fn view(&self) -> MeasuredView {
        MeasuredView {
            name: self.name@,
            modified: self.modified,
            total_size: self.total_size as nat,
        }
    }
}

impl View for WalkError {
    type V = WalkErrorView;

    open spec fn view(&self) -> WalkErrorView {
        match self {
            WalkError::Unreadable(e) => WalkErrorView::Unreadable(e@),
            WalkError::Overflow => WalkErrorView::Overflow,
        }
    }
}

impl View for Walk {
    type V = WalkView;

    open spec fn view(&self) -> WalkView {
        WalkView {
            result: match self.result {
                Ok(m) => Ok(m@),
                Err(e) => Err(e@),
            },
            log: log_view(self.diagnostics@),
        }
    }
}

/// Whether a directory met at `depth` lies beyond the ceiling
/// `max_depth`, so that a walk does not go into it.
pub open spec fn beyond_ceiling(depth: nat, max_depth: nat) -> bool {
    depth > max_depth
}

/// The measure of a directory that lies beyond the depth ceiling: nothing
/// of it was read.
pub open spec fn pruned() -> WalkView {
    WalkView {
        result: Ok(MeasuredView { name: Seq::empty(), modified: None, total_size: 0 }),
        log: Seq::empty(),
    }
}

/// A walk that ends on a failed read with the diagnostics gathered so far.
pub open spec fn failed(error: Seq<char>, log: Seq<DiagnosticView>) -> WalkView {
    WalkView { result: Err(WalkErrorView::Unreadable(error)), log }
}

/// Where the scan of a directory's children stands after some of them.
pub ghost struct ScanView {
    /// The bytes counted so far.
    pub sum: nat,
    /// The diagnostics gathered so far.
    pub log: Seq<DiagnosticView>,
    /// The failure that ended the scan, if one did.
    pub stopped: Option<Seq<char>>,
}

/// The walk of `dir`, met at `depth`, under the ceiling `max_depth`, with
/// sizes as unbounded numbers.
///
/// Beyond the ceiling the directory is pruned. Otherwise a failed listing
/// or a failed read of the directory's own metadata ends the walk, and so
/// does the first child whose metadata could not be read. A child
/// directory is walked one level deeper; where that walk fails, the child
/// counts as zero and a diagnostic names it.
pub open spec fn walk(dir: DirectoryView, depth: nat, max_depth: nat) -> WalkView
    decreases dir, 0nat,
{
    if beyond_ceiling(depth, max_depth) {
        pruned()
    } else {
        match dir.listing {
            Err(e) => failed(e, Seq::empty()),
            Ok(children) => match dir.stat {
                Err(e) => failed(e, Seq::empty()),
                Ok(stat) => {
                    let s = scan(children, children.len(), depth, max_depth);
                    match s.stopped {
                        Some(e) => failed(e, s.log),
                        None => WalkView {
                            result: Ok(
                                MeasuredView {
                                    name: dir.name,
                                    modified: Some(stat.modified),
                                    total_size: stat.size as nat + s.sum,
                                },
                            ),
                            log: s.log,
                        },
                    }
                },
            },
        }
    }
}

/// The scan of the first `upto` children of a directory met at `depth`.
pub open spec fn scan(
    children: Seq<EntryView>,
    upto: nat,
    depth: nat,
    max_depth: nat,
) -> ScanView
    decreases children, upto,
{
    if upto == 0 || upto > children.len() {
        ScanView { sum: 0, log: Seq::empty(), stopped: None }
    } else {
        let before = scan(children, (upto - 1) as nat, depth, max_depth);
        if before.stopped is Some {
            before
        } else {
            match children[upto - 1] {
                EntryView::File { stat, .. } => ScanView {
                    sum: before.sum + stat.size as nat,
                    log: before.log,
                    stopped: None,
                },
                EntryView::Unreadable { error, .. } => ScanView {
                    sum: before.sum,
                    log: before.log,
                    stopped: Some(error),
                },
                EntryView::Directory(d) => {
                    let sub = walk(d, depth + 1, max_depth);
                    match sub.result {
                        Ok(m) => ScanView {
                            sum: before.sum + m.total_size,
                            log: before.log + sub.log,
                            stopped: None,
                        },
                        Err(WalkErrorView::Unreadable(e)) => ScanView {
                            sum: before.sum,
                            log: before.log + sub.log.push(
                                DiagnosticView::ChildFailed { name: d.name, error: e },
                            ),
                            stopped: None,
                        },
                        Err(WalkErrorView::Overflow) => before,
                    }
                },
            }
        }
    }
}

/// What the machine can hold of a walk: a total beyond 64 bits gives
/// `Overflow` in place of the measure.
pub open spec fn bounded(w: WalkView) -> WalkView {
    match w.result {
        Ok(m) => if m.total_size > u64::MAX {
            WalkView { result: Err(WalkErrorView::Overflow), log: w.log }
        } else {
            w
        },
        Err(_) => w,
    }
}

/// The unbounded walk never reports an overflow of its own.
pub proof fn lemma_walk_is_unbounded(dir: DirectoryView, depth: nat, max_depth: nat)
    ensures
        walk(dir, depth, max_depth).result != Err::<MeasuredView, WalkErrorView>(
            WalkErrorView::Overflow,
        ),
{
}

/// Once the scan has stopped, later children change nothing.
proof fn lemma_scan_stays_stopped(
    children: Seq<EntryView>,
    from: nat,
    upto: nat,
    depth: nat,
    max_depth: nat,
)
    requires
        from <= upto <= children.len(),
        scan(children, from, depth, max_depth).stopped is Some,
    ensures
        scan(children, upto, depth, max_depth) == scan(children, from, depth, max_depth),
    decreases upto - from,
{
    if from < upto {
        lemma_scan_stays_stopped(children, from, (upto - 1) as nat, depth, max_depth);
    }
}

/// The sizes of the files among the first `upto` children, added up.
/// Directories and unreadable children count as nothing here.
pub open spec fn file_bytes(children: Seq<EntryView>, upto: nat) -> nat
    decreases upto,
{
    if upto == 0 || upto > children.len() {
        0
    } else {
        file_bytes(children, (upto - 1) as nat) + match children[upto - 1] {
            EntryView::File { stat, .. } => stat.size as nat,
            _ => 0,
        }
    }
}

/// A scan that has not stopped has counted every file it passed, and
/// nothing else once the children lie beyond the ceiling.
proof fn lemma_scan_covers_files(children: Seq<EntryView>, upto: nat, depth: nat, max_depth: nat)
    requires
        upto <= children.len(),
        scan(children, upto, depth, max_depth).stopped is None,
    ensures
        scan(children, upto, depth, max_depth).sum >= file_bytes(children, upto),
        depth >= max_depth ==> scan(children, upto, depth, max_depth).sum == file_bytes(
            children,
            upto,
        ),
    decreases upto,
{
    if upto > 0 {
        lemma_scan_covers_files(children, (upto - 1) as nat, depth, max_depth);
        if let EntryView::Directory(d) = children[upto - 1] {
            assert(depth >= max_depth ==> walk(d, depth + 1, max_depth) == pruned());
        }
    }
}

/// A directory beyond the ceiling is pruned whatever it holds: size zero,
/// no name, no time, no diagnostics.
pub proof fn lemma_pruned_beyond_ceiling(dir: DirectoryView, depth: nat, max_depth: nat)
    requires
        beyond_ceiling(depth, max_depth),
    ensures
        walk(dir, depth, max_depth) == pruned(),
        bounded(walk(dir, depth, max_depth)) == pruned(),
{
}

/// The total of a directory walked from depth zero is at least the sum of
/// the sizes of the files directly in it. Under the ceiling zero it is
/// exactly that sum and the directory's own size, so the two are equal
/// where the directory itself has size zero.
pub proof fn lemma_total_covers_files(dir: DirectoryView, max_depth: nat)
    requires
        walk(dir, 0, max_depth).result is Ok,
    ensures
        dir.listing is Ok,
        dir.stat is Ok,
        walk(dir, 0, max_depth).result->Ok_0.total_size >= file_bytes(
            dir.listing->Ok_0,
            dir.listing->Ok_0.len(),
        ),
        max_depth == 0 ==> walk(dir, 0, max_depth).result->Ok_0.total_size
            == dir.stat->Ok_0.size + file_bytes(dir.listing->Ok_0, dir.listing->Ok_0.len()),
{
    let children = dir.listing->Ok_0;
    lemma_scan_covers_files(children, children.len(), 0, max_depth);
}

/// Raising the ceiling never lowers a total. A directory that lies within
/// the lower ceiling is measured under both ceilings or under neither, and
/// where a directory is measured under both, the total under the higher
/// ceiling is at least the total under the lower.
pub proof fn lemma_higher_ceiling_counts_more(dir: DirectoryView, depth: nat, lo: nat, hi: nat)
    requires
        lo <= hi,
    ensures
        !beyond_ceiling(depth, lo) ==> (walk(dir, depth, lo).result is Ok <==> walk(
            dir,
            depth,
            hi,
        ).result is Ok),
        walk(dir, depth, lo).result is Ok && walk(dir, depth, hi).result is Ok ==> walk(
            dir,
            depth,
            lo,
        ).result->Ok_0.total_size <= walk(dir, depth, hi).result->Ok_0.total_size,
    decreases dir, 0nat,
{
    if !beyond_ceiling(depth, lo) {
        match dir.listing {
            Ok(children) => match dir.stat {
                Ok(_) => {
                    lemma_higher_ceiling_scans_more(children, children.len(), depth, lo, hi);
                },
                Err(_) => {},
            },
            Err(_) => {},
        }
    }
}

/// Under a higher ceiling a scan stops where it stopped before, and has
/// counted at least as much.
proof fn lemma_higher_ceiling_scans_more(
    children: Seq<EntryView>,
    upto: nat,
    depth: nat,
    lo: nat,
    hi: nat,
)
    requires
        lo <= hi,
        !beyond_ceiling(depth, lo),
        upto <= children.len(),
    ensures
        scan(children, upto, depth, lo).stopped == scan(children, upto, depth, hi).stopped,
        scan(children, upto, depth, lo).sum <= scan(children, upto, depth, hi).sum,
    decreases children, upto,
{
    if upto > 0 {
        lemma_higher_ceiling_scans_more(children, (upto - 1) as nat, depth, lo, hi);
        match children[upto - 1] {
            EntryView::Directory(d) => {
                lemma_higher_ceiling_counts_more(d, depth + 1, lo, hi);
            },
            _ => {},
        }
    }
}

/// Adds `more` to a running sum that may already have left 64 bits.
fn add_size(sum: u64, over: bool, more: u64) -> (next: (u64, bool))
    ensures
        next.1 == (over || sum + more > u64::MAX),
        !next.1 ==> next.0 == sum + more,
{
    if over {
        (sum, true)
    } else {
        match sum.checked_add(more) {
            Some(t) => (t, false),
            None => (sum, true),
        }
    }
}

/// Decides whether a directory met at `depth` is left unread under the
/// ceiling `max_depth`.
pub fn is_pruned(depth: usize, max_depth: usize) -> (pruned: bool)
    ensures
        pruned == beyond_ceiling(depth as nat, max_depth as nat),
{
    depth > max_depth
}

/// The depth at which the child directories of a directory met at `depth`
/// are walked; none where they lie beyond the ceiling `max_depth`.
pub fn depth_below(depth: usize, max_depth: usize) -> (below: Option<usize>)
    ensures
        below is Some <==> !beyond_ceiling(depth as nat + 1, max_depth as nat),
        below is Some ==> below->Some_0 == depth + 1,
{
    if depth < max_depth {
        Some(depth + 1)
    } else {
        None
    }
}

/// Measures `dir`, met at `depth`, under the ceiling `max_depth`.
///
/// The outcome is that of [`walk`]; a total that does not fit in 64 bits
/// is reported as [`WalkError::Overflow`].
pub fn aggregate(dir: &Directory, depth: usize, max_depth: usize) -> (out: Walk)
    ensures
        out@ == bounded(walk(dir@, depth as nat, max_depth as nat)),
        beyond_ceiling(depth as nat, max_depth as nat) ==> out@ == pruned(),
    decreases dir,
{
    if is_pruned(depth, max_depth) {
        return Walk {
            result: Ok(Measured { name: String::new(), modified: None, total_size: 0 }),
            diagnostics: silent(),
        };
    }
    let children = match &dir.listing {
        Ok(children) => children,
        Err(e) => {
            return Walk { result: Err(WalkError::Unreadable(e.clone())), diagnostics: silent() };
        },
    };
    let stat = match &dir.stat {
        Ok(stat) => *stat,
        Err(e) => {
            return Walk { result: Err(WalkError::Unreadable(e.clone())), diagnostics: silent() };
        },
    };
    let ghost cv = listing_view(children@);
    proof {
        dir.lemma_view();
    }
    let mut sum: u64 = 0;
    let mut over = false;
    let mut log: Vec<Diagnostic> = silent();
    let mut i: usize = 0;
    while i < children.len()
        invariant
            dir.listing == Ok::<Vec<Entry>, String>(*children),
            dir@.listing == Ok::<Seq<EntryView>, Seq<char>>(cv),
            dir@.stat == Ok::<Stat, Seq<char>>(stat),
            cv == listing_view(children@),
            depth <= max_depth,
            i <= children.len(),
            scan(cv, i as nat, depth as nat, max_depth as nat).stopped is None,
            scan(cv, i as nat, depth as nat, max_depth as nat).log == log_view(log@),
            over == (scan(cv, i as nat, depth as nat, max_depth as nat).sum > u64::MAX),
            !over ==> sum == scan(cv, i as nat, depth as nat, max_depth as nat).sum,
        decreases children.len() - i,
    {
        match &children[i] {
            Entry::File(f) => {
                let next = add_size(sum, over, f.stat.size);
                sum = next.0;
                over = next.1;
            },
            Entry::Unreadable { name, error } => {
                proof {
                    lemma_scan_stays_stopped(
                        cv,
                        (i + 1) as nat,
                        cv.len(),
                        depth as nat,
                        max_depth as nat,
                    );
                }
                return Walk { result: Err(WalkError::Unreadable(error.clone())), diagnostics: log };
            },
            Entry::Directory(d) => {
                if let Some(below) = depth_below(depth, max_depth) {
                    let Walk { result, mut diagnostics } = aggregate(d, below, max_depth);
                    log.append(&mut diagnostics);
                    match result {
                        Ok(m) => {
                            let next = add_size(sum, over, m.total_size);
                            sum = next.0;
                            over = next.1;
                        },
                        Err(WalkError::Unreadable(e)) => {
                            log.push(Diagnostic::ChildFailed { name: d.name.clone(), error: e });
                        },
                        Err(WalkError::Overflow) => {
                            over = true;
                        },
                    }
                }
            },
        }
        i += 1;
    }
    if over {
        return Walk { result: Err(WalkError::Overflow), diagnostics: log };
    }
    match stat.size.checked_add(sum) {
        Some(total) => Walk {
            result: Ok(
                Measured { name: dir.name.clone(), modified: Some(stat.modified), total_size: total },
            ),
            diagnostics: log,
        },
        None => Walk { result: Err(WalkError::Overflow), diagnostics: log },
    }
}

} // verus!
