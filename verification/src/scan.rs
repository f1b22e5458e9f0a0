//! The bounded scanner's decisions: which entries enter the listing, when the
//! scan stops (directory-count cap or per-step time budget), and how the
//! candidate set is narrowed to directories only after an overrun.

use vstd::prelude::*;
use crate::arith::{capped_mul, saturating_mul};
use crate::entry::{DirEntry, FileKind, is_hidden_name, name_is_hidden};

verus! {

/// The fixed minimum tab width, in display cells.
pub const MIN_TAB_WIDTH: usize = 8;

/// The per-step time budget of the scanner, in nanoseconds.
pub const TIME_LIMIT_NS: u128 = 10_000_000;

/// How many directory-type entries a sequence holds.
pub open spec fn count_dirs(s: Seq<DirEntry>) -> nat
    decreases s.len(),
{
    if s.len() == 0 {
        0
    } else {
        count_dirs(s.drop_last()) + (if s.last().kind is Directory {
            1nat
        } else {
            0nat
        })
    }
}

pub proof fn lemma_count_dirs_le_len(s: Seq<DirEntry>)
    ensures
        count_dirs(s) <= s.len(),
    decreases s.len(),
{
    if s.len() > 0 {
        lemma_count_dirs_le_len(s.drop_last());
    }
}

/// The directory-type entries of a sequence, in order.
pub open spec fn dirs_of(s: Seq<DirEntry>) -> Seq<DirEntry>
    decreases s.len(),
{
    if s.len() == 0 {
        Seq::<DirEntry>::empty()
    } else {
        dirs_of(s.drop_last()) + (if s.last().kind is Directory {
            seq![s.last()]
        } else {
            Seq::<DirEntry>::empty()
        })
    }
}

/// Every entry of `dirs_of(s)` is a directory drawn from `s`, and there are
/// exactly as many of them as `s` has directories.
pub proof fn lemma_dirs_of_props(s: Seq<DirEntry>)
    ensures
        forall|i: int|
            0 <= i < dirs_of(s).len() ==> (#[trigger] dirs_of(s)[i]).kind is Directory
                && s.contains(dirs_of(s)[i]),
        dirs_of(s).len() == count_dirs(s),
    decreases s.len(),
{
    if s.len() > 0 {
        lemma_dirs_of_props(s.drop_last());
        assert(forall|e: DirEntry| s.drop_last().contains(e) ==> s.contains(e));
        if s.last().kind is Directory {
            assert(s.contains(s.last()));
            assert(forall|i: int|
                0 <= i < dirs_of(s).len() - 1 ==> dirs_of(s)[i] == dirs_of(s.drop_last())[i]);
            assert(dirs_of(s).last() == s.last());
        }
    }
}

/// What the scanner has collected so far, and why it stopped if it did.
pub struct ScanState {
    pub entries: Vec<DirEntry>,
    pub dir_count: usize,
    pub timed_out: bool,
    pub over_capacity: bool,
}

impl ScanState {
    /// The scanner's invariant: the directory count matches the entries, and
    /// no hidden entry was ever admitted.
    pub open spec fn wf(self) -> bool {
        &&& self.dir_count == count_dirs(self.entries@)
        &&& forall|i: int|
            0 <= i < self.entries@.len() ==> !is_hidden_name(
                (#[trigger] self.entries@[i]).name@,
            )
    }

    /// Whether the scan stopped before the directory was exhausted.
    pub open spec fn stopped(self) -> bool {
        self.timed_out || self.over_capacity
    }

    pub fn new() -> (r: ScanState)
        ensures
            r.wf(),
            r.entries@.len() == 0,
            r.dir_count == 0,
            !r.timed_out,
            !r.over_capacity,
    {
        ScanState { entries: Vec::new(), dir_count: 0, timed_out: false, over_capacity: false }
    }

    /// Process one enumerated entry: hidden names are skipped outright;
    /// any other entry is admitted, and the scan stops once the admitted
    /// directories reach `max_items` or this step's elapsed time exceeds
    /// the budget (the entry that overran is still included). The result
    /// says whether to stop.
    pub fn record(&mut self, name: String, kind: FileKind, elapsed_ns: u128, max_items: usize)
        -> (stop: bool)
        requires
            old(self).wf(),
            !old(self).stopped(),
            old(self).entries@.len() < usize::MAX,
        ensures
            final(self).wf(),
            is_hidden_name(name@) ==> *final(self) == *old(self) && !stop,
            !is_hidden_name(name@) ==> {
                &&& final(self).entries@ == old(self).entries@.push(
                    DirEntry { name: name, kind: kind },
                )
                &&& final(self).dir_count == old(self).dir_count + (if kind is Directory {
                    1int
                } else {
                    0int
                })
                &&& final(self).over_capacity == (final(self).dir_count >= max_items)
                &&& final(self).timed_out == (final(self).dir_count < max_items && elapsed_ns
                    > TIME_LIMIT_NS)
            },
            stop == final(self).stopped(),
    {
        if name_is_hidden(name.as_str()) {
            return false;
        }
        proof {
            lemma_count_dirs_le_len(self.entries@);
        }
        if kind == FileKind::Directory {
            self.dir_count = self.dir_count + 1;
        }
        let entry = DirEntry { name, kind };
        self.entries.push(entry);
        proof {
            assert(self.entries@.drop_last() =~= old(self).entries@);
        }
        if self.dir_count >= max_items {
            self.over_capacity = true;
        } else if elapsed_ns > TIME_LIMIT_NS {
            self.timed_out = true;
        }
        self.over_capacity || self.timed_out
    }
}

/// `max_lines` must be positive; zero is rejected before any directory access.
pub fn max_lines_valid(max_lines: usize) -> (r: bool)
    ensures
        r == (max_lines >= 1),
{
    max_lines >= 1
}

/// The upper-bound estimate of how many names could possibly fit on one
/// line: the terminal width over the minimum tab width, floored to one,
/// and one when no width is known.
pub open spec fn columns_estimate(terminal_width: Option<u16>) -> int {
    match terminal_width {
        Some(w) => if w as int / (MIN_TAB_WIDTH as int) >= 1 {
            w as int / (MIN_TAB_WIDTH as int)
        } else {
            1
        },
        None => 1,
    }
}

/// The capacity bound of a scan: the columns estimate times the requested
/// line count (saturating at the machine maximum).
pub fn scan_capacity(terminal_width: Option<u16>, max_lines: usize) -> (r: usize)
    ensures
        r as int == capped_mul(columns_estimate(terminal_width), max_lines as int),
{
    let est: usize = match terminal_width {
        Some(w) => {
            let e = (w as usize) / MIN_TAB_WIDTH;
            if e == 0 {
                1
            } else {
                e
            }
        },
        None => 1,
    };
    saturating_mul(est, max_lines)
}

/// Whether the listing must be narrowed to directories before layout: the
/// scan timed out, hit the directory cap, or collected more entries than
/// the capacity bound.
pub open spec fn spec_dirs_only_required(state: ScanState, max_items: int) -> bool {
    state.timed_out || state.over_capacity || state.entries@.len() > max_items
}

pub fn dirs_only_required(state: &ScanState, max_items: usize) -> (r: bool)
    ensures
        r == spec_dirs_only_required(*state, max_items as int),
{
    state.timed_out || state.over_capacity || state.entries.len() > max_items
}

/// Keep only the directory-type entries, in order.
pub fn filter_directories(entries: Vec<DirEntry>) -> (r: Vec<DirEntry>)
    ensures
        r@ == dirs_of(entries@),
{
    let mut out: Vec<DirEntry> = Vec::new();
    let mut i: usize = 0;
    proof {
        assert(entries@.take(0) =~= Seq::<DirEntry>::empty());
    }
    while i < entries.len()
        invariant
            i <= entries@.len(),
            out@ == dirs_of(entries@.take(i as int)),
        decreases entries@.len() - i,
    {
        let e = &entries[i];
        proof {
            assert(entries@.take(i + 1).drop_last() =~= entries@.take(i as int));
            assert(entries@.take(i + 1).last() == entries@[i as int]);
        }
        if e.kind == FileKind::Directory {
            let copy = DirEntry { name: e.name.clone(), kind: e.kind };
            assert(copy == entries@[i as int]);
            out.push(copy);
        }
        i = i + 1;
    }
    proof {
        assert(entries@.take(entries@.len() as int) =~= entries@);
    }
    out
}

/// The selection the orchestrator displays: when the scan overran its time
/// or capacity budget, or collected more than the capacity bound, only the
/// directories are kept and no further narrowing is allowed; otherwise the
/// full set is kept and the layout may still narrow it.
pub fn select_displayed(state: ScanState, max_items: usize) -> (r: (Vec<DirEntry>, bool))
    requires
        state.wf(),
    ensures
        r.1 == !spec_dirs_only_required(state, max_items as int),
        r.1 ==> r.0@ == state.entries@,
        !r.1 ==> r.0@ == dirs_of(state.entries@),
        forall|i: int|
            0 <= i < r.0@.len() ==> !is_hidden_name((#[trigger] r.0@[i]).name@),
        !r.1 ==> forall|i: int| 0 <= i < r.0@.len() ==> (#[trigger] r.0@[i]).kind is Directory,
{
    let must_narrow = dirs_only_required(&state, max_items);
    if must_narrow {
        proof {
            lemma_dirs_of_props(state.entries@);
        }
        let dirs = filter_directories(state.entries);
        (dirs, false)
    } else {
        (state.entries, true)
    }
}

} // verus!
