//! The listing's guarantees, stated across module boundaries: what is
//! displayed is drawn from what was scanned, hidden names never show, a
//! budget overrun shows directories only, and sorted distinct names are
//! strictly ascending.

use vstd::prelude::*;
use crate::entry::{DirEntry, is_hidden_name};
use crate::layout::{LayoutEntry, dir_layouts, lemma_dir_layouts_props, measured_seq, plan_base, sorted_names};
use crate::order::seq_lt;
use crate::scan::{ScanState, dirs_of, lemma_dirs_of_props, spec_dirs_only_required};

verus! {

/// Every displayed entry comes from the given candidate set.
pub open spec fn drawn_from(shown: Seq<LayoutEntry>, base: Seq<DirEntry>) -> bool {
    forall|i: int| 0 <= i < shown.len() ==> base.contains((#[trigger] shown[i]).entry)
}

/// A displayed set that is a rearrangement of the laid-out candidates is
/// drawn from the candidate entries themselves.
pub proof fn lemma_plan_entries_from_input(
    entries: Seq<DirEntry>,
    terminal_width: Option<u16>,
    max_lines: int,
    may_narrow: bool,
    shown: Seq<LayoutEntry>,
)
    requires
        shown.to_multiset() == plan_base(
            measured_seq(entries),
            terminal_width,
            max_lines,
            may_narrow,
        ).to_multiset(),
    ensures
        drawn_from(shown, entries),
{
    broadcast use vstd::seq_lib::group_to_multiset_ensures;

    let measured = measured_seq(entries);
    let base = plan_base(measured, terminal_width, max_lines, may_narrow);
    lemma_dir_layouts_props(measured);
    assert forall|i: int| 0 <= i < shown.len() implies entries.contains(
        (#[trigger] shown[i]).entry,
    ) by {
        assert(shown.to_multiset().count(shown[i]) > 0);
        assert(base.contains(shown[i]));
        let j = choose|j: int| 0 <= j < base.len() && base[j] == shown[i];
        if base == dir_layouts(measured) {
            let k = choose|k: int| 0 <= k < measured.len() && measured[k] == base[j];
            assert(measured[k].entry == entries[k]);
        } else {
            assert(measured[j].entry == entries[j]);
        }
    }
}

/// Hidden entries never appear in the displayed set: the scanner admits no
/// hidden name, and every displayed entry is drawn from a selection of what
/// the scanner admitted.
pub proof fn lemma_hidden_never_displayed(
    state: ScanState,
    sel: Seq<DirEntry>,
    shown: Seq<LayoutEntry>,
)
    requires
        state.wf(),
        sel == state.entries@ || sel == dirs_of(state.entries@),
        drawn_from(shown, sel),
    ensures
        forall|i: int|
            0 <= i < shown.len() ==> !is_hidden_name((#[trigger] shown[i]).entry.name@),
{
    lemma_dirs_of_props(state.entries@);
    assert forall|i: int| 0 <= i < shown.len() implies !is_hidden_name(
        (#[trigger] shown[i]).entry.name@,
    ) by {
        let j = choose|j: int| 0 <= j < sel.len() && sel[j] == shown[i].entry;
        if sel == dirs_of(state.entries@) {
            let k = choose|k: int|
                0 <= k < state.entries@.len() && state.entries@[k] == sel[j];
        }
    }
}

/// When the scan stopped on its time or capacity budget, the selection is
/// forced to directories only, and every displayed entry drawn from it is a
/// directory.
pub proof fn lemma_overrun_displays_directories_only(
    state: ScanState,
    max_items: int,
    shown: Seq<LayoutEntry>,
)
    requires
        state.stopped(),
        drawn_from(shown, dirs_of(state.entries@)),
    ensures
        spec_dirs_only_required(state, max_items),
        forall|i: int| 0 <= i < shown.len() ==> (#[trigger] shown[i]).entry.kind is Directory,
{
    lemma_dirs_of_props(state.entries@);
    assert forall|i: int| 0 <= i < shown.len() implies (#[trigger] shown[i]).entry.kind
        is Directory by {
        let j = choose|j: int|
            0 <= j < dirs_of(state.entries@).len() && dirs_of(state.entries@)[j] == shown[i].entry;
    }
}

/// Within a displayed set of pairwise distinct names, the sort order is
/// strictly ascending.
pub proof fn lemma_sorted_distinct_strict(s: Seq<LayoutEntry>)
    requires
        sorted_names(s),
        forall|i: int, j: int|
            0 <= i < j < s.len() ==> (#[trigger] s[i]).entry.name@ != (#[trigger] s[j]).entry.name@,
    ensures
        forall|i: int, j: int|
            0 <= i < j < s.len() ==> seq_lt(
                (#[trigger] s[i]).entry.name@,
                (#[trigger] s[j]).entry.name@,
            ),
{
}

} // verus!
