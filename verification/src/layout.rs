//! The column layout engine: display widths, the tab-rounded column width,
//! the column count that fits the terminal, the directories-only narrowing,
//! and the name-sorted plan the renderer emits.

use vstd::prelude::*;
use vstd::arithmetic::div_mod::{lemma_fundamental_div_mod, lemma_mod_bound};
use vstd::arithmetic::mul::lemma_mul_inequality;
use crate::entry::DirEntry;
use crate::order::{lemma_seq_lt_total, lemma_seq_lt_trans, name_lt, seq_le};
use crate::arith::gt_mul;
use crate::scan::MIN_TAB_WIDTH;

verus! {

/// How many monospace terminal cells a text occupies.
pub uninterp spec fn display_width(text: Seq<char>) -> nat;

/// Relies on console::measure_text_width: the monospace cell count of the
/// text, a function of its characters alone; a text of printable ASCII
/// occupies one cell per character.
#[verifier::external_body]
pub(crate) fn measure_width(text: &str) -> (r: usize)
    ensures
        r == display_width(text@),
        (forall|i: int|
            0 <= i < text@.len() ==> 0x20 <= #[trigger] (text@[i] as u32) <= 0x7e) ==> r
            == text@.len(),
{
    console::measure_text_width(text)
}

/// An entry together with the display width of its name.
pub struct LayoutEntry {
    pub entry: DirEntry,
    pub width: usize,
}

/// The width field is the display width of the name.
pub open spec fn entry_measured(e: LayoutEntry) -> bool {
    e.width == display_width(e.entry.name@)
}

pub open spec fn all_measured(s: Seq<LayoutEntry>) -> bool {
    forall|i: int| 0 <= i < s.len() ==> entry_measured(#[trigger] s[i])
}

/// A directory entry paired with its measured name width.
pub open spec fn as_layout(e: DirEntry) -> LayoutEntry {
    LayoutEntry { entry: e, width: display_width(e.name@) as usize }
}

pub open spec fn measured_seq(s: Seq<DirEntry>) -> Seq<LayoutEntry> {
    Seq::new(s.len(), |i: int| as_layout(s[i]))
}

/// Measure every entry once.
pub fn make_layout_entries(entries: Vec<DirEntry>) -> (r: Vec<LayoutEntry>)
    ensures
        r@ == measured_seq(entries@),
        all_measured(r@),
{
    let mut out: Vec<LayoutEntry> = Vec::new();
    let mut i: usize = 0;
    while i < entries.len()
        invariant
            i <= entries@.len(),
            out@.len() == i,
            forall|k: int| 0 <= k < i ==> #[trigger] out@[k] == as_layout(entries@[k]),
            all_measured(out@),
        decreases entries@.len() - i,
    {
        let e = &entries[i];
        let w = measure_width(e.name.as_str());
        let item = LayoutEntry { entry: DirEntry { name: e.name.clone(), kind: e.kind }, width: w };
        proof {
            assert(item == as_layout(entries@[i as int]));
        }
        out.push(item);
        i = i + 1;
    }
    proof {
        assert(out@ =~= measured_seq(entries@));
    }
    out
}

/// The widest name in the set (zero for the empty set).
pub open spec fn max_width_seq(s: Seq<LayoutEntry>) -> int
    decreases s.len(),
{
    if s.len() == 0 {
        0
    } else {
        let m = max_width_seq(s.drop_last());
        if s.last().width as int > m {
            s.last().width as int
        } else {
            m
        }
    }
}

pub proof fn lemma_max_width_ge(s: Seq<LayoutEntry>)
    ensures
        forall|i: int| 0 <= i < s.len() ==> (#[trigger] s[i]).width as int <= max_width_seq(s),
        max_width_seq(s) >= 0,
    decreases s.len(),
{
    if s.len() > 0 {
        lemma_max_width_ge(s.drop_last());
        assert(forall|i: int| 0 <= i < s.len() - 1 ==> s[i] == s.drop_last()[i]);
    }
}

pub fn max_width_of(v: &Vec<LayoutEntry>) -> (r: usize)
    ensures
        r as int == max_width_seq(v@),
{
    let mut r: usize = 0;
    let mut i: usize = 0;
    proof {
        assert(v@.take(0) =~= Seq::<LayoutEntry>::empty());
    }
    while i < v.len()
        invariant
            i <= v@.len(),
            r as int == max_width_seq(v@.take(i as int)),
        decreases v@.len() - i,
    {
        proof {
            assert(v@.take(i + 1).drop_last() =~= v@.take(i as int));
            assert(v@.take(i + 1).last() == v@[i as int]);
        }
        if v[i].width > r {
            r = v[i].width;
        }
        i = i + 1;
    }
    proof {
        assert(v@.take(v@.len() as int) =~= v@);
    }
    r
}

/// The widest name, rounded up to the next multiple of the minimum tab
/// width; at least one tab even for a zero-width name.
pub open spec fn round_to_tab(w: int) -> int {
    if w <= 0 {
        MIN_TAB_WIDTH as int
    } else {
        ((w - 1) / (MIN_TAB_WIDTH as int) + 1) * (MIN_TAB_WIDTH as int)
    }
}

/// `round_to_tab`, capped at the largest multiple of the tab width a machine
/// word holds. Widths anywhere near the cap cannot arise from a real name;
/// the cap only keeps the arithmetic total.
pub open spec fn capped_round_to_tab(w: int) -> int {
    if w <= usize::MAX as int - 7 {
        round_to_tab(w)
    } else {
        usize::MAX as int - 7
    }
}

/// The column width for a candidate set whose widest name has the given
/// width: a positive multiple of the tab width, no narrower than the
/// widest name.
pub fn column_width_for(max_width: usize) -> (r: usize)
    ensures
        r as int == capped_round_to_tab(max_width as int),
        r as int % (MIN_TAB_WIDTH as int) == 0,
        r >= MIN_TAB_WIDTH,
        max_width as int <= usize::MAX as int - 7 ==> r as int >= max_width as int,
{
    if max_width == 0 {
        MIN_TAB_WIDTH
    } else {
        let q = (max_width - 1) / MIN_TAB_WIDTH;
        proof {
            lemma_fundamental_div_mod(max_width as int - 1, MIN_TAB_WIDTH as int);
            lemma_mod_bound(max_width as int - 1, MIN_TAB_WIDTH as int);
        }
        if q >= (usize::MAX - 7) / 8 {
            usize::MAX - 7
        } else {
            q * MIN_TAB_WIDTH + MIN_TAB_WIDTH
        }
    }
}

/// The number of columns the terminal fits: the width over the column
/// width, floored to one; one column when no width is known.
pub open spec fn spec_column_count(terminal_width: Option<u16>, column_width: int) -> int {
    match terminal_width {
        Some(w) => if w as int / column_width >= 1 {
            w as int / column_width
        } else {
            1
        },
        None => 1,
    }
}

pub fn column_count_for(terminal_width: Option<u16>, column_width: usize) -> (r: usize)
    requires
        column_width >= 1,
    ensures
        r as int == spec_column_count(terminal_width, column_width as int),
        r >= 1,
{
    match terminal_width {
        Some(w) => {
            let c = (w as usize) / column_width;
            if c == 0 {
                1
            } else {
                c
            }
        },
        None => 1,
    }
}

/// The column count is the largest number of columns whose total width fits
/// the terminal, floored to one when not even a single column fits.
pub proof fn lemma_column_count_is_max(terminal_width: u16, column_width: int)
    requires
        column_width >= 1,
    ensures
        ({
            let c = spec_column_count(Some(terminal_width), column_width);
            &&& c >= 1
            &&& c * column_width <= terminal_width as int || c == 1
            &&& forall|k: int| #[trigger] (k * column_width) <= terminal_width as int ==> k <= c
        }),
{
    let w = terminal_width as int;
    let c0 = w / column_width;
    lemma_fundamental_div_mod(w, column_width);
    lemma_mod_bound(w, column_width);
    assert(c0 * column_width == column_width * c0) by (nonlinear_arith);
    assert forall|k: int| #[trigger] (k * column_width) <= w implies k
        <= spec_column_count(Some(terminal_width), column_width) by {
        if k > c0 {
            lemma_mul_inequality(c0 + 1, k, column_width);
            assert((c0 + 1) * column_width == column_width * c0 + column_width)
                by (nonlinear_arith);
        }
    }
}

/// Non-strict name order over the whole set.
pub open spec fn sorted_names(s: Seq<LayoutEntry>) -> bool {
    forall|i: int, j: int|
        0 <= i < j < s.len() ==> seq_le(
            (#[trigger] s[i]).entry.name@,
            (#[trigger] s[j]).entry.name@,
        )
}

/// Sort by name, ascending; a permutation of the input.
pub fn sort_entries(entries: Vec<LayoutEntry>) -> (r: Vec<LayoutEntry>)
    ensures
        r@.len() == entries@.len(),
        r@.to_multiset() == entries@.to_multiset(),
        sorted_names(r@),
{
    broadcast use vstd::seq_lib::group_to_multiset_ensures;

    let mut rest = entries;
    let mut out: Vec<LayoutEntry> = Vec::new();
    proof {
        assert(out@.to_multiset().add(rest@.to_multiset()) =~= entries@.to_multiset());
    }
    while rest.len() > 0
        invariant
            out@.to_multiset().add(rest@.to_multiset()) == entries@.to_multiset(),
            out@.len() + rest@.len() == entries@.len(),
            sorted_names(out@),
            forall|p: int, k: int|
                0 <= p < out@.len() && 0 <= k < rest@.len() ==> seq_le(
                    (#[trigger] out@[p]).entry.name@,
                    (#[trigger] rest@[k]).entry.name@,
                ),
        decreases rest@.len(),
    {
        // index of the smallest remaining name
        let mut m: usize = 0;
        let mut j: usize = 1;
        while j < rest.len()
            invariant
                m < j <= rest@.len(),
                rest@.len() > 0,
                forall|k: int|
                    0 <= k < j ==> seq_le(
                        rest@[m as int].entry.name@,
                        (#[trigger] rest@[k]).entry.name@,
                    ),
            decreases rest@.len() - j,
        {
            let less = name_lt(rest[j].entry.name.as_str(), rest[m].entry.name.as_str());
            proof {
                lemma_seq_lt_total(rest@[m as int].entry.name@, rest@[j as int].entry.name@);
                if less {
                    assert forall|k: int| 0 <= k < j implies seq_le(
                        rest@[j as int].entry.name@,
                        (#[trigger] rest@[k]).entry.name@,
                    ) by {
                        if rest@[m as int].entry.name@ == rest@[k].entry.name@ {
                        } else {
                            lemma_seq_lt_trans(
                                rest@[j as int].entry.name@,
                                rest@[m as int].entry.name@,
                                rest@[k].entry.name@,
                            );
                        }
                    }
                }
            }
            if less {
                m = j;
            }
            j = j + 1;
        }
        let ghost r0 = rest@;
        let ghost o0 = out@;
        let picked = rest.remove(m);
        out.push(picked);
        proof {
            broadcast use vstd::multiset::group_multiset_axioms;
            broadcast use vstd::seq_lib::group_to_multiset_ensures;

            r0.remove_ensures(m as int);
            assert(r0.contains(r0[m as int]));
            assert(r0.to_multiset().count(picked) > 0);
            assert(out@.to_multiset() =~= o0.to_multiset().insert(picked));
            assert(rest@.to_multiset() =~= r0.to_multiset().remove(picked));
            assert(out@.to_multiset().add(rest@.to_multiset()) =~= o0.to_multiset().add(
                r0.to_multiset(),
            ));
        }
    }
    proof {
        broadcast use vstd::multiset::group_multiset_axioms;

        assert(rest@ =~= Seq::<LayoutEntry>::empty());
        assert(out@.to_multiset() =~= entries@.to_multiset());
    }
    out
}

/// Whether the set holds at least one directory.
pub open spec fn has_dir(s: Seq<LayoutEntry>) -> bool {
    exists|i: int| 0 <= i < s.len() && (#[trigger] s[i]).entry.kind is Directory
}

pub fn has_directory(v: &Vec<LayoutEntry>) -> (r: bool)
    ensures
        r == has_dir(v@),
{
    let mut i: usize = 0;
    while i < v.len()
        invariant
            i <= v@.len(),
            forall|k: int| 0 <= k < i ==> !((#[trigger] v@[k]).entry.kind is Directory),
        decreases v@.len() - i,
    {
        if v[i].entry.kind == crate::entry::FileKind::Directory {
            return true;
        }
        i = i + 1;
    }
    false
}

/// The directory-type entries of the set, in order.
pub open spec fn dir_layouts(s: Seq<LayoutEntry>) -> Seq<LayoutEntry>
    decreases s.len(),
{
    if s.len() == 0 {
        Seq::<LayoutEntry>::empty()
    } else {
        dir_layouts(s.drop_last()) + (if s.last().entry.kind is Directory {
            seq![s.last()]
        } else {
            Seq::<LayoutEntry>::empty()
        })
    }
}

/// Every narrowed entry is a directory drawn from the set, and the narrowed
/// set is non-empty exactly when the set holds a directory.
pub proof fn lemma_dir_layouts_props(s: Seq<LayoutEntry>)
    ensures
        forall|i: int|
            0 <= i < dir_layouts(s).len() ==> (#[trigger] dir_layouts(s)[i]).entry.kind is Directory
                && s.contains(dir_layouts(s)[i]),
        dir_layouts(s).len() >= 1 <==> has_dir(s),
    decreases s.len(),
{
    if s.len() > 0 {
        lemma_dir_layouts_props(s.drop_last());
        assert(forall|e: LayoutEntry| s.drop_last().contains(e) ==> s.contains(e));
        if s.last().entry.kind is Directory {
            assert(s.contains(s.last()));
            assert(forall|i: int|
                0 <= i < dir_layouts(s).len() - 1 ==> dir_layouts(s)[i] == dir_layouts(
                    s.drop_last(),
                )[i]);
            assert(dir_layouts(s).last() == s.last());
        } else {
            if has_dir(s) {
                let i = choose|i: int| 0 <= i < s.len() && (#[trigger] s[i]).entry.kind
                    is Directory;
                assert(s.drop_last()[i] == s[i]);
                assert(has_dir(s.drop_last()));
            }
        }
    }
}

/// Keep only the directory-type entries, in order.
pub fn filter_dir_layouts(entries: Vec<LayoutEntry>) -> (r: Vec<LayoutEntry>)
    ensures
        r@ == dir_layouts(entries@),
{
    let mut out: Vec<LayoutEntry> = Vec::new();
    let mut i: usize = 0;
    proof {
        assert(entries@.take(0) =~= Seq::<LayoutEntry>::empty());
    }
    while i < entries.len()
        invariant
            i <= entries@.len(),
            out@ == dir_layouts(entries@.take(i as int)),
        decreases entries@.len() - i,
    {
        let e = &entries[i];
        proof {
            assert(entries@.take(i + 1).drop_last() =~= entries@.take(i as int));
            assert(entries@.take(i + 1).last() == entries@[i as int]);
        }
        if e.entry.kind == crate::entry::FileKind::Directory {
            let copy = LayoutEntry {
                entry: DirEntry { name: e.entry.name.clone(), kind: e.entry.kind },
                width: e.width,
            };
            assert(copy == entries@[i as int]);
            out.push(copy);
        }
        i = i + 1;
    }
    proof {
        assert(entries@.take(entries@.len() as int) =~= entries@);
    }
    out
}

/// A laid-out candidate set: the sorted entries, and the grid's column
/// width and column count.
pub struct LayoutPlan {
    pub entries: Vec<LayoutEntry>,
    pub column_width: usize,
    pub column_count: usize,
}

/// The adaptive decision: when narrowing is still allowed, the set
/// overflows the line budget under the first-pass grid, and a directory is
/// present, the layout is recomputed over the directories alone.
pub open spec fn narrow_triggers(
    s: Seq<LayoutEntry>,
    terminal_width: Option<u16>,
    max_lines: int,
    may_narrow: bool,
) -> bool {
    let nc = spec_column_count(terminal_width, capped_round_to_tab(max_width_seq(s)));
    may_narrow && s.len() > nc * max_lines && has_dir(s)
}

/// The candidate set the grid is computed over.
pub open spec fn plan_base(
    s: Seq<LayoutEntry>,
    terminal_width: Option<u16>,
    max_lines: int,
    may_narrow: bool,
) -> Seq<LayoutEntry> {
    if narrow_triggers(s, terminal_width, max_lines, may_narrow) {
        dir_layouts(s)
    } else {
        s
    }
}

/// Compute the grid for the candidate set: narrow to directories when the
/// full set cannot fit the line budget, then sort by name. The resulting
/// column width and count are those of the final candidate set.
pub fn build_plan(
    entries: Vec<LayoutEntry>,
    terminal_width: Option<u16>,
    max_lines: usize,
    may_narrow: bool,
) -> (p: LayoutPlan)
    requires
        entries@.len() >= 1,
        max_lines >= 1,
    ensures
        ({
            let base = plan_base(entries@, terminal_width, max_lines as int, may_narrow);
            &&& p.column_width as int == capped_round_to_tab(max_width_seq(base))
            &&& p.column_count as int == spec_column_count(terminal_width, p.column_width as int)
            &&& p.entries@.len() == base.len()
            &&& p.entries@.len() >= 1
            &&& p.entries@.to_multiset() == base.to_multiset()
            &&& sorted_names(p.entries@)
            &&& p.column_count >= 1
            &&& p.column_count >= 2 ==> forall|i: int|
                0 <= i < p.entries@.len() ==> (#[trigger] p.entries@[i]).width as int
                    <= p.column_width as int
        }),
{
    broadcast use vstd::seq_lib::group_to_multiset_ensures;

    let mw = max_width_of(&entries);
    let cw = column_width_for(mw);
    let nc = column_count_for(terminal_width, cw);
    let narrowed = may_narrow && gt_mul(entries.len(), nc, max_lines) && has_directory(&entries);
    proof {
        lemma_dir_layouts_props(entries@);
    }
    let base_vec = if narrowed {
        filter_dir_layouts(entries)
    } else {
        entries
    };
    let ghost base = base_vec@;
    let mw2 = max_width_of(&base_vec);
    let cw2 = column_width_for(mw2);
    let nc2 = column_count_for(terminal_width, cw2);
    proof {
        if nc2 >= 2 {
            let w = terminal_width->0 as int;
            lemma_fundamental_div_mod(w, cw2 as int);
            lemma_mod_bound(w, cw2 as int);
            lemma_mul_inequality(2, w / (cw2 as int), cw2 as int);
            assert(2 * cw2 as int == cw2 as int * 2) by (nonlinear_arith);
            assert((w / (cw2 as int)) * (cw2 as int) == (cw2 as int) * (w / (cw2 as int)))
                by (nonlinear_arith);
            assert(cw2 as int <= 32768);
            lemma_max_width_ge(base);
        }
    }
    let sorted = sort_entries(base_vec);
    proof {
        if nc2 >= 2 {
            assert forall|i: int| 0 <= i < sorted@.len() implies (#[trigger] sorted@[i]).width
                as int <= cw2 as int by {
                assert(sorted@.to_multiset().count(sorted@[i]) > 0);
                assert(base.contains(sorted@[i]));
                let j = choose|j: int| 0 <= j < base.len() && base[j] == sorted@[i];
                assert(base[j].width as int <= max_width_seq(base));
            }
        }
    }
    LayoutPlan { entries: sorted, column_width: cw2, column_count: nc2 }
}

} // verus!
