//! Emitting a layout plan as styled text: entries row-major into the grid,
//! padded to the column width except in the last column, one line break per
//! row, and the truncation marker on its own line when the set overflows
//! the line budget.

use vstd::prelude::*;
use crate::layout::{LayoutPlan, LayoutEntry, spec_column_count, capped_round_to_tab, max_width_seq, sorted_names, plan_base, measured_seq, make_layout_entries, build_plan};
use crate::entry::DirEntry;
use crate::style::{painted, style_of, indicator_of, paint, classify, indicator};
use crate::arith::ge_mul;

verus! {

/// A run of spaces (empty for non-positive counts).
pub open spec fn spaces(n: int) -> Seq<char> {
    if n <= 0 {
        Seq::<char>::empty()
    } else {
        Seq::new(n as nat, |i: int| ' ')
    }
}

/// The truncation marker, on a line of its own.
pub open spec fn marker_line() -> Seq<char> {
    seq!['.', '.', '.', '.', '\n']
}

/// What one entry contributes to the output: its styled name, its
/// indicator, padding to the column width unless it ends its row, and a
/// line break when it ends its row or is the final entry.
pub open spec fn spec_cell(e: LayoutEntry, cw: int, nc: int, i: int, total: int) -> Seq<char> {
    painted(style_of(e.entry.kind), e.entry.name@) + indicator_of(e.entry.kind) + (if (i + 1) % nc
        != 0 {
        spaces(cw - e.width)
    } else {
        Seq::<char>::empty()
    }) + (if (i + 1) % nc == 0 || i == total - 1 {
        seq!['\n']
    } else {
        Seq::<char>::empty()
    })
}

/// The output of the first `shown` entries.
pub open spec fn spec_cells(s: Seq<LayoutEntry>, cw: int, nc: int, shown: int, total: int)
    -> Seq<char>
    decreases shown,
{
    if shown <= 0 {
        Seq::<char>::empty()
    } else {
        spec_cells(s, cw, nc, shown - 1, total) + spec_cell(s[shown - 1], cw, nc, shown - 1, total)
    }
}

/// The whole output: all entries when they fit below the grid capacity;
/// otherwise the first `capacity - 1` entries, a line break if they end
/// mid-row, and the marker line.
pub open spec fn spec_render(s: Seq<LayoutEntry>, cw: int, nc: int, capacity: int) -> Seq<char> {
    let total = s.len() as int;
    if total >= capacity {
        spec_cells(s, cw, nc, capacity - 1, total) + (if (capacity - 1) % nc != 0 {
            seq!['\n']
        } else {
            Seq::<char>::empty()
        }) + marker_line()
    } else {
        spec_cells(s, cw, nc, total, total)
    }
}

/// Append `n` spaces.
fn push_spaces(out: &mut String, n: usize)
    ensures
        final(out)@ == old(out)@ + spaces(n as int),
{
    proof {
        reveal_strlit(" ");
        assert(" "@ =~= seq![' ']);
        assert(old(out)@ + spaces(0) =~= old(out)@);
    }
    let mut i: usize = 0;
    while i < n
        invariant
            i <= n,
            " "@ =~= seq![' '],
            out@ == old(out)@ + spaces(i as int),
        decreases n - i,
    {
        out.append(" ");
        proof {
            assert(old(out)@ + spaces(i as int) + " "@ =~= old(out)@ + spaces(i + 1));
        }
        i = i + 1;
    }
}

/// Emit the plan's grid, `max_lines` rows at most, with the marker line
/// when the entries reach the grid's capacity.
pub fn render_plan(p: &LayoutPlan, max_lines: usize) -> (out: String)
    requires
        p.entries@.len() >= 1,
        p.column_count >= 1,
        max_lines >= 1,
        p.column_count >= 2 ==> forall|i: int|
            0 <= i < p.entries@.len() ==> (#[trigger] p.entries@[i]).width as int
                <= p.column_width as int,
    ensures
        out@ == spec_render(
            p.entries@,
            p.column_width as int,
            p.column_count as int,
            p.column_count as int * max_lines as int,
        ),
{
    let nc = p.column_count;
    let cw = p.column_width;
    let len = p.entries.len();
    let ghost cap = nc as int * max_lines as int;
    proof {
        assert(cap >= 1) by (nonlinear_arith)
            requires nc >= 1 && max_lines >= 1 && cap == nc as int * max_lines as int;
    }
    let truncated = ge_mul(len, nc, max_lines);
    let shown: usize = if truncated {
        nc * max_lines - 1
    } else {
        len
    };
    let mut out = String::new();
    proof {
        assert(out@ =~= spec_cells(p.entries@, cw as int, nc as int, 0, len as int));
        reveal_strlit("\n");
        assert("\n"@ =~= seq!['\n']);
    }
    let mut i: usize = 0;
    while i < shown
        invariant
            i <= shown,
            shown <= len,
            len == p.entries@.len(),
            nc == p.column_count,
            cw == p.column_width,
            nc >= 1,
            "\n"@ =~= seq!['\n'],
            nc >= 2 ==> forall|k: int|
                0 <= k < p.entries@.len() ==> (#[trigger] p.entries@[k]).width as int <= cw as int,
            out@ == spec_cells(p.entries@, cw as int, nc as int, i as int, len as int),
        decreases shown - i,
    {
        let e = &p.entries[i];
        let styled = paint(classify(e.entry.kind), e.entry.name.as_str());
        out.append(styled.as_str());
        out.append(indicator(e.entry.kind));
        let next = (i + 1) % nc;
        if next != 0 {
            proof {
                if nc == 1 {
                    assert((i + 1) as int % 1int == 0);
                }
            }
            let pad = cw - e.width;
            push_spaces(&mut out, pad);
        }
        if next == 0 || i == len - 1 {
            out.append("\n");
        }
        proof {
            assert(out@ =~= spec_cells(p.entries@, cw as int, nc as int, i + 1, len as int));
        }
        i = i + 1;
    }
    if truncated {
        if shown % nc != 0 {
            out.append("\n");
        }
        proof {
            reveal_strlit("....\n");
            assert("....\n"@ =~= marker_line());
        }
        out.append("....\n");
        proof {
            assert(out@ =~= spec_render(p.entries@, cw as int, nc as int, cap));
        }
    } else {
        proof {
            assert(out@ =~= spec_render(p.entries@, cw as int, nc as int, cap));
        }
    }
    out
}

/// The full pipeline on a non-empty candidate set: measure, narrow if the
/// full set cannot fit (and narrowing is allowed), sort, and emit.
pub fn render_preview(
    entries: Vec<DirEntry>,
    terminal_width: Option<u16>,
    max_lines: usize,
    may_narrow: bool,
) -> (r: (LayoutPlan, String))
    requires
        entries@.len() >= 1,
        max_lines >= 1,
    ensures
        ({
            let base = plan_base(
                measured_seq(entries@),
                terminal_width,
                max_lines as int,
                may_narrow,
            );
            &&& r.0.column_width as int == capped_round_to_tab(max_width_seq(base))
            &&& r.0.column_count as int == spec_column_count(
                terminal_width,
                r.0.column_width as int,
            )
            &&& r.0.column_count >= 1
            &&& r.0.entries@.len() == base.len()
            &&& r.0.entries@.len() >= 1
            &&& r.0.entries@.to_multiset() == base.to_multiset()
            &&& sorted_names(r.0.entries@)
            &&& r.1@ == spec_render(
                r.0.entries@,
                r.0.column_width as int,
                r.0.column_count as int,
                r.0.column_count as int * max_lines as int,
            )
        }),
{
    let les = make_layout_entries(entries);
    let plan = build_plan(les, terminal_width, max_lines, may_narrow);
    let out = render_plan(&plan, max_lines);
    (plan, out)
}

/// When the entries exceed the grid capacity, the output ends in a line
/// holding exactly the truncation marker.
pub proof fn lemma_truncated_render_ends_with_marker(
    s: Seq<LayoutEntry>,
    cw: int,
    nc: int,
    capacity: int,
)
    requires
        s.len() > capacity,
    ensures
        ({
            let out = spec_render(s, cw, nc, capacity);
            &&& out.len() >= 5
            &&& out.skip(out.len() - 5) == marker_line()
        }),
{
    let out = spec_render(s, cw, nc, capacity);
    let head = spec_cells(s, cw, nc, capacity - 1, s.len() as int) + (if (capacity - 1) % nc != 0 {
        seq!['\n']
    } else {
        Seq::<char>::empty()
    });
    assert(out =~= head + marker_line());
    assert(out.skip(out.len() - 5) =~= marker_line());
}

/// The rendered cells read only the entries before `shown`: no entry at or
/// beyond that index appears in a truncated grid.
pub proof fn lemma_cells_depend_on_prefix(
    s1: Seq<LayoutEntry>,
    s2: Seq<LayoutEntry>,
    cw: int,
    nc: int,
    shown: int,
    total: int,
)
    requires
        forall|i: int| 0 <= i < shown ==> s1[i] == s2[i],
    ensures
        spec_cells(s1, cw, nc, shown, total) == spec_cells(s2, cw, nc, shown, total),
    decreases shown,
{
    if shown > 0 {
        lemma_cells_depend_on_prefix(s1, s2, cw, nc, shown - 1, total);
    }
}

} // verus!
