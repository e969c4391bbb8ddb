//! What the constraints of the gadget say of a trace that carries a witness:
//! they hold for a value inside the range and fail for one outside.

use vstd::prelude::*;
use vstd::arithmetic::div_mod::*;
use vstd::arithmetic::power2::*;
use halo2_proofs::plonk::Selector;
use crate::field::modulus;
use crate::halo::AdviceColumn;
use crate::limbs::{
    canonical_limbs, lemma_canonical_limbs_bounded, lemma_pow2_increases,
    lemma_recombine_bounded, lemma_recombine_unique, lemma_round_trip, limbs_bounded,
    range_bound, recombine,
};
use crate::poly::{
    eval, flag_at, in_table, lemma_in_table_below, lemma_lookup_value, lemma_range_gate_value,
    lookup_poly, range_gate_poly, vanishes, Trace,
};
use crate::table::range_table;
use crate::range::{witness_cells, CellModel, LIMB_ROW};

verus! {

/// The cell of the trace that a write addresses in a region that begins at row `start`.
pub open spec fn cell_key(columns: Seq<AdviceColumn>, start: int, cell: CellModel) -> (
    AdviceColumn,
    int,
) {
    (columns[cell.column], start + cell.offset)
}

/// The trace holds the value of every write of `cells` that has one.
pub open spec fn holds_cells(
    trace: Trace,
    columns: Seq<AdviceColumn>,
    start: int,
    cells: Seq<CellModel>,
) -> bool {
    forall|i: int|
        0 <= i < cells.len() ==> ((#[trigger] cells[i]).value matches Some(v)
            ==> trace.advice.dom().contains(cell_key(columns, start, cells[i]))
            && trace.advice[cell_key(columns, start, cells[i])] == v)
}

/// The trace carries the witness `(value, limbs)` in the region that begins at
/// row `start`: it holds the cells of the witness, and the flag is up at the
/// limb row of that region.
pub open spec fn carries_witness(
    trace: Trace,
    columns: Seq<AdviceColumn>,
    flag: Selector,
    start: int,
    value: nat,
    limbs: Seq<nat>,
) -> bool {
    &&& columns.len() == 4
    &&& limbs.len() == 4
    &&& holds_cells(trace, columns, start, witness_cells(Some(value), Some(limbs)))
    &&& trace.enabled.contains((flag, start + LIMB_ROW))
}

/// The flag is up at no row but `row`.
pub open spec fn raised_only_at(trace: Trace, flag: Selector, row: int) -> bool {
    forall|other: int| trace.enabled.contains((flag, other)) ==> other == row
}

/// The trace after one write into the region that begins at row `start`. A
/// write without a value leaves the trace as it is.
pub open spec fn assign(
    trace: Trace,
    columns: Seq<AdviceColumn>,
    start: int,
    cell: CellModel,
) -> Trace {
    match cell.value {
        Some(v) => Trace {
            advice: trace.advice.insert(cell_key(columns, start, cell), v),
            enabled: trace.enabled,
        },
        None => trace,
    }
}

/// The trace after the writes of `cells`, made in their order.
pub open spec fn assign_all(
    trace: Trace,
    columns: Seq<AdviceColumn>,
    start: int,
    cells: Seq<CellModel>,
) -> Trace
    decreases cells.len(),
{
    if cells.len() == 0 {
        trace
    } else {
        assign(assign_all(trace, columns, start, cells.drop_last()), columns, start, cells.last())
    }
}

/// The trace that the assignment of one witness leaves behind in an empty
/// region that begins at row `start`: the flag up at the limb row, and the
/// cells of the witness.
pub open spec fn witness_trace(
    columns: Seq<AdviceColumn>,
    flag: Selector,
    start: int,
    value: Option<nat>,
    limbs: Option<Seq<nat>>,
) -> Trace {
    assign_all(
        Trace { advice: Map::empty(), enabled: set![(flag, start + LIMB_ROW)] },
        columns,
        start,
        witness_cells(value, limbs),
    )
}

/// No two writes of `cells` address the same cell.
pub open spec fn distinct_cells(
    columns: Seq<AdviceColumn>,
    start: int,
    cells: Seq<CellModel>,
) -> bool {
    forall|i: int, j: int|
        0 <= i < j < cells.len() ==> cell_key(columns, start, #[trigger] cells[i]) != cell_key(
            columns,
            start,
            #[trigger] cells[j],
        )
}

/// Writes to distinct cells leave every written value in the trace, and the
/// flags as they were.
pub proof fn lemma_assign_all_holds(
    trace: Trace,
    columns: Seq<AdviceColumn>,
    start: int,
    cells: Seq<CellModel>,
)
    requires
        distinct_cells(columns, start, cells),
    ensures
        holds_cells(assign_all(trace, columns, start, cells), columns, start, cells),
        assign_all(trace, columns, start, cells).enabled == trace.enabled,
    decreases cells.len(),
{
    if cells.len() > 0 {
        let front = cells.drop_last();
        let before = assign_all(trace, columns, start, front);
        let after = assign_all(trace, columns, start, cells);
        assert forall|i: int, j: int| 0 <= i < j < front.len() implies cell_key(
            columns,
            start,
            #[trigger] front[i],
        ) != cell_key(columns, start, #[trigger] front[j]) by {
            assert(front[i] == cells[i] && front[j] == cells[j]);
        }
        lemma_assign_all_holds(trace, columns, start, front);
        assert forall|i: int| 0 <= i < cells.len() implies ((#[trigger] cells[i]).value matches Some(
            v,
        ) ==> after.advice.dom().contains(cell_key(columns, start, cells[i]))
            && after.advice[cell_key(columns, start, cells[i])] == v) by {
            if i < cells.len() - 1 {
                assert(front[i] == cells[i]);
                assert(cell_key(columns, start, cells[i]) != cell_key(
                    columns,
                    start,
                    cells[cells.len() - 1],
                ));
            }
        }
    }
}

/// Over four distinct columns, the trace that the assignment of a witness
/// leaves behind carries that witness, with the flag up at its limb row only.
pub proof fn lemma_witness_trace_carries(
    columns: Seq<AdviceColumn>,
    flag: Selector,
    start: int,
    value: nat,
    limbs: Seq<nat>,
)
    requires
        columns.len() == 4,
        limbs.len() == 4,
        forall|i: int, j: int| 0 <= i < j < 4 ==> columns[i] != columns[j],
    ensures
        carries_witness(
            witness_trace(columns, flag, start, Some(value), Some(limbs)),
            columns,
            flag,
            start,
            value,
            limbs,
        ),
        raised_only_at(
            witness_trace(columns, flag, start, Some(value), Some(limbs)),
            flag,
            start + LIMB_ROW,
        ),
{
    let cells = witness_cells(Some(value), Some(limbs));
    let empty = Trace { advice: Map::empty(), enabled: set![(flag, start + LIMB_ROW)] };
    assert forall|i: int, j: int| 0 <= i < j < cells.len() implies cell_key(
        columns,
        start,
        #[trigger] cells[i],
    ) != cell_key(columns, start, #[trigger] cells[j]) by {
        assert(cells[i].column == i % 4 && cells[i].offset == i / 4);
        assert(cells[j].column == j % 4 && cells[j].offset == j / 4);
    }
    lemma_assign_all_holds(empty, columns, start, cells);
}

/// The range gate and the four lookups hold at `row`.
pub open spec fn constraints_hold(
    columns: Seq<AdviceColumn>,
    flag: Selector,
    bits: nat,
    trace: Trace,
    row: int,
) -> bool {
    &&& vanishes(range_gate_poly(columns, flag, bits), trace, row)
    &&& forall|k: int|
        0 <= k < 4 ==> in_table(lookup_poly(#[trigger] columns[k], flag), bits, trace, row)
}

/// The cells of the value and of the limbs, read back from a trace that carries them.
proof fn lemma_witness_read_back(
    trace: Trace,
    columns: Seq<AdviceColumn>,
    flag: Selector,
    start: int,
    value: nat,
    limbs: Seq<nat>,
)
    requires
        carries_witness(trace, columns, flag, start, value, limbs),
    ensures
        trace.advice[(columns[3], start)] == value,
        forall|k: int| 0 <= k < 4 ==> trace.advice[(#[trigger] columns[k], start + 1)] == limbs[k],
        flag_at(flag, trace, start + 1) == 1,
{
    let cells = witness_cells(Some(value), Some(limbs));
    assert(cells[3].value == Some(value));
    assert(cells[4].value == Some(limbs[0]));
    assert(cells[5].value == Some(limbs[1]));
    assert(cells[6].value == Some(limbs[2]));
    assert(cells[7].value == Some(limbs[3]));
}

/// An integer strictly between `-m` and `m` is a multiple of `m` only if it is zero.
proof fn lemma_small_multiple(x: int, m: int)
    requires
        -m < x < m,
        x % m == 0,
    ensures
        x == 0,
{
    if x > 0 {
        lemma_small_mod(x as nat, m as nat);
    } else if x < 0 {
        lemma_mod_add_multiples_vanish(x, m);
        lemma_small_mod((m + x) as nat, m as nat);
    }
}

/// At a row where the flag is down, the range gate and the lookups hold
/// whatever the cells of the row are.
pub proof fn lemma_disabled_row_satisfied(
    columns: Seq<AdviceColumn>,
    flag: Selector,
    bits: nat,
    trace: Trace,
    row: int,
)
    requires
        !trace.enabled.contains((flag, row)),
    ensures
        constraints_hold(columns, flag, bits, trace, row),
{
    lemma_range_gate_value(columns, flag, bits, trace, row);
    lemma_pow2_pos(bits);
    assert forall|k: int| 0 <= k < 4 implies in_table(
        lookup_poly(#[trigger] columns[k], flag),
        bits,
        trace,
        row,
    ) by {
        lemma_lookup_value(columns[k], flag, trace, row);
        assert(range_table(bits)[0] == 0);
    }
}

/// At the limb row of a value inside the range that is assigned with its
/// canonical limbs, the range gate and the lookups hold. Other witnesses in
/// other regions of the trace do not matter.
pub proof fn lemma_limb_row_satisfied(
    columns: Seq<AdviceColumn>,
    flag: Selector,
    bits: nat,
    trace: Trace,
    start: int,
    value: nat,
)
    requires
        range_bound(bits) <= modulus(),
        value < range_bound(bits),
        carries_witness(trace, columns, flag, start, value, canonical_limbs(value, bits)),
    ensures
        constraints_hold(columns, flag, bits, trace, start + LIMB_ROW),
{
    let limbs = canonical_limbs(value, bits);
    let row = start + 1;
    lemma_witness_read_back(trace, columns, flag, start, value, limbs);
    lemma_round_trip(value, bits);
    lemma_pow2_increases(bits, 4 * bits);
    lemma_range_gate_value(columns, flag, bits, trace, row);
    assert(eval(range_gate_poly(columns, flag, bits), trace, row) == 0);
    assert forall|k: int| 0 <= k < 4 implies in_table(
        lookup_poly(#[trigger] columns[k], flag),
        bits,
        trace,
        row,
    ) by {
        lemma_lookup_value(columns[k], flag, trace, row);
        lemma_small_mod(limbs[k], modulus());
        lemma_in_table_below(lookup_poly(columns[k], flag), bits, trace, row);
    }
}

/// A value inside the range, assigned with its canonical limbs and with the
/// flag up at its limb row only, satisfies the range gate and the lookups at
/// every row.
pub proof fn lemma_in_range_satisfied(
    columns: Seq<AdviceColumn>,
    flag: Selector,
    bits: nat,
    trace: Trace,
    start: int,
    value: nat,
)
    requires
        range_bound(bits) <= modulus(),
        value < range_bound(bits),
        carries_witness(trace, columns, flag, start, value, canonical_limbs(value, bits)),
        raised_only_at(trace, flag, start + LIMB_ROW),
    ensures
        forall|row: int| constraints_hold(columns, flag, bits, trace, row),
{
    assert forall|row: int| constraints_hold(columns, flag, bits, trace, row) by {
        if row == start + LIMB_ROW {
            lemma_limb_row_satisfied(columns, flag, bits, trace, start, value);
        } else {
            lemma_disabled_row_satisfied(columns, flag, bits, trace, row);
        }
    }
}

/// A field element at or above the end of the range, assigned with its
/// canonical truncated limbs, leaves the range gate unsatisfied at the limb row.
pub proof fn lemma_out_of_range_unsatisfied(
    columns: Seq<AdviceColumn>,
    flag: Selector,
    bits: nat,
    trace: Trace,
    start: int,
    value: nat,
)
    requires
        range_bound(bits) <= value < modulus(),
        carries_witness(trace, columns, flag, start, value, canonical_limbs(value, bits)),
    ensures
        !vanishes(range_gate_poly(columns, flag, bits), trace, start + LIMB_ROW),
        !constraints_hold(columns, flag, bits, trace, start + LIMB_ROW),
{
    let limbs = canonical_limbs(value, bits);
    let row = start + 1;
    lemma_witness_read_back(trace, columns, flag, start, value, limbs);
    lemma_range_gate_value(columns, flag, bits, trace, row);
    lemma_canonical_limbs_bounded(value, bits);
    lemma_recombine_bounded(limbs, bits);
    let difference = recombine(limbs, bits) - value;
    assert(eval(range_gate_poly(columns, flag, bits), trace, row) == difference);
    if difference % (modulus() as int) == 0 {
        lemma_small_multiple(difference, modulus() as int);
    }
}

/// At a row where the flag is up, a cell that holds a field element at or
/// above `2^bits` fails the lookup of its column, whatever the other cells of
/// the trace hold and whatever the range gate evaluates to.
pub proof fn lemma_wide_cell_unsatisfied(
    column: AdviceColumn,
    flag: Selector,
    bits: nat,
    trace: Trace,
    row: int,
)
    requires
        trace.enabled.contains((flag, row)),
        pow2(bits) <= trace.advice[(column, row)] < modulus(),
    ensures
        !in_table(lookup_poly(column, flag), bits, trace, row),
{
    lemma_lookup_value(column, flag, trace, row);
    lemma_small_mod(trace.advice[(column, row)], modulus());
    lemma_in_table_below(lookup_poly(column, flag), bits, trace, row);
}

/// A limb at or above `2^bits` leaves the lookup of its column unsatisfied at
/// the limb row, whatever the value and the other limbs are.
pub proof fn lemma_wide_limb_unsatisfied(
    columns: Seq<AdviceColumn>,
    flag: Selector,
    bits: nat,
    trace: Trace,
    start: int,
    value: nat,
    limbs: Seq<nat>,
    k: int,
)
    requires
        0 <= k < 4,
        carries_witness(trace, columns, flag, start, value, limbs),
        pow2(bits) <= limbs[k] < modulus(),
    ensures
        !in_table(lookup_poly(columns[k], flag), bits, trace, start + LIMB_ROW),
        !constraints_hold(columns, flag, bits, trace, start + LIMB_ROW),
{
    lemma_witness_read_back(trace, columns, flag, start, value, limbs);
    lemma_wide_cell_unsatisfied(columns[k], flag, bits, trace, start + 1);
}

/// Where the range gate and the lookups hold at the limb row of a witness of field
/// elements, the value lies inside the range and the limbs are its canonical ones.
pub proof fn lemma_satisfied_in_range(
    columns: Seq<AdviceColumn>,
    flag: Selector,
    bits: nat,
    trace: Trace,
    start: int,
    value: nat,
    limbs: Seq<nat>,
)
    requires
        range_bound(bits) <= modulus(),
        value < modulus(),
        forall|k: int| 0 <= k < 4 ==> limbs[k] < modulus(),
        carries_witness(trace, columns, flag, start, value, limbs),
        constraints_hold(columns, flag, bits, trace, start + LIMB_ROW),
    ensures
        value < range_bound(bits),
        limbs == canonical_limbs(value, bits),
{
    let row = start + 1;
    lemma_witness_read_back(trace, columns, flag, start, value, limbs);
    lemma_pow2_increases(bits, 4 * bits);
    assert forall|k: int| 0 <= k < 4 implies limbs[k] < pow2(bits) by {
        assert(in_table(lookup_poly(columns[k], flag), bits, trace, row));
        lemma_lookup_value(columns[k], flag, trace, row);
        lemma_small_mod(limbs[k], modulus());
        lemma_in_table_below(lookup_poly(columns[k], flag), bits, trace, row);
    }
    assert(limbs_bounded(limbs, bits));
    lemma_recombine_bounded(limbs, bits);
    lemma_range_gate_value(columns, flag, bits, trace, row);
    let difference = recombine(limbs, bits) - value;
    assert(eval(range_gate_poly(columns, flag, bits), trace, row) == difference);
    lemma_small_multiple(difference, modulus() as int);
    lemma_recombine_unique(limbs, bits);
}

/// The gadget accepts every value inside the range: assigned with its
/// canonical limbs over four distinct columns, the value leaves a trace on
/// which the range gate and the lookups hold at every row.
pub proof fn lemma_gadget_accepts_in_range(
    columns: Seq<AdviceColumn>,
    flag: Selector,
    bits: nat,
    start: int,
    value: nat,
)
    requires
        range_bound(bits) <= modulus(),
        columns.len() == 4,
        forall|i: int, j: int| 0 <= i < j < 4 ==> columns[i] != columns[j],
        value < range_bound(bits),
    ensures
        forall|row: int|
            constraints_hold(
                columns,
                flag,
                bits,
                witness_trace(columns, flag, start, Some(value), Some(canonical_limbs(value, bits))),
                row,
            ),
{
    let limbs = canonical_limbs(value, bits);
    let trace = witness_trace(columns, flag, start, Some(value), Some(limbs));
    lemma_witness_trace_carries(columns, flag, start, value, limbs);
    lemma_in_range_satisfied(columns, flag, bits, trace, start, value);
}

/// The gadget rejects every field element at or above the end of the range:
/// assigned with its canonical truncated limbs over four distinct columns, it
/// leaves a trace on which the range gate fails at the limb row.
pub proof fn lemma_gadget_rejects_out_of_range(
    columns: Seq<AdviceColumn>,
    flag: Selector,
    bits: nat,
    start: int,
    value: nat,
)
    requires
        columns.len() == 4,
        forall|i: int, j: int| 0 <= i < j < 4 ==> columns[i] != columns[j],
        range_bound(bits) <= value < modulus(),
    ensures
        !vanishes(
            range_gate_poly(columns, flag, bits),
            witness_trace(columns, flag, start, Some(value), Some(canonical_limbs(value, bits))),
            start + LIMB_ROW,
        ),
{
    let limbs = canonical_limbs(value, bits);
    let trace = witness_trace(columns, flag, start, Some(value), Some(limbs));
    lemma_witness_trace_carries(columns, flag, start, value, limbs);
    lemma_out_of_range_unsatisfied(columns, flag, bits, trace, start, value);
}

/// The gadget rejects every limb at or above `2^bits`: assigned over four
/// distinct columns, such a limb fails the lookup of its column at the limb
/// row, whatever the value and the other limbs are.
pub proof fn lemma_gadget_rejects_wide_limb(
    columns: Seq<AdviceColumn>,
    flag: Selector,
    bits: nat,
    start: int,
    value: nat,
    limbs: Seq<nat>,
    k: int,
)
    requires
        columns.len() == 4,
        forall|i: int, j: int| 0 <= i < j < 4 ==> columns[i] != columns[j],
        limbs.len() == 4,
        0 <= k < 4,
        pow2(bits) <= limbs[k] < modulus(),
    ensures
        !in_table(
            lookup_poly(columns[k], flag),
            bits,
            witness_trace(columns, flag, start, Some(value), Some(limbs)),
            start + LIMB_ROW,
        ),
{
    let trace = witness_trace(columns, flag, start, Some(value), Some(limbs));
    lemma_witness_trace_carries(columns, flag, start, value, limbs);
    lemma_wide_limb_unsatisfied(columns, flag, bits, trace, start, value, limbs, k);
}

} // verus!
