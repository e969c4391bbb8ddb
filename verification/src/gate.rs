//! Building the gadget's constraint expressions for the framework.

use vstd::prelude::*;
use halo2_proofs::pasta::Fp;
use halo2_proofs::plonk::{Expression, Selector, TableColumn};
use crate::halo::{
    advice_index, difference, poly_of, product, query_advice, query_selector, queryable_advice,
    scaled, selector_is_simple, sum, AdviceColumn, VirtualCellsHandle,
};
use crate::limbs::{limb_modulus, supported_bits};
use crate::poly::{has_simple_selector, lookup_poly, range_gate_poly};

verus! {

/// The table map of one lookup: the cell of `column` in the current row, times
/// the flag, against `table`.
pub fn lookup_input(
    cells: &mut VirtualCellsHandle<'_, '_>,
    column: AdviceColumn,
    selector: Selector,
    table: TableColumn,
) -> (map: Vec<(Expression<Fp>, TableColumn)>)
    requires
        !selector_is_simple(selector),
        advice_index(column) < queryable_advice(*old(cells)),
    ensures
        map@.len() == 1,
        poly_of(map@[0].0) == lookup_poly(column, selector),
        map@[0].1 == table,
        queryable_advice(*final(cells)) == queryable_advice(*old(cells)),
{
    let cell = query_advice(cells, column, 0);
    let flag = query_selector(cells, selector);
    let input = product(cell, flag);
    vec![(input, table)]
}

/// The constraints of the range gate: the one polynomial
/// `flag · (a + b·2^bits + c·2^(2·bits) + d·2^(3·bits) − d_prev)`.
pub fn range_gate(
    cells: &mut VirtualCellsHandle<'_, '_>,
    columns: [AdviceColumn; 4],
    selector: Selector,
    bits: usize,
) -> (polys: Vec<Expression<Fp>>)
    requires
        supported_bits(bits as nat),
        !selector_is_simple(selector),
        forall|k: int|
            0 <= k < 4 ==> advice_index(#[trigger] columns[k]) < queryable_advice(*old(cells)),
    ensures
        polys@.len() == 1,
        poly_of(polys@[0]) == range_gate_poly(columns@, selector, bits as nat),
        queryable_advice(*final(cells)) == queryable_advice(*old(cells)),
{
    let flag = query_selector(cells, selector);
    let a = query_advice(cells, columns[0], 0);
    let b = query_advice(cells, columns[1], 0);
    let c = query_advice(cells, columns[2], 0);
    let d_prev = query_advice(cells, columns[3], -1);
    let d = query_advice(cells, columns[3], 0);

    let u1 = limb_modulus(bits);
    let u2 = limb_modulus(2 * bits);
    let u3 = limb_modulus(3 * bits);

    proof {
        reveal_with_fuel(has_simple_selector, 6);
    }
    let limbs = sum(sum(sum(a, scaled(b, u1)), scaled(c, u2)), scaled(d, u3));
    let expression = product(flag, difference(limbs, d_prev));
    vec![expression]
}

} // verus!
