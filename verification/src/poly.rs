//! The constraint polynomials of the gadget and what they evaluate to on a trace.

use vstd::prelude::*;
use vstd::arithmetic::div_mod::lemma_small_mod;
use vstd::arithmetic::power2::pow2;
use halo2_proofs::plonk::Selector;
use crate::field::modulus;
use crate::halo::{selector_is_simple, AdviceColumn};
use crate::table::range_table;

verus! {

/// A polynomial over the cells of an execution trace, addressed relative to
/// the row at which it is evaluated.
pub enum Poly {
    /// The enable flag of a gate at the current row: `1` where enabled, else `0`.
    Selector(Selector),
    /// The cell of a witness column, `rotation` rows below the current one.
    Advice { column: AdviceColumn, rotation: int },
    /// The additive inverse of a polynomial.
    Negated(Box<Poly>),
    /// The sum of two polynomials.
    Sum(Box<Poly>, Box<Poly>),
    /// The product of two polynomials.
    Product(Box<Poly>, Box<Poly>),
    /// A polynomial multiplied by a constant.
    Scaled(Box<Poly>, nat),
}

/// The cells that were assigned and the rows at which flags were raised.
pub struct Trace {
    /// Canonical integer of each assigned witness cell, by column and row.
    pub advice: Map<(AdviceColumn, int), nat>,
    /// The (flag, row) pairs at which a gate-enable flag is set.
    pub enabled: Set<(Selector, int)>,
}

/// The integer that `p` takes at `row` of `trace`, before reduction modulo the field.
pub open spec fn eval(p: Poly, trace: Trace, row: int) -> int
    decreases p,
{
    match p {
        Poly::Selector(s) => if trace.enabled.contains((s, row)) {
            1
        } else {
            0
        },
        Poly::Advice { column, rotation } => trace.advice[(column, row + rotation)] as int,
        Poly::Negated(a) => -eval(*a, trace, row),
        Poly::Sum(a, b) => eval(*a, trace, row) + eval(*b, trace, row),
        Poly::Product(a, b) => eval(*a, trace, row) * eval(*b, trace, row),
        Poly::Scaled(a, k) => eval(*a, trace, row) * k,
    }
}

/// Whether a flag that may not be added to, nor multiplied with its like, occurs in `p`.
pub open spec fn has_simple_selector(p: Poly) -> bool
    decreases p,
{
    match p {
        Poly::Selector(s) => selector_is_simple(s),
        Poly::Advice { .. } => false,
        Poly::Negated(a) => has_simple_selector(*a),
        Poly::Sum(a, b) => has_simple_selector(*a) || has_simple_selector(*b),
        Poly::Product(a, b) => has_simple_selector(*a) || has_simple_selector(*b),
        Poly::Scaled(a, _) => has_simple_selector(*a),
    }
}

/// A gate holds at a row where its polynomial is zero in the field.
pub open spec fn vanishes(p: Poly, trace: Trace, row: int) -> bool {
    eval(p, trace, row) % (modulus() as int) == 0
}

/// A lookup holds at a row where its input, as a field element, is an entry
/// of the table for limbs of `bits` bits.
pub open spec fn in_table(p: Poly, bits: nat, trace: Trace, row: int) -> bool {
    exists|i: int|
        0 <= i < range_table(bits).len() && eval(p, trace, row) % (modulus() as int) == (
        #[trigger] range_table(bits)[i]) as int % (modulus() as int)
}

/// Where the table is no longer than the field, an input is in the table if
/// and only if its field element lies below `2^bits`.
pub proof fn lemma_in_table_below(p: Poly, bits: nat, trace: Trace, row: int)
    requires
        pow2(bits) <= modulus(),
    ensures
        in_table(p, bits, trace, row) <==> eval(p, trace, row) % (modulus() as int) < pow2(bits),
{
    let m = modulus() as int;
    let x = eval(p, trace, row) % m;
    let table = range_table(bits);
    if x < pow2(bits) {
        assert(table[x] as int == x);
        lemma_small_mod(x as nat, m as nat);
    }
    if in_table(p, bits, trace, row) {
        let i = choose|i: int|
            0 <= i < table.len() && eval(p, trace, row) % m == (#[trigger] table[i]) as int % m;
        assert(table[i] as int == i);
        lemma_small_mod(i as nat, m as nat);
    }
}

/// The cell of `column` in the current row.
pub open spec fn current(column: AdviceColumn) -> Poly {
    Poly::Advice { column, rotation: 0 }
}

/// The cell of `column` one row above.
pub open spec fn previous(column: AdviceColumn) -> Poly {
    Poly::Advice { column, rotation: -1 }
}

/// The input of the lookup that bounds `column`: `column · flag`.
pub open spec fn lookup_poly(column: AdviceColumn, flag: Selector) -> Poly {
    Poly::Product(Box::new(current(column)), Box::new(Poly::Selector(flag)))
}

/// The weighted sum of the four limb cells: `a + b·2^bits + c·2^(2·bits) + d·2^(3·bits)`.
pub open spec fn limb_sum_poly(columns: Seq<AdviceColumn>, bits: nat) -> Poly {
    let a = current(columns[0]);
    let b = Poly::Scaled(Box::new(current(columns[1])), pow2(bits));
    let c = Poly::Scaled(Box::new(current(columns[2])), pow2(2 * bits));
    let d = Poly::Scaled(Box::new(current(columns[3])), pow2(3 * bits));
    Poly::Sum(
        Box::new(Poly::Sum(Box::new(Poly::Sum(Box::new(a), Box::new(b))), Box::new(c))),
        Box::new(d),
    )
}

/// The range gate: `flag · (a + b·2^bits + c·2^(2·bits) + d·2^(3·bits) − d_prev)`,
/// where `d_prev` is column `d` one row above.
pub open spec fn range_gate_poly(columns: Seq<AdviceColumn>, flag: Selector, bits: nat) -> Poly {
    Poly::Product(
        Box::new(Poly::Selector(flag)),
        Box::new(
            Poly::Sum(
                Box::new(limb_sum_poly(columns, bits)),
                Box::new(Poly::Negated(Box::new(previous(columns[3])))),
            ),
        ),
    )
}

/// The value of the flag at a row.
pub open spec fn flag_at(flag: Selector, trace: Trace, row: int) -> int {
    eval(Poly::Selector(flag), trace, row)
}

/// The range gate evaluates to the flag times the difference between the
/// recombined limbs of the row and the cell above the top limb.
pub proof fn lemma_range_gate_value(
    columns: Seq<AdviceColumn>,
    flag: Selector,
    bits: nat,
    trace: Trace,
    row: int,
)
    ensures
        eval(range_gate_poly(columns, flag, bits), trace, row) == flag_at(flag, trace, row) * (
        trace.advice[(columns[0], row)] + trace.advice[(columns[1], row)] * pow2(bits)
            + trace.advice[(columns[2], row)] * pow2(2 * bits) + trace.advice[(columns[3], row)]
            * pow2(3 * bits) - trace.advice[(columns[3], row - 1)]),
{
    reveal_with_fuel(eval, 8);
}

/// The input of a lookup evaluates to the cell times the flag.
pub proof fn lemma_lookup_value(column: AdviceColumn, flag: Selector, trace: Trace, row: int)
    ensures
        eval(lookup_poly(column, flag), trace, row) == trace.advice[(column, row)] * flag_at(
            flag,
            trace,
            row,
        ),
{
    reveal_with_fuel(eval, 3);
}

} // verus!
