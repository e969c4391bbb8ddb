//! The boundary to the proving framework: its types, and one function of this
//! module for each of its operations that the gadget calls. Nothing in here is
//! proved; each contract states what the framework's own code does.
//!
//! The framework's generic types are bounded by its own traits, which cannot
//! be declared here; each of them is held in a handle with one public field,
//! so that code around the library can wrap and unwrap it.

use vstd::prelude::*;
use halo2_proofs::circuit::{Region, Table};
use halo2_proofs::pasta::Fp;
use halo2_proofs::plonk::{
    Advice, Column, ConstraintSystem, Error, Expression, Selector, TableColumn, VirtualCells,
};
use halo2_proofs::poly::Rotation;
use crate::gate::{lookup_input, range_gate};
use crate::limbs::supported_bits;
use crate::poly::{has_simple_selector, lookup_poly, range_gate_poly, Poly};

verus! {

/// `plonk::Selector`, the enable flag of a gate. Carried through as it is.
#[verifier::external_type_specification]
#[verifier::external_body]
pub struct ExSelector(Selector);

/// `plonk::TableColumn`, a fixed column of a lookup table. Carried through as it is.
#[verifier::external_type_specification]
#[verifier::external_body]
pub struct ExTableColumn(TableColumn);

/// `pasta::Fp`, an element of the Pallas base field. Only built at the calls
/// that need one.
#[verifier::external_type_specification]
#[verifier::external_body]
pub struct ExFp(Fp);

/// `plonk::Error`, what the framework refuses an operation with.
#[verifier::external_type_specification]
#[verifier::external_body]
pub struct ExError(Error);

/// `plonk::Expression`, a polynomial as the framework stores it.
#[verifier::external_type_specification]
#[verifier::external_body]
#[verifier::reject_recursive_types(F)]
pub struct ExExpression<F>(Expression<F>);

/// A witness column, `Column<Advice>` of the framework.
#[verifier::external_body]
#[derive(Debug)]
pub struct AdviceColumn {
    pub inner: Column<Advice>,
}

/// The constraint system under construction, `ConstraintSystem<Fp>`.
#[verifier::external_body]
pub struct ConstraintSystemHandle<'a> {
    pub inner: &'a mut ConstraintSystem<Fp>,
}

/// The cells that a gate or lookup under construction may query, `VirtualCells<Fp>`.
#[verifier::external_body]
pub struct VirtualCellsHandle<'a, 'b> {
    pub inner: &'a mut VirtualCells<'b, Fp>,
}

/// A span of trace rows open for assignment, `Region<Fp>`.
#[verifier::external_body]
pub struct RegionHandle<'a, 'r> {
    pub inner: &'a mut Region<'r, Fp>,
}

/// A lookup table open for assignment, `Table<Fp>`.
#[verifier::external_body]
pub struct TableHandle<'r> {
    pub inner: Table<'r, Fp>,
}

/// Whether a flag is "simple", as `Selector::is_simple` reports it.
pub uninterp spec fn selector_is_simple(selector: Selector) -> bool;

/// The position of a witness column among those of its constraint system.
pub uninterp spec fn advice_index(column: AdviceColumn) -> nat;

/// The number of witness columns that a constraint system has allocated.
pub uninterp spec fn advice_count(meta: ConstraintSystemHandle<'_>) -> nat;

/// The number of witness columns of the constraint system behind `cells`.
pub uninterp spec fn queryable_advice(cells: VirtualCellsHandle<'_, '_>) -> nat;

/// The position of a flag among those of its constraint system.
pub uninterp spec fn selector_index(selector: Selector) -> nat;

/// The number of flags that a constraint system has allocated.
pub uninterp spec fn selector_count(meta: ConstraintSystemHandle<'_>) -> nat;

/// The position, among the fixed columns of its constraint system, of the
/// column that holds a lookup table.
pub uninterp spec fn table_index(column: TableColumn) -> nat;

/// The number of fixed columns that a constraint system has allocated.
pub uninterp spec fn fixed_count(meta: ConstraintSystemHandle<'_>) -> nat;

/// The number of flags of the constraint system whose trace a region writes.
pub uninterp spec fn region_selectors(region: RegionHandle<'_, '_>) -> nat;

/// The number of rows, counted from the first row of a region, at which the
/// backend behind the region can be asked to raise a flag: the rows that are
/// left in its trace where it indexes them as they come, and more than any
/// offset where it checks the row first and answers with an error.
pub uninterp spec fn region_rows(region: RegionHandle<'_, '_>) -> nat;

/// The polynomial that an expression of the framework denotes.
pub uninterp spec fn poly_of(expression: Expression<Fp>) -> Poly;

/// The gates of a constraint system in the order of their registration, each
/// as the list of its polynomials.
pub uninterp spec fn gates_of(meta: ConstraintSystemHandle<'_>) -> Seq<Seq<Poly>>;

/// The lookups of a constraint system in the order of their registration, each
/// as its input and the table column that the input must occur in.
pub uninterp spec fn lookups_of(meta: ConstraintSystemHandle<'_>) -> Seq<(Poly, TableColumn)>;

/// Two states of a constraint system with the same gates and lookups.
pub open spec fn same_constraints(
    before: ConstraintSystemHandle<'_>,
    after: ConstraintSystemHandle<'_>,
) -> bool {
    &&& gates_of(after) == gates_of(before)
    &&& lookups_of(after) == lookups_of(before)
}

/// Two states of a constraint system with the same numbers of witness
/// columns, flags and fixed columns.
pub open spec fn same_columns(
    before: ConstraintSystemHandle<'_>,
    after: ConstraintSystemHandle<'_>,
) -> bool {
    &&& advice_count(after) == advice_count(before)
    &&& selector_count(after) == selector_count(before)
    &&& fixed_count(after) == fixed_count(before)
}

/// Whether an error is the framework's `Error::Synthesis`.
pub uninterp spec fn is_synthesis(error: Error) -> bool;

/// What a region answers when it is asked to raise `selector` at `offset`,
/// and the region after the request.
pub uninterp spec fn enabling(region: RegionHandle<'_, '_>, selector: Selector, offset: usize) -> (
    Result<(), Error>,
    RegionHandle<'static, 'static>,
);

/// What a region answers when it is asked to assign the witness cell of
/// `column` at `offset` under the name `annotation`, and the region after the
/// request. The value is given by its four words, least significant first.
pub uninterp spec fn assigning(
    region: RegionHandle<'_, '_>,
    annotation: Seq<char>,
    column: AdviceColumn,
    offset: usize,
    value: Option<Seq<u64>>,
) -> (Result<(), Error>, RegionHandle<'static, 'static>);

/// What a table answers when it is asked to hold the field element of `value`
/// at `offset` of `column`, and the table after the request.
pub uninterp spec fn filling(
    table: TableHandle<'_>,
    column: TableColumn,
    offset: usize,
    value: u64,
) -> (Result<(), Error>, TableHandle<'static>);

/// The words of a value, where there is one.
pub open spec fn words_view(value: Option<[u64; 4]>) -> Option<Seq<u64>> {
    match value {
        Some(words) => Some(words@),
        None => None,
    }
}

impl Clone for AdviceColumn {
    /// `Column<Advice>` is `Copy`: the clone is the same column.
    #[verifier::external_body]
    fn clone(&self) -> (r: Self)
        ensures
            r == *self,
    {
        AdviceColumn { inner: self.inner }
    }
}

impl Copy for AdviceColumn {}

/// `ConstraintSystem::advice_column`: allocates the next witness column. Its
/// index is the number of columns allocated before. Flags, fixed columns,
/// gates and lookups stay as they are.
#[verifier::external_body]
pub(crate) fn advice_column(meta: &mut ConstraintSystemHandle<'_>) -> (column: AdviceColumn)
    ensures
        advice_index(column) == advice_count(*old(meta)),
        advice_count(*final(meta)) == advice_count(*old(meta)) + 1,
        selector_count(*final(meta)) == selector_count(*old(meta)),
        fixed_count(*final(meta)) == fixed_count(*old(meta)),
        same_constraints(*old(meta), *final(meta)),
{
    AdviceColumn { inner: meta.inner.advice_column() }
}

/// `ConstraintSystem::complex_selector`: allocates the next flag, one that is
/// not simple. Its index is the number of flags allocated before. Witness
/// columns, fixed columns, gates and lookups stay as they are.
#[verifier::external_body]
pub(crate) fn complex_selector(meta: &mut ConstraintSystemHandle<'_>) -> (selector: Selector)
    ensures
        !selector_is_simple(selector),
        selector_index(selector) == selector_count(*old(meta)),
        selector_count(*final(meta)) == selector_count(*old(meta)) + 1,
        advice_count(*final(meta)) == advice_count(*old(meta)),
        fixed_count(*final(meta)) == fixed_count(*old(meta)),
        same_constraints(*old(meta), *final(meta)),
{
    meta.inner.complex_selector()
}

/// `ConstraintSystem::lookup_table_column`: allocates the next fixed column,
/// for a lookup table. Its index is the number of fixed columns allocated
/// before. Witness columns, flags, gates and lookups stay as they are.
#[verifier::external_body]
pub(crate) fn lookup_table_column(meta: &mut ConstraintSystemHandle<'_>) -> (column: TableColumn)
    ensures
        table_index(column) == fixed_count(*old(meta)),
        fixed_count(*final(meta)) == fixed_count(*old(meta)) + 1,
        advice_count(*final(meta)) == advice_count(*old(meta)),
        selector_count(*final(meta)) == selector_count(*old(meta)),
        same_constraints(*old(meta), *final(meta)),
{
    meta.inner.lookup_table_column()
}

/// `ConstraintSystem::lookup` with the table map of [`lookup_input`]: appends
/// one lookup, of the input that the map names against its table column. The
/// framework panics on an input with a simple flag, and on a query of a column
/// that it did not allocate; the cells it hands to the closure are those of
/// `meta`. Witness columns, flags, fixed columns and gates stay as they are.
#[verifier::external_body]
pub(crate) fn add_lookup(
    meta: &mut ConstraintSystemHandle<'_>,
    column: AdviceColumn,
    selector: Selector,
    table: TableColumn,
)
    requires
        !selector_is_simple(selector),
        advice_index(column) < advice_count(*old(meta)),
    ensures
        same_columns(*old(meta), *final(meta)),
        gates_of(*final(meta)) == gates_of(*old(meta)),
        lookups_of(*final(meta)) == lookups_of(*old(meta)).push(
            (lookup_poly(column, selector), table),
        ),
{
    meta.inner.lookup(
        |cells| lookup_input(&mut VirtualCellsHandle { inner: cells }, column, selector, table),
    );
}

/// `ConstraintSystem::create_gate` with the name "range" and the constraints of
/// [`range_gate`]: appends one gate, of the polynomials that the closure
/// returns. The framework panics on an empty list of constraints and on a
/// query of a column that it did not allocate; the cells it hands to the
/// closure are those of `meta`. Witness columns, flags, fixed columns and
/// lookups stay as they are.
#[verifier::external_body]
pub(crate) fn add_range_gate(
    meta: &mut ConstraintSystemHandle<'_>,
    columns: [AdviceColumn; 4],
    selector: Selector,
    bits: usize,
)
    requires
        supported_bits(bits as nat),
        !selector_is_simple(selector),
        forall|k: int| 0 <= k < 4 ==> advice_index(#[trigger] columns[k]) < advice_count(*old(meta)),
    ensures
        same_columns(*old(meta), *final(meta)),
        gates_of(*final(meta)) == gates_of(*old(meta)).push(
            seq![range_gate_poly(columns@, selector, bits as nat)],
        ),
        lookups_of(*final(meta)) == lookups_of(*old(meta)),
{
    meta.inner.create_gate(
        "range",
        |cells| range_gate(&mut VirtualCellsHandle { inner: cells }, columns, selector, bits),
    );
}

/// `VirtualCells::query_selector`: the expression of a flag at the current row.
#[verifier::external_body]
pub(crate) fn query_selector(cells: &mut VirtualCellsHandle<'_, '_>, selector: Selector) -> (e:
    Expression<Fp>)
    ensures
        poly_of(e) == Poly::Selector(selector),
        queryable_advice(*final(cells)) == queryable_advice(*old(cells)),
{
    cells.inner.query_selector(selector)
}

/// `VirtualCells::query_advice`: the expression of a witness cell, `rotation`
/// rows from the current one. The framework indexes its per-column counters by
/// the column, so the column must be one that it allocated.
#[verifier::external_body]
pub(crate) fn query_advice(
    cells: &mut VirtualCellsHandle<'_, '_>,
    column: AdviceColumn,
    rotation: i32,
) -> (e: Expression<Fp>)
    requires
        advice_index(column) < queryable_advice(*old(cells)),
    ensures
        poly_of(e) == (Poly::Advice { column, rotation: rotation as int }),
        queryable_advice(*final(cells)) == queryable_advice(*old(cells)),
{
    cells.inner.query_advice(column.inner, Rotation(rotation))
}

/// `Expression * Expression`: the product node. The framework panics where
/// both factors hold a simple flag.
#[verifier::external_body]
pub(crate) fn product(a: Expression<Fp>, b: Expression<Fp>) -> (e: Expression<Fp>)
    requires
        !(has_simple_selector(poly_of(a)) && has_simple_selector(poly_of(b))),
    ensures
        poly_of(e) == Poly::Product(Box::new(poly_of(a)), Box::new(poly_of(b))),
{
    a * b
}

/// `Expression + Expression`: the sum node. The framework panics where a term
/// holds a simple flag.
#[verifier::external_body]
pub(crate) fn sum(a: Expression<Fp>, b: Expression<Fp>) -> (e: Expression<Fp>)
    requires
        !has_simple_selector(poly_of(a)),
        !has_simple_selector(poly_of(b)),
    ensures
        poly_of(e) == Poly::Sum(Box::new(poly_of(a)), Box::new(poly_of(b))),
{
    a + b
}

/// `Expression - Expression`: the sum of the first and the negated second. The
/// framework panics where a term holds a simple flag.
#[verifier::external_body]
pub(crate) fn difference(a: Expression<Fp>, b: Expression<Fp>) -> (e: Expression<Fp>)
    requires
        !has_simple_selector(poly_of(a)),
        !has_simple_selector(poly_of(b)),
    ensures
        poly_of(e) == Poly::Sum(
            Box::new(poly_of(a)),
            Box::new(Poly::Negated(Box::new(poly_of(b)))),
        ),
{
    a - b
}

/// `Expression * Fp`, with `Fp::from(u64)` for the factor: the expression
/// scaled by the field element of `factor`.
#[verifier::external_body]
pub(crate) fn scaled(a: Expression<Fp>, factor: u64) -> (e: Expression<Fp>)
    ensures
        poly_of(e) == Poly::Scaled(Box::new(poly_of(a)), factor as nat),
{
    a * Fp::from(factor)
}

/// `Selector::enable`: asks the region to raise the flag at `offset`. What
/// comes back is the region's answer. The answer and what becomes of the
/// region are up to the layouter behind the region, and depend on nothing but
/// the region and the request.
///
/// The backends keep one vector of booleans for each flag of the constraint
/// system and index them by the flag, so the flag must be one of that
/// constraint system. The mock prover and key generation answer a row out of
/// range with an error; the cost model indexes the row as it comes, and panics
/// where the circuit does not fit its rows. Neither number changes.
#[verifier::external_body]
pub(crate) fn enable_selector(
    region: &mut RegionHandle<'_, '_>,
    selector: Selector,
    offset: usize,
) -> (r: Result<(), Error>)
    requires
        selector_index(selector) < region_selectors(*old(region)),
        offset < region_rows(*old(region)),
    ensures
        r == enabling(*old(region), selector, offset).0,
        *final(region) == enabling(*old(region), selector, offset).1,
        region_selectors(*final(region)) == region_selectors(*old(region)),
        region_rows(*final(region)) == region_rows(*old(region)),
{
    selector.enable(region.inner, offset)
}

/// `Region::assign_advice`: asks the region to assign a witness cell. The value
/// goes as `Fp::from_raw` of its words; an absent one goes as the framework's
/// missing-witness error, which a region that needs the value hands back. What
/// comes back is the region's answer. The answer and what becomes of the
/// region are up to the layouter behind the region, and depend on nothing but
/// the region and the request. No backend indexes the column or the row of
/// this request unchecked: one that is out of range comes back as an error.
/// The numbers of flags and of rows stay as they are.
#[verifier::external_body]
pub(crate) fn assign_advice(
    region: &mut RegionHandle<'_, '_>,
    annotation: &'static str,
    column: AdviceColumn,
    offset: usize,
    value: Option<[u64; 4]>,
) -> (r: Result<(), Error>)
    ensures
        r == assigning(*old(region), annotation@, column, offset, words_view(value)).0,
        *final(region) == assigning(
            *old(region),
            annotation@,
            column,
            offset,
            words_view(value),
        ).1,
        region_selectors(*final(region)) == region_selectors(*old(region)),
        region_rows(*final(region)) == region_rows(*old(region)),
{
    region.inner.assign_advice(
        || annotation,
        column.inner,
        offset,
        || value.map(Fp::from_raw).ok_or(Error::Synthesis),
    ).map(|_| ())
}

/// `Table::assign_cell`: asks the table to hold `Fp::from(value)` at `offset`
/// of `column`. What comes back is the table's answer. The answer and what
/// becomes of the table are up to the layouter behind the table, and depend on
/// nothing but the table and the request.
#[verifier::external_body]
pub(crate) fn assign_table_cell(
    table: &mut TableHandle<'_>,
    column: TableColumn,
    offset: usize,
    value: u64,
) -> (r: Result<(), Error>)
    ensures
        r == filling(*old(table), column, offset, value).0,
        *final(table) == filling(*old(table), column, offset, value).1,
{
    table.inner.assign_cell(|| "small range table", column, offset, || Ok(Fp::from(value)))
}

/// Tells `Error::Synthesis` from the other errors of the framework.
#[verifier::external_body]
pub(crate) fn error_is_synthesis(error: &Error) -> (r: bool)
    ensures
        r == is_synthesis(*error),
{
    matches!(error, Error::Synthesis)
}

} // verus!
