//! The range chip: its configuration, and the assignment of one witness.

use vstd::prelude::*;
use halo2_proofs::plonk::{Selector, TableColumn};
use crate::error::{assignment_failure, failure_of, RangeError};
use crate::field::{words_of, FieldValue};
use crate::halo::{
    add_lookup, add_range_gate, advice_column, advice_count, advice_index, assign_advice,
    assign_table_cell, assigning, complex_selector, enable_selector, enabling, filling,
    fixed_count, gates_of, lookup_table_column, lookups_of, region_rows, region_selectors,
    selector_count,
    selector_index, selector_is_simple, table_index, AdviceColumn, ConstraintSystemHandle,
    RegionHandle, TableHandle,
};
use crate::limbs::{supported_bits, values_of};
use crate::poly::{lookup_poly, range_gate_poly};
use crate::table::{small_range_table, small_range_table_values};

verus! {

/// A cell of the trace: a witness column and a row.
#[derive(Clone, Copy, Debug)]
pub struct Variable(pub AdviceColumn, pub usize);

/// How the gadget is wired into a constraint system.
#[derive(Debug)]
pub struct RangeConfig {
    a: AdviceColumn,
    b: AdviceColumn,
    c: AdviceColumn,
    d: AdviceColumn,
    s_range: Selector,
    small_range_table: TableColumn,
    small_range_table_values: Vec<u64>,
}

/// One write of a witness cell, relative to the first row of a region.
#[derive(Clone, Copy, Debug)]
pub struct CellAssignment {
    /// Which of the four limb columns `a, b, c, d` is written: `0` to `3`.
    pub column: usize,
    /// The row, counted from the first row of the region.
    pub offset: usize,
    /// The value to write, where the caller has one.
    pub value: Option<FieldValue>,
}

/// What a [`CellAssignment`] stands for.
pub struct CellModel {
    /// Index of the limb column.
    pub column: int,
    /// Row within the region.
    pub offset: int,
    /// Canonical integer of the value, where there is one.
    pub value: Option<nat>,
}

impl View for CellAssignment {
    type V = CellModel;

    open spec fn view(&self) -> CellModel {
        CellModel {
            column: self.column as int,
            offset: self.offset as int,
            value: integer_of(self.value),
        }
    }
}

/// The integer of a value, where it is present.
pub open spec fn integer_of(value: Option<FieldValue>) -> Option<nat> {
    match value {
        Some(v) => Some(v@),
        None => None,
    }
}

/// The integers of four limbs, where they are present.
pub open spec fn integers_of(limbs: Option<[FieldValue; 4]>) -> Option<Seq<nat>> {
    match limbs {
        Some(l) => Some(values_of(l)),
        None => None,
    }
}

/// Limb `k`, where the limbs are present.
pub open spec fn limb_at(limbs: Option<Seq<nat>>, k: int) -> Option<nat> {
    match limbs {
        Some(l) => Some(l[k]),
        None => None,
    }
}

/// The row of a region, counted from its first, that holds the limbs and at
/// which the range gate is enabled.
pub const LIMB_ROW: usize = 1;

/// The cells of one witness in the order of their assignment: zeros in
/// `a, b, c` and the value in `d` at the first row of the region, then the four
/// limbs in `a, b, c, d` at the second.
pub open spec fn witness_cells(value: Option<nat>, limbs: Option<Seq<nat>>) -> Seq<CellModel> {
    seq![
        CellModel { column: 0, offset: 0, value: Some(0) },
        CellModel { column: 1, offset: 0, value: Some(0) },
        CellModel { column: 2, offset: 0, value: Some(0) },
        CellModel { column: 3, offset: 0, value },
        CellModel { column: 0, offset: 1, value: limb_at(limbs, 0) },
        CellModel { column: 1, offset: 1, value: limb_at(limbs, 1) },
        CellModel { column: 2, offset: 1, value: limb_at(limbs, 2) },
        CellModel { column: 3, offset: 1, value: limb_at(limbs, 3) },
    ]
}

/// The models of a list of writes.
pub open spec fn models_of(cells: Seq<CellAssignment>) -> Seq<CellModel> {
    Seq::new(cells.len(), |i: int| cells[i]@)
}

/// The writes that assign one witness, in the order in which they are made.
pub fn witness_assignments(value: Option<FieldValue>, limbs: Option<[FieldValue; 4]>) -> (cells:
    Vec<CellAssignment>)
    ensures
        models_of(cells@) == witness_cells(integer_of(value), integers_of(limbs)),
{
    let zero = FieldValue::zero();
    let limb = match limbs {
        Some(l) => [Some(l[0]), Some(l[1]), Some(l[2]), Some(l[3])],
        None => [None, None, None, None],
    };
    let cells = vec![
        CellAssignment { column: 0, offset: 0, value: Some(zero) },
        CellAssignment { column: 1, offset: 0, value: Some(zero) },
        CellAssignment { column: 2, offset: 0, value: Some(zero) },
        CellAssignment { column: 3, offset: 0, value },
        CellAssignment { column: 0, offset: LIMB_ROW, value: limb[0] },
        CellAssignment { column: 1, offset: LIMB_ROW, value: limb[1] },
        CellAssignment { column: 2, offset: LIMB_ROW, value: limb[2] },
        CellAssignment { column: 3, offset: LIMB_ROW, value: limb[3] },
    ];
    assert(models_of(cells@) =~= witness_cells(integer_of(value), integers_of(limbs)));
    cells
}

/// The name under which the framework's diagnostics show the cell of a
/// witness that is written in place `index`.
pub open spec fn cell_name(index: int) -> Seq<char> {
    if index == 0 {
        "0 a"@
    } else if index == 1 {
        "0 b"@
    } else if index == 2 {
        "0 c"@
    } else if index == 3 {
        "integer"@
    } else if index == 4 {
        "limb 0"@
    } else if index == 5 {
        "limb 1"@
    } else if index == 6 {
        "limb 2"@
    } else {
        "limb 3"@
    }
}

/// The words of the value of a write, where it has one.
pub open spec fn words_at(value: Option<nat>) -> Option<Seq<u64>> {
    match value {
        Some(v) => Some(words_of(v)),
        None => None,
    }
}

/// What comes of the writes of `cells` from place `from` on, made in their
/// order into `region` over `columns`: the result, and the region after the
/// last request. A write that the region refuses is the last one; its
/// refusal is reported as [`failure_of`] says.
pub open spec fn cells_written(
    region: RegionHandle<'_, '_>,
    columns: Seq<AdviceColumn>,
    cells: Seq<CellModel>,
    from: int,
) -> (Result<(), RangeError>, RegionHandle<'static, 'static>)
    decreases cells.len() - from,
{
    if 0 <= from < cells.len() {
        let cell = cells[from];
        let request = assigning(
            region,
            cell_name(from),
            columns[cell.column],
            cell.offset as usize,
            words_at(cell.value),
        );
        match request.0 {
            Ok(()) => cells_written(request.1, columns, cells, from + 1),
            Err(e) => (Err(failure_of(cell.value is Some, e)), request.1),
        }
    } else {
        (Ok(()), region)
    }
}

/// What comes of the assignment of one witness into `region`: the flag of
/// `config` is raised at the limb row, then the cells of the witness are
/// written over the columns of `config`. A refusal to raise the flag is the
/// framework's own error, and ends the assignment.
pub open spec fn decomposed(
    region: RegionHandle<'_, '_>,
    config: RangeConfig,
    value: Option<FieldValue>,
    limbs: Option<[FieldValue; 4]>,
) -> (Result<(), RangeError>, RegionHandle<'static, 'static>) {
    let request = enabling(region, config.flag(), LIMB_ROW);
    match request.0 {
        Ok(()) => cells_written(
            request.1,
            config.columns(),
            witness_cells(integer_of(value), integers_of(limbs)),
            0,
        ),
        Err(e) => (Err(RangeError::Circuit(e)), request.1),
    }
}

/// What comes of loading `values` from place `from` on into `table`, entry
/// `i` at row `i` of `column`: the result, and the table after the last
/// request. A cell that the table refuses is the last one.
pub open spec fn table_filled(
    table: TableHandle<'_>,
    column: TableColumn,
    values: Seq<u64>,
    from: int,
) -> (Result<(), RangeError>, TableHandle<'static>)
    decreases values.len() - from,
{
    if 0 <= from < values.len() {
        let request = filling(table, column, from as usize, values[from]);
        match request.0 {
            Ok(()) => table_filled(request.1, column, values, from + 1),
            Err(e) => (Err(RangeError::Circuit(e)), request.1),
        }
    } else {
        (Ok(()), table)
    }
}

/// The requests that loading `values` from place `from` on makes of `table`,
/// in their order: each is a row of `column` and the entry to hold there. The
/// request that the table refuses is the last.
pub open spec fn table_requests(
    table: TableHandle<'_>,
    column: TableColumn,
    values: Seq<u64>,
    from: int,
) -> Seq<(int, u64)>
    decreases values.len() - from,
{
    if 0 <= from < values.len() {
        let request = filling(table, column, from as usize, values[from]);
        let rest = match request.0 {
            Ok(()) => table_requests(request.1, column, values, from + 1),
            Err(_) => Seq::empty(),
        };
        seq![(from, values[from])] + rest
    } else {
        Seq::empty()
    }
}

/// One load asks for each row at most once, in ascending order, and for
/// entry `i` at row `i`; where the table accepts every request, it asks for
/// every row of `values`, so for as many cells as `values` has entries.
pub proof fn lemma_table_requests(
    table: TableHandle<'_>,
    column: TableColumn,
    values: Seq<u64>,
    from: int,
)
    requires
        0 <= from <= values.len(),
    ensures
        table_requests(table, column, values, from).len() <= values.len() - from,
        forall|i: int|
            0 <= i < table_requests(table, column, values, from).len() ==> (#[trigger] table_requests(
                table,
                column,
                values,
                from,
            )[i]) == (from + i, values[from + i]),
        table_filled(table, column, values, from).0 is Ok ==> table_requests(
            table,
            column,
            values,
            from,
        ).len() == values.len() - from,
    decreases values.len() - from,
{
    if from < values.len() {
        let request = filling(table, column, from as usize, values[from]);
        if request.0 is Ok {
            lemma_table_requests(request.1, column, values, from + 1);
        }
    }
}

impl Clone for RangeConfig {
    fn clone(&self) -> (r: Self)
        ensures
            r.columns() == self.columns(),
            r.flag() == self.flag(),
            r.table() == self.table(),
            r.table_values() == self.table_values(),
    {
        let r = RangeConfig {
            a: self.a,
            b: self.b,
            c: self.c,
            d: self.d,
            s_range: self.s_range,
            small_range_table: self.small_range_table,
            small_range_table_values: self.small_range_table_values.clone(),
        };
        assert(r.table_values() =~= self.table_values());
        r
    }
}

impl RangeConfig {
    /// The limb columns `a, b, c, d`, in this order.
    pub closed spec fn columns(&self) -> Seq<AdviceColumn> {
        seq![self.a, self.b, self.c, self.d]
    }

    /// The flag that enables the range gate.
    pub closed spec fn flag(&self) -> Selector {
        self.s_range
    }

    /// The fixed column that holds the lookup table.
    pub closed spec fn table(&self) -> TableColumn {
        self.small_range_table
    }

    /// The contents of the lookup table.
    pub closed spec fn table_values(&self) -> Seq<u64> {
        self.small_range_table_values@
    }

    /// The contents of the lookup table, in the order in which they are loaded.
    pub fn small_range_table_values(&self) -> (values: &Vec<u64>)
        ensures
            values@ == self.table_values(),
    {
        &self.small_range_table_values
    }

    /// The limb column with the given index: `a` for `0` up to `d` for `3`.
    pub fn column(&self, index: usize) -> (column: AdviceColumn)
        requires
            index < 4,
        ensures
            column == self.columns()[index as int],
    {
        if index == 0 {
            self.a
        } else if index == 1 {
            self.b
        } else if index == 2 {
            self.c
        } else {
            self.d
        }
    }
}

/// The range chip for limbs of `BASE` bits.
pub struct RangeChip<const BASE: usize> {
    config: RangeConfig,
}

impl<const BASE: usize> RangeChip<BASE> {
    /// The configuration that the chip holds.
    pub closed spec fn configuration(&self) -> RangeConfig {
        self.config
    }

    /// The chip over a configuration.
    pub fn new(config: RangeConfig) -> (chip: Self)
        ensures
            chip.configuration() == config,
    {
        RangeChip { config }
    }

    /// The configuration of the chip.
    pub fn config(&self) -> (config: &RangeConfig)
        ensures
            *config == self.configuration(),
    {
        &self.config
    }

    /// The state that the chip loads before synthesis: none.
    pub fn loaded(&self) -> (loaded: &())
        ensures
            *loaded == (),
    {
        &()
    }

    /// Wires the gadget into `meta` over four witness columns of `meta`:
    /// allocates the enable flag and the table column, registers one
    /// lookup for each of the columns `a, b, c, d` and then the range gate, and
    /// computes the contents of the table. The flag and the table column are
    /// new to `meta`, and nothing else is allocated.
    ///
    /// Column `d` has a lookup of its own like the other three: a top limb
    /// that no lookup bounds could take any size, and carry a value beyond the
    /// range through the range gate.
    pub fn configure(meta: &mut ConstraintSystemHandle<'_>, limbs: [AdviceColumn; 4]) -> (config:
        RangeConfig)
        requires
            supported_bits(BASE as nat),
            forall|k: int|
                0 <= k < 4 ==> advice_index(#[trigger] limbs[k]) < advice_count(*old(meta)),
        ensures
            config.columns() == limbs@,
            !selector_is_simple(config.flag()),
            selector_index(config.flag()) == selector_count(*old(meta)),
            selector_count(*final(meta)) == selector_count(*old(meta)) + 1,
            table_index(config.table()) == fixed_count(*old(meta)),
            fixed_count(*final(meta)) == fixed_count(*old(meta)) + 1,
            config.table_values() == small_range_table(BASE as nat),
            advice_count(*final(meta)) == advice_count(*old(meta)),
            gates_of(*final(meta)) == gates_of(*old(meta)).push(
                seq![range_gate_poly(limbs@, config.flag(), BASE as nat)],
            ),
            lookups_of(*final(meta)) == lookups_of(*old(meta)).push(
                (lookup_poly(limbs[0], config.flag()), config.table()),
            ).push((lookup_poly(limbs[1], config.flag()), config.table())).push(
                (lookup_poly(limbs[2], config.flag()), config.table()),
            ).push((lookup_poly(limbs[3], config.flag()), config.table())),
    {
        let small_range_table_values = small_range_table_values(BASE);

        let a = limbs[0];
        let b = limbs[1];
        let c = limbs[2];
        let d = limbs[3];

        let s_range = complex_selector(meta);
        let small_range_table = lookup_table_column(meta);

        add_lookup(meta, a, s_range, small_range_table);
        add_lookup(meta, b, s_range, small_range_table);
        add_lookup(meta, c, s_range, small_range_table);
        add_lookup(meta, d, s_range, small_range_table);

        add_range_gate(meta, limbs, s_range, BASE);

        let config = RangeConfig {
            a,
            b,
            c,
            d,
            s_range,
            small_range_table,
            small_range_table_values,
        };
        assert(config.columns() =~= limbs@);
        config
    }

    /// Allocates four witness columns in `meta` and wires the gadget over them.
    pub fn configure_fresh(meta: &mut ConstraintSystemHandle<'_>) -> (config: RangeConfig)
        requires
            supported_bits(BASE as nat),
        ensures
            config.columns().len() == 4,
            forall|k: int|
                0 <= k < 4 ==> advice_index(#[trigger] config.columns()[k]) == advice_count(
                    *old(meta),
                ) + k,
            !selector_is_simple(config.flag()),
            selector_index(config.flag()) == selector_count(*old(meta)),
            selector_count(*final(meta)) == selector_count(*old(meta)) + 1,
            table_index(config.table()) == fixed_count(*old(meta)),
            fixed_count(*final(meta)) == fixed_count(*old(meta)) + 1,
            config.table_values() == small_range_table(BASE as nat),
            advice_count(*final(meta)) == advice_count(*old(meta)) + 4,
            gates_of(*final(meta)) == gates_of(*old(meta)).push(
                seq![range_gate_poly(config.columns(), config.flag(), BASE as nat)],
            ),
            lookups_of(*final(meta)) == lookups_of(*old(meta)).push(
                (lookup_poly(config.columns()[0], config.flag()), config.table()),
            ).push((lookup_poly(config.columns()[1], config.flag()), config.table())).push(
                (lookup_poly(config.columns()[2], config.flag()), config.table()),
            ).push((lookup_poly(config.columns()[3], config.flag()), config.table())),
    {
        let a = advice_column(meta);
        let b = advice_column(meta);
        let c = advice_column(meta);
        let d = advice_column(meta);
        Self::configure(meta, [a, b, c, d])
    }

    /// Assigns one witness into `region`: raises the enable flag at the
    /// second row, then writes the cells of [`witness_cells`] in their order.
    /// Stops at the first operation that the region refuses. Only the first
    /// two rows of the region are written.
    ///
    /// A value that is absent is handed on as absent: a region that only
    /// measures its shape accepts it, one that needs the value refuses it, and
    /// that refusal comes back as [`RangeError::MissingWitness`].
    ///
    /// The chip is for the regions of the constraint system that it was
    /// configured on: the framework finds the flag among the flags of the
    /// region's constraint system, and fails on one that is not there. The
    /// region must have room for its two rows where the backend behind it
    /// takes rows as they come.
    pub fn decomposition(
        &self,
        region: &mut RegionHandle<'_, '_>,
        value_integer: Option<FieldValue>,
        value_limbs: Option<[FieldValue; 4]>,
    ) -> (r: Result<(), RangeError>)
        requires
            selector_index(self.configuration().flag()) < region_selectors(*old(region)),
            LIMB_ROW < region_rows(*old(region)),
        ensures
            region_selectors(*final(region)) == region_selectors(*old(region)),
            region_rows(*final(region)) == region_rows(*old(region)),
            r == decomposed(*old(region), self.configuration(), value_integer, value_limbs).0,
            *final(region) == decomposed(
                *old(region),
                self.configuration(),
                value_integer,
                value_limbs,
            ).1,
            r matches Err(RangeError::MissingWitness) ==> value_integer is None || value_limbs
                is None,
    {
        let ghost goal = decomposed(*old(region), self.config, value_integer, value_limbs);
        match enable_selector(region, self.config.s_range, LIMB_ROW) {
            Ok(()) => {},
            Err(e) => {
                return Err(assignment_failure(true, e));
            },
        }
        let cells = witness_assignments(value_integer, value_limbs);
        let ghost plan = witness_cells(integer_of(value_integer), integers_of(value_limbs));
        let ghost columns = self.config.columns();
        let mut i: usize = 0;
        while i < 8
            invariant
                i <= 8,
                models_of(cells@) == plan,
                plan == witness_cells(integer_of(value_integer), integers_of(value_limbs)),
                columns == self.config.columns(),
                cells_written(*region, columns, plan, i as int) == goal,
                goal == decomposed(*old(region), self.config, value_integer, value_limbs),
                region_selectors(*region) == region_selectors(*old(region)),
                region_rows(*region) == region_rows(*old(region)),
            decreases 8 - i,
        {
            let ghost before = *region;
            assert(plan.len() == 8 && models_of(cells@).len() == cells@.len());
            assert(cells@[i as int]@ == plan[i as int]) by {
                assert(models_of(cells@)[i as int] == cells@[i as int]@);
            }
            let cell = cells[i];
            let words = match cell.value {
                Some(v) => Some(v.to_words()),
                None => None,
            };
            match assign_advice(
                region,
                cell_label(i),
                self.config.column(cell.column),
                cell.offset,
                words,
            ) {
                Ok(()) => {},
                Err(e) => {
                    assert(cells_written(before, columns, plan, i as int).1 == *region);
                    return Err(assignment_failure(cell.value.is_some(), e));
                },
            }
            assert(cells_written(before, columns, plan, i as int) == cells_written(
                *region,
                columns,
                plan,
                i + 1,
            ));
            i = i + 1;
        }
        Ok(())
    }

    /// Loads the lookup table into `table`: entry `i` of the table values at
    /// row `i` of the table column. Stops at the first cell that the table
    /// refuses.
    pub fn load_small_range_table(&self, table: &mut TableHandle<'_>) -> (r: Result<
        (),
        RangeError,
    >)
        ensures
            r == table_filled(
                *old(table),
                self.configuration().table(),
                self.configuration().table_values(),
                0,
            ).0,
            *final(table) == table_filled(
                *old(table),
                self.configuration().table(),
                self.configuration().table_values(),
                0,
            ).1,
            r matches Err(e) ==> e is Circuit,
    {
        let values = &self.config.small_range_table_values;
        let ghost goal = table_filled(*old(table), self.config.small_range_table, values@, 0);
        let mut index: usize = 0;
        while index < values.len()
            invariant
                index <= values.len(),
                table_filled(*table, self.config.small_range_table, values@, index as int)
                    == goal,
                goal == table_filled(*old(table), self.config.small_range_table, values@, 0),
                values@ == self.config.small_range_table_values@,
            decreases values.len() - index,
        {
            match assign_table_cell(table, self.config.small_range_table, index, values[index]) {
                Ok(()) => {},
                Err(e) => {
                    return Err(RangeError::Circuit(e));
                },
            }
            index = index + 1;
        }
        Ok(())
    }
}

/// The name under which the framework's diagnostics show a witness cell.
fn cell_label(index: usize) -> (label: &'static str)
    ensures
        label@ == cell_name(index as int),
{
    if index == 0 {
        "0 a"
    } else if index == 1 {
        "0 b"
    } else if index == 2 {
        "0 c"
    } else if index == 3 {
        "integer"
    } else if index == 4 {
        "limb 0"
    } else if index == 5 {
        "limb 1"
    } else if index == 6 {
        "limb 2"
    } else {
        "limb 3"
    }
}

} // verus!
