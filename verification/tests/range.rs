use std::cell::RefCell;

use ff::PrimeField;
use halo2_proofs::circuit::{Layouter, SimpleFloorPlanner};
use halo2_proofs::dev::{MockProver, VerifyFailure};
use halo2_proofs::pasta::{EqAffine, Fp};
use halo2_proofs::plonk::{keygen_vk, Circuit, ConstraintSystem, Error};
use halo2_proofs::poly::commitment::Params;
use num_bigint::BigUint;
use range_gadget::error::RangeError;
use range_gadget::field::FieldValue;
use range_gadget::halo::{AdviceColumn, ConstraintSystemHandle, RegionHandle, TableHandle};
use range_gadget::limbs::{decompose, LIMB_COUNT};
use range_gadget::range::{witness_assignments, RangeChip, RangeConfig, Variable, LIMB_ROW};

const LIMB_SIZE: usize = LIMB_COUNT;

fn field_value(e: &Fp) -> FieldValue {
    let bytes = e.to_repr();
    let mut lo = [0u8; 16];
    let mut hi = [0u8; 16];
    lo.copy_from_slice(&bytes[0..16]);
    hi.copy_from_slice(&bytes[16..32]);
    FieldValue::new(u128::from_le_bytes(lo), u128::from_le_bytes(hi)).unwrap()
}

fn to_error(e: RangeError) -> Error {
    match e {
        RangeError::MissingWitness => Error::Synthesis,
        RangeError::Circuit(e) => e,
    }
}

#[derive(Clone, Debug)]
struct TestCircuitConfig {
    range_config: RangeConfig,
}

#[derive(Default)]
struct TestCircuit<const BASE: usize> {
    integer: Option<Fp>,
}

impl<const BASE: usize> Circuit<Fp> for TestCircuit<BASE> {
    type Config = TestCircuitConfig;
    type FloorPlanner = SimpleFloorPlanner;

    fn without_witnesses(&self) -> Self {
        Self::default()
    }

    fn configure(meta: &mut ConstraintSystem<Fp>) -> Self::Config {
        let a = AdviceColumn { inner: meta.advice_column() };
        let b = AdviceColumn { inner: meta.advice_column() };
        let c = AdviceColumn { inner: meta.advice_column() };
        let d = AdviceColumn { inner: meta.advice_column() };

        let mut meta = ConstraintSystemHandle { inner: meta };
        let range_config = RangeChip::<BASE>::configure(&mut meta, [a, b, c, d]);
        TestCircuitConfig { range_config }
    }

    fn synthesize(
        &self,
        config: Self::Config,
        mut layouter: impl Layouter<Fp>,
    ) -> Result<(), Error> {
        let decompose = |e: Fp, base: usize| -> [FieldValue; LIMB_SIZE] {
            let mut e = BigUint::from_bytes_le(&e.to_repr()[..]);
            let n = (1 << base) as usize;
            let mut limbs: [FieldValue; LIMB_SIZE] = [FieldValue::zero(); LIMB_SIZE];
            for i in 0..LIMB_SIZE {
                let u = BigUint::from(n - 1) & e.clone();
                let u = Fp::from_str_vartime(&u.to_str_radix(10)).unwrap();
                limbs[i] = field_value(&u);
                e = e >> base;
            }
            limbs
        };
        let range_chip = RangeChip::<BASE>::new(config.range_config);

        let integer = self.integer.ok_or(Error::Synthesis)?;
        let limbs = decompose(integer, BASE);

        layouter.assign_region(
            || "decomposition",
            |mut region| {
                let mut region = RegionHandle { inner: &mut region };
                range_chip
                    .decomposition(&mut region, Some(field_value(&integer)), Some(limbs))
                    .map_err(to_error)?;
                Ok(())
            },
        )?;

        layouter.assign_table(
            || "",
            |table| {
                let mut table = TableHandle { inner: table };
                range_chip.load_small_range_table(&mut table).map_err(to_error)
            },
        )?;

        Ok(())
    }
}

#[test]
fn test_range() {
    const K: u32 = 5;
    const BASE: usize = 4;

    let integer = Some(Fp::from(0xabcd));
    let circuit = TestCircuit::<BASE> { integer };

    let prover = match MockProver::run(K, &circuit, vec![]) {
        Ok(prover) => prover,
        Err(e) => panic!("{:#?}", e),
    };
    assert_eq!(prover.verify(), Ok(()));

    let integer = Some(Fp::from(1 << (BASE * 4)));
    let circuit = TestCircuit::<BASE> { integer };

    let prover = match MockProver::run(K, &circuit, vec![]) {
        Ok(prover) => prover,
        Err(e) => panic!("{:#?}", e),
    };
    assert_ne!(prover.verify(), Ok(()));
}

/// A circuit over columns that the chip allocates itself, with the witness in
/// the library's own types and the limbs chosen by the caller.
#[derive(Default)]
struct WitnessCircuit<const BASE: usize> {
    value: Option<FieldValue>,
    limbs: Option<[FieldValue; 4]>,
    outcome: RefCell<Vec<String>>,
    load_twice: bool,
}

impl<const BASE: usize> WitnessCircuit<BASE> {
    fn canonical(value: u64) -> Self {
        let value = FieldValue::from_u64(value);
        WitnessCircuit {
            value: Some(value),
            limbs: Some(decompose(&value, BASE)),
            ..Default::default()
        }
    }

    fn forged(value: u64, limbs: [u64; 4]) -> Self {
        WitnessCircuit {
            value: Some(FieldValue::from_u64(value)),
            limbs: Some([
                FieldValue::from_u64(limbs[0]),
                FieldValue::from_u64(limbs[1]),
                FieldValue::from_u64(limbs[2]),
                FieldValue::from_u64(limbs[3]),
            ]),
            ..Default::default()
        }
    }
}

impl<const BASE: usize> Circuit<Fp> for WitnessCircuit<BASE> {
    type Config = RangeConfig;
    type FloorPlanner = SimpleFloorPlanner;

    fn without_witnesses(&self) -> Self {
        Self::default()
    }

    fn configure(meta: &mut ConstraintSystem<Fp>) -> Self::Config {
        RangeChip::<BASE>::configure_fresh(&mut ConstraintSystemHandle { inner: meta })
    }

    fn synthesize(
        &self,
        config: Self::Config,
        mut layouter: impl Layouter<Fp>,
    ) -> Result<(), Error> {
        let chip = RangeChip::<BASE>::new(config);
        layouter.assign_region(
            || "decomposition",
            |mut region| {
                let mut region = RegionHandle { inner: &mut region };
                let r = chip.decomposition(&mut region, self.value, self.limbs);
                self.outcome.borrow_mut().push(format!("{:?}", r));
                r.map_err(to_error)
            },
        )?;
        let loads = if self.load_twice { 2 } else { 1 };
        for _ in 0..loads {
            layouter.assign_table(
                || "",
                |table| {
                    let r = chip.load_small_range_table(&mut TableHandle { inner: table });
                    self.outcome.borrow_mut().push(format!("{:?}", r));
                    r.map_err(to_error)
                },
            )?;
        }
        Ok(())
    }
}

fn failures<const BASE: usize>(circuit: &WitnessCircuit<BASE>, k: u32) -> Vec<VerifyFailure> {
    let prover = MockProver::run(k, circuit, vec![]).unwrap();
    match prover.verify() {
        Ok(()) => vec![],
        Err(failures) => failures,
    }
}

fn is_gate_failure(f: &VerifyFailure) -> bool {
    matches!(f, VerifyFailure::ConstraintNotSatisfied { .. })
}

fn lookup_index(f: &VerifyFailure) -> Option<usize> {
    match f {
        VerifyFailure::Lookup { lookup_index, .. } => Some(*lookup_index),
        _ => None,
    }
}

#[test]
fn value_0xabcd_is_satisfied() {
    let value = FieldValue::from_u64(0xabcd);
    let limbs = decompose(&value, 4);
    assert_eq!(
        [limbs[0].lower_128(), limbs[1].lower_128(), limbs[2].lower_128(), limbs[3].lower_128()],
        [0xd, 0xc, 0xb, 0xa]
    );
    assert_eq!(failures(&WitnessCircuit::<4>::canonical(0xabcd), 5), vec![]);
}

#[test]
fn value_65536_fails_the_gate() {
    let circuit = WitnessCircuit::<4>::canonical(65536);
    let limbs = circuit.limbs.unwrap();
    for k in 0..4 {
        assert_eq!(limbs[k].lower_128(), 0);
    }
    let failures = failures(&circuit, 5);
    assert_eq!(failures.len(), 1);
    assert!(is_gate_failure(&failures[0]));
}

#[test]
fn value_65535_is_satisfied() {
    let circuit = WitnessCircuit::<4>::canonical(65535);
    let limbs = circuit.limbs.unwrap();
    for k in 0..4 {
        assert_eq!(limbs[k].lower_128(), 0xf);
    }
    assert_eq!(failures(&circuit, 5), vec![]);
}

#[test]
fn every_value_of_a_small_range_is_satisfied() {
    for value in 0..16u64 {
        assert_eq!(failures(&WitnessCircuit::<1>::canonical(value), 5), vec![]);
    }
    assert_ne!(failures(&WitnessCircuit::<1>::canonical(16), 5), vec![]);
}

#[test]
fn values_beyond_the_range_fail_the_gate() {
    for value in [65536u64, 65537, 0xabcd_0000, u64::MAX] {
        let failures = failures(&WitnessCircuit::<4>::canonical(value), 5);
        assert_eq!(failures.len(), 1);
        assert!(is_gate_failure(&failures[0]));
    }
}

#[test]
fn largest_field_element_fails_the_gate() {
    let minus_one = field_value(&(-Fp::one()));
    let circuit = WitnessCircuit::<4> {
        value: Some(minus_one),
        limbs: Some(decompose(&minus_one, 4)),
        ..Default::default()
    };
    let failures = failures(&circuit, 5);
    assert_eq!(failures.len(), 1);
    assert!(is_gate_failure(&failures[0]));
}

#[test]
fn limb_of_16_fails_its_lookup_though_the_sum_matches() {
    // 16 = 16 + 0·16 + 0·256 + 0·4096
    let failures = failures(&WitnessCircuit::<4>::forged(16, [16, 0, 0, 0]), 5);
    assert_eq!(failures.len(), 1);
    assert_eq!(lookup_index(&failures[0]), Some(0));
}

#[test]
fn each_column_has_a_lookup_of_its_own() {
    let weights = [1u64, 16, 256, 4096];
    for k in 0..4 {
        let mut limbs = [0u64; 4];
        limbs[k] = 16;
        let failures = failures(&WitnessCircuit::<4>::forged(16 * weights[k], limbs), 5);
        assert_eq!(failures.len(), 1);
        assert_eq!(lookup_index(&failures[0]), Some(k));
    }
}

#[test]
fn wrong_limbs_fail_the_gate() {
    let failures = failures(&WitnessCircuit::<4>::forged(0xabcd, [0xc, 0xd, 0xb, 0xa]), 5);
    assert_eq!(failures.len(), 1);
    assert!(is_gate_failure(&failures[0]));
}

#[test]
fn witnessed_assignment_succeeds() {
    let circuit = WitnessCircuit::<4>::canonical(0xabcd);
    MockProver::run(5, &circuit, vec![]).unwrap();
    let outcome = circuit.outcome.borrow();
    // the region is laid out in two passes, the table in one
    assert_eq!(*outcome, vec!["Ok(())", "Ok(())", "Ok(())"]);
}

#[test]
fn absent_value_is_a_missing_witness() {
    let circuit = WitnessCircuit::<4> {
        value: None,
        limbs: Some(decompose(&FieldValue::from_u64(7), 4)),
        ..Default::default()
    };
    assert!(matches!(MockProver::run(5, &circuit, vec![]), Err(Error::Synthesis)));
    let outcome = circuit.outcome.borrow();
    assert_eq!(*outcome, vec!["Ok(())", "Err(MissingWitness)"]);
}

#[test]
fn absent_limbs_are_a_missing_witness() {
    let circuit = WitnessCircuit::<4> {
        value: Some(FieldValue::from_u64(7)),
        limbs: None,
        ..Default::default()
    };
    assert!(matches!(MockProver::run(5, &circuit, vec![]), Err(Error::Synthesis)));
    let outcome = circuit.outcome.borrow();
    assert_eq!(*outcome, vec!["Ok(())", "Err(MissingWitness)"]);
}

#[test]
fn shape_only_pass_needs_no_witness() {
    let params: Params<EqAffine> = Params::new(5);
    let circuit = WitnessCircuit::<4>::canonical(0xabcd).without_witnesses();
    assert!(keygen_vk(&params, &circuit).is_ok());
    let outcome = circuit.outcome.borrow();
    assert!(outcome.iter().all(|r| r == "Ok(())"));
    assert!(!outcome.is_empty());
}

#[test]
fn too_few_rows_is_the_frameworks_error() {
    // 2^3 rows cannot hold the 16 entries of the table
    let circuit = WitnessCircuit::<4>::canonical(0xabcd);
    assert!(MockProver::run(3, &circuit, vec![]).is_err());
    let outcome = circuit.outcome.borrow();
    assert!(outcome.iter().all(|r| r != "Err(MissingWitness)"));
}

#[test]
fn loading_the_table_twice_is_refused() {
    let circuit = WitnessCircuit::<4> { load_twice: true, ..WitnessCircuit::canonical(0xabcd) };
    assert!(MockProver::run(5, &circuit, vec![]).is_err());
    let outcome = circuit.outcome.borrow();
    assert_eq!(outcome.last().unwrap(), "Err(Circuit(Synthesis))");
}

#[test]
fn table_holds_every_integer_below_the_limb_bound() {
    let mut cs = ConstraintSystem::<Fp>::default();
    let config = RangeChip::<4>::configure_fresh(&mut ConstraintSystemHandle { inner: &mut cs });
    assert_eq!(*config.small_range_table_values(), (0..16u64).collect::<Vec<_>>());

    let mut cs = ConstraintSystem::<Fp>::default();
    let config = RangeChip::<1>::configure_fresh(&mut ConstraintSystemHandle { inner: &mut cs });
    assert_eq!(*config.small_range_table_values(), vec![0, 1]);

    let mut cs = ConstraintSystem::<Fp>::default();
    let config = RangeChip::<10>::configure_fresh(&mut ConstraintSystemHandle { inner: &mut cs });
    let values = config.small_range_table_values();
    assert_eq!(values.len(), 1024);
    assert!(values.iter().enumerate().all(|(i, v)| *v == i as u64));
}

#[test]
fn chip_hands_back_its_configuration() {
    let mut cs = ConstraintSystem::<Fp>::default();
    let config = RangeChip::<4>::configure_fresh(&mut ConstraintSystemHandle { inner: &mut cs });
    let columns = [config.column(0), config.column(1), config.column(2), config.column(3)];
    let chip = RangeChip::<4>::new(config.clone());
    assert_eq!(chip.config().small_range_table_values(), config.small_range_table_values());
    for k in 0..4 {
        assert_eq!(chip.config().column(k).inner, columns[k].inner);
    }
    assert_ne!(columns[0].inner, columns[1].inner);
    assert_eq!(chip.loaded(), &());
}

fn advice(query_index: usize, column_index: usize, rotation: i32) -> String {
    format!(
        "Advice {{ query_index: {}, column_index: {}, rotation: Rotation({}) }}",
        query_index, column_index, rotation
    )
}

#[test]
fn configuration_registers_one_gate_and_four_lookups() {
    let mut cs = ConstraintSystem::<Fp>::default();
    RangeChip::<4>::configure_fresh(&mut ConstraintSystemHandle { inner: &mut cs });
    let shape = format!("{:?}", cs.pinned());
    assert!(shape.contains("num_advice_columns: 4"));
    assert!(shape.contains("num_selectors: 1"));
    assert!(shape.contains("num_fixed_columns: 1"));
    assert_eq!(shape.matches("input_expressions").count(), 4);

    let flag = "Selector(Selector(0, false))";
    let table = "Fixed { query_index: 0, column_index: 0, rotation: Rotation(0) }";
    let lookups: Vec<String> = (0..4)
        .map(|k| {
            format!(
                "Argument {{ input_expressions: [Product({}, {})], table_expressions: [{}] }}",
                advice(k, k, 0),
                flag,
                table
            )
        })
        .collect();
    assert!(shape.contains(&format!("lookups: [{}]", lookups.join(", "))));

    let gate = format!(
        "Product({}, Sum(Sum(Sum(Sum({}, Scaled({}, {:?})), Scaled({}, {:?})), Scaled({}, {:?})), \
         Negated({})))",
        flag,
        advice(0, 0, 0),
        advice(1, 1, 0),
        Fp::from(16),
        advice(2, 2, 0),
        Fp::from(256),
        advice(3, 3, 0),
        Fp::from(4096),
        advice(4, 3, -1)
    );
    assert!(shape.contains(&format!("gates: [{}]", gate)));
}

#[test]
fn gate_coefficients_follow_the_limb_width() {
    let mut cs = ConstraintSystem::<Fp>::default();
    RangeChip::<21>::configure_fresh(&mut ConstraintSystemHandle { inner: &mut cs });
    let shape = format!("{:?}", cs.pinned());
    for bits in [21u32, 42, 63] {
        assert!(shape.contains(&format!("{:?})", Fp::from(1u64 << bits))));
    }
}

#[test]
fn wider_limbs_cover_a_wider_range() {
    assert_eq!(failures(&WitnessCircuit::<8>::canonical(0xffff_ffff), 9), vec![]);
    let beyond = failures(&WitnessCircuit::<8>::canonical(0x1_0000_0000), 9);
    assert_eq!(beyond.len(), 1);
    assert!(is_gate_failure(&beyond[0]));
}

#[test]
fn witness_is_written_as_two_rows_of_four_cells() {
    let value = FieldValue::from_u64(0xabcd);
    let limbs = decompose(&value, 4);
    let cells = witness_assignments(Some(value), Some(limbs));
    assert_eq!(cells.len(), 8);
    assert_eq!(LIMB_ROW, 1);
    for (i, cell) in cells.iter().enumerate() {
        assert_eq!(cell.column, i % 4);
        assert_eq!(cell.offset, i / 4);
    }
    for cell in &cells[0..3] {
        assert_eq!(cell.value, Some(FieldValue::zero()));
    }
    assert_eq!(cells[3].value, Some(value));
    for k in 0..4 {
        assert_eq!(cells[4 + k].value, Some(limbs[k]));
    }
}

#[test]
fn witness_without_values_keeps_its_shape() {
    let cells = witness_assignments(None, None);
    assert_eq!(cells.len(), 8);
    for cell in &cells[0..3] {
        assert_eq!(cell.value, Some(FieldValue::zero()));
    }
    for cell in &cells[3..8] {
        assert_eq!(cell.value, None);
    }
    let cells = witness_assignments(Some(FieldValue::from_u64(1)), None);
    assert_eq!(cells[3].value, Some(FieldValue::from_u64(1)));
    assert_eq!(cells[4].value, None);
}

#[test]
fn variable_names_a_cell() {
    let mut cs = ConstraintSystem::<Fp>::default();
    let column = AdviceColumn { inner: cs.advice_column() };
    let variable = Variable(column, 3);
    let copy = variable;
    assert_eq!(variable.0.inner, copy.0.inner);
    assert_eq!(copy.1, 3);
}

/// Two witnesses in two regions of one circuit.
struct PairCircuit {
    first: u64,
    second: u64,
}

impl Circuit<Fp> for PairCircuit {
    type Config = RangeConfig;
    type FloorPlanner = SimpleFloorPlanner;

    fn without_witnesses(&self) -> Self {
        PairCircuit { first: 0, second: 0 }
    }

    fn configure(meta: &mut ConstraintSystem<Fp>) -> Self::Config {
        RangeChip::<4>::configure_fresh(&mut ConstraintSystemHandle { inner: meta })
    }

    fn synthesize(
        &self,
        config: Self::Config,
        mut layouter: impl Layouter<Fp>,
    ) -> Result<(), Error> {
        let chip = RangeChip::<4>::new(config);
        for value in [self.first, self.second] {
            let value = FieldValue::from_u64(value);
            let limbs = decompose(&value, 4);
            layouter.assign_region(
                || "decomposition",
                |mut region| {
                    chip.decomposition(
                        &mut RegionHandle { inner: &mut region },
                        Some(value),
                        Some(limbs),
                    )
                    .map_err(to_error)
                },
            )?;
        }
        layouter.assign_table(
            || "",
            |table| chip.load_small_range_table(&mut TableHandle { inner: table }).map_err(to_error),
        )
    }
}

#[test]
fn two_witnesses_share_one_table() {
    let circuit = PairCircuit { first: 0xabcd, second: 0x1234 };
    let prover = MockProver::run(5, &circuit, vec![]).unwrap();
    assert_eq!(prover.verify(), Ok(()));

    let circuit = PairCircuit { first: 0xabcd, second: 0xabcd };
    let prover = MockProver::run(5, &circuit, vec![]).unwrap();
    assert_eq!(prover.verify(), Ok(()));
}

#[test]
fn one_bad_witness_of_two_fails_alone() {
    let circuit = PairCircuit { first: 0xabcd, second: 65536 };
    let prover = MockProver::run(5, &circuit, vec![]).unwrap();
    let failures = prover.verify().unwrap_err();
    assert_eq!(failures.len(), 1);
    assert!(is_gate_failure(&failures[0]));
}
