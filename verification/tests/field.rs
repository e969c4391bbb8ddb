use halo2_proofs::pasta::Fp;
use halo2_proofs::plonk::Error;
use range_gadget::error::{assignment_failure, RangeError};
use range_gadget::field::{FieldValue, MODULUS_HI, MODULUS_LO};

#[test]
fn values_below_the_modulus_are_accepted() {
    assert!(FieldValue::new(0, 0).is_some());
    assert!(FieldValue::new(MODULUS_LO - 1, MODULUS_HI).is_some());
    assert!(FieldValue::new(u128::MAX, MODULUS_HI - 1).is_some());
    let v = FieldValue::new(5, 7).unwrap();
    assert_eq!((v.lower_128(), v.upper_128()), (5, 7));
}

#[test]
fn values_from_the_modulus_on_are_refused() {
    assert!(FieldValue::new(MODULUS_LO, MODULUS_HI).is_none());
    assert!(FieldValue::new(MODULUS_LO + 1, MODULUS_HI).is_none());
    assert!(FieldValue::new(0, MODULUS_HI + 1).is_none());
    assert!(FieldValue::new(u128::MAX, u128::MAX).is_none());
}

#[test]
fn modulus_is_that_of_the_field() {
    // p − 1 is the additive inverse of one
    let minus_one = FieldValue::new(MODULUS_LO - 1, MODULUS_HI).unwrap();
    assert_eq!(Fp::from_raw(minus_one.to_words()), -Fp::one());
}

#[test]
fn machine_integers_keep_their_value() {
    assert_eq!(FieldValue::zero().lower_128(), 0);
    assert_eq!(FieldValue::zero().upper_128(), 0);
    assert_eq!(FieldValue::from_u64(0xabcd).lower_128(), 0xabcd);
    assert_eq!(FieldValue::from_u64(u64::MAX).lower_128(), u64::MAX as u128);
    assert_eq!(FieldValue::from_u64(u64::MAX).upper_128(), 0);
    assert_eq!(FieldValue::from_u128(u128::MAX).lower_128(), u128::MAX);
    assert_eq!(FieldValue::from_u128(u128::MAX).upper_128(), 0);
    assert_eq!(FieldValue::from_u64(3), FieldValue::from_u128(3));
    assert_ne!(FieldValue::from_u64(3), FieldValue::from_u64(4));
}

#[test]
fn words_are_little_endian() {
    let v = FieldValue::new(
        0x0000_0000_0000_0002_0000_0000_0000_0001,
        0x0000_0000_0000_0004_0000_0000_0000_0003,
    )
    .unwrap();
    assert_eq!(v.to_words(), [1, 2, 3, 4]);
    assert_eq!(FieldValue::from_u64(0xabcd).to_words(), [0xabcd, 0, 0, 0]);
    assert_eq!(FieldValue::from_u128(u128::MAX).to_words(), [u64::MAX, u64::MAX, 0, 0]);
    assert_eq!(Fp::from_raw(FieldValue::from_u64(0xabcd).to_words()), Fp::from(0xabcd));
}

#[test]
fn synthesis_failure_without_a_value_is_a_missing_witness() {
    assert!(matches!(assignment_failure(false, Error::Synthesis), RangeError::MissingWitness));
}

#[test]
fn synthesis_failure_with_a_value_is_the_frameworks() {
    assert!(matches!(
        assignment_failure(true, Error::Synthesis),
        RangeError::Circuit(Error::Synthesis)
    ));
}

#[test]
fn other_failures_are_the_frameworks() {
    assert!(matches!(
        assignment_failure(false, Error::BoundsFailure),
        RangeError::Circuit(Error::BoundsFailure)
    ));
    assert!(matches!(
        assignment_failure(true, Error::NotEnoughRowsAvailable { current_k: 3 }),
        RangeError::Circuit(Error::NotEnoughRowsAvailable { current_k: 3 })
    ));
}
