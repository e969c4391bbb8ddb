//! The lookup table that bounds a limb: the integers `0, 1, …, 2^bits − 1`.

use vstd::prelude::*;
use vstd::arithmetic::power2::*;
use crate::limbs::{limb_modulus, MAX_LIMB_BITS};

verus! {

/// The table for limbs of `bits` bits, as integers: entry `i` is `i`, for `i`
/// below `2^bits`.
pub open spec fn range_table(bits: nat) -> Seq<nat> {
    Seq::new(pow2(bits), |i: int| i as nat)
}

/// The table for limbs of `bits` bits, as machine integers: entry `i` is `i`,
/// for `i` below `2^bits`.
pub open spec fn small_range_table(bits: nat) -> Seq<u64> {
    Seq::new(pow2(bits), |i: int| i as u64)
}

/// Builds the table for limbs of `bits` bits.
///
/// The bound on `bits` is the gadget's, not this function's: the entries
/// would fit 64 bits for any width below 64, but the table is built for a
/// chip, and a chip takes no limbs wider than [`MAX_LIMB_BITS`].
pub fn small_range_table_values(bits: usize) -> (values: Vec<u64>)
    requires
        bits <= MAX_LIMB_BITS,
    ensures
        values@ == small_range_table(bits as nat),
{
    let size = limb_modulus(bits);
    let mut values: Vec<u64> = Vec::new();
    let mut next: u64 = 0;
    while next < size
        invariant
            next <= size,
            size == pow2(bits as nat),
            values@.len() == next,
            forall|i: int| 0 <= i < next ==> values@[i] == i as u64,
        decreases size - next,
    {
        values.push(next);
        next = next + 1;
    }
    assert(values@ =~= small_range_table(bits as nat));
    values
}

/// Whatever the width, the table holds exactly `2^bits` entries, no two of
/// them equal, and an integer occurs in it if and only if it lies below
/// `2^bits`.
pub proof fn lemma_range_table_entries(bits: nat)
    ensures
        range_table(bits).len() == pow2(bits),
        forall|i: int| 0 <= i < pow2(bits) ==> #[trigger] range_table(bits)[i] == i,
        forall|i: int, j: int|
            0 <= i < j < pow2(bits) ==> range_table(bits)[i] != range_table(bits)[j],
        forall|x: nat| range_table(bits).contains(x) <==> x < pow2(bits),
{
    let table = range_table(bits);
    assert forall|x: nat| table.contains(x) <==> x < pow2(bits) by {
        if x < pow2(bits) {
            assert(table[x as int] == x);
        }
    }
}

/// For every width below 64, the table of machine integers is the table of
/// integers: it holds exactly `2^bits` entries, entry `i` is `i`, no two of
/// them are equal, and an integer occurs in it if and only if it lies below
/// `2^bits`.
pub proof fn lemma_table_entries(bits: nat)
    requires
        bits < 64,
    ensures
        small_range_table(bits).len() == pow2(bits),
        small_range_table(bits).len() == range_table(bits).len(),
        forall|i: int|
            0 <= i < pow2(bits) ==> #[trigger] small_range_table(bits)[i] as nat == range_table(
                bits,
            )[i],
        forall|i: int|
            0 <= i < pow2(bits) ==> #[trigger] small_range_table(bits)[i] as int == i,
        forall|i: int, j: int|
            0 <= i < j < pow2(bits) ==> small_range_table(bits)[i] != small_range_table(bits)[j],
        forall|x: u64| small_range_table(bits).contains(x) <==> x < pow2(bits),
{
    vstd::bits::lemma_u64_pow2_no_overflow(bits);
    let table = small_range_table(bits);
    assert forall|x: u64| table.contains(x) <==> x < pow2(bits) by {
        if x < pow2(bits) {
            assert(table[x as int] == x);
        }
    }
}

} // verus!
