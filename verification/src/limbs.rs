//! Positional decomposition of an integer into four fixed-width limbs.

use vstd::prelude::*;
use vstd::arithmetic::div_mod::*;
use vstd::arithmetic::mul::*;
use vstd::arithmetic::power2::*;
use vstd::bits::*;
use crate::field::{half_weight, modulus, FieldValue};

verus! {

/// Number of limbs a value is split into.
pub const LIMB_COUNT: usize = 4;

/// Widest limb, in bits, whose gate coefficients fit a 64-bit integer.
pub const MAX_LIMB_BITS: usize = 21;

/// Widest limb, in bits, of which four fit into 128 bits: the widest that
/// [`decompose`] and [`recombine_limbs`] take.
pub const MAX_SPLIT_BITS: usize = 32;

/// Limb `k` of `v` in base `2^bits`: `floor(v / 2^(bits·k)) mod 2^bits`.
pub open spec fn limb_of(v: nat, bits: nat, k: nat) -> nat {
    (v / pow2(bits * k)) % pow2(bits)
}

/// The four low limbs of `v`, least significant first.
pub open spec fn canonical_limbs(v: nat, bits: nat) -> Seq<nat> {
    Seq::new(4, |k: int| limb_of(v, bits, k as nat))
}

/// The integer that four limbs denote in base `2^bits`.
pub open spec fn recombine(limbs: Seq<nat>, bits: nat) -> nat {
    limbs[0] + limbs[1] * pow2(bits) + limbs[2] * pow2(2 * bits) + limbs[3] * pow2(3 * bits)
}

/// Exclusive upper end of the range that four limbs of `bits` bits cover.
pub open spec fn range_bound(bits: nat) -> nat {
    pow2(4 * bits)
}

/// Four limbs, each below `2^bits`.
pub open spec fn limbs_bounded(limbs: Seq<nat>, bits: nat) -> bool {
    &&& limbs.len() == 4
    &&& forall|k: int| 0 <= k < 4 ==> limbs[k] < pow2(bits)
}

/// Whether `bits` is a limb width the gadget supports.
pub open spec fn supported_bits(bits: nat) -> bool {
    1 <= bits <= MAX_LIMB_BITS
}

/// The integers of four field values.
pub open spec fn values_of(limbs: [FieldValue; 4]) -> Seq<nat> {
    Seq::new(4, |k: int| limbs[k]@)
}

proof fn lemma_half_weight()
    ensures
        half_weight() == pow2(128),
{
    lemma2_to64();
    lemma_pow2_adds(64, 64);
}

/// For every width that a chip takes, the table and the covered range lie
/// within the field, as the laws of acceptance and rejection ask.
pub proof fn lemma_range_within_field(bits: nat)
    requires
        bits <= MAX_LIMB_BITS,
    ensures
        pow2(bits) <= range_bound(bits),
        range_bound(bits) <= pow2(84),
        pow2(84) < half_weight(),
        half_weight() < modulus(),
        range_bound(bits) <= modulus(),
{
    lemma_half_weight();
    if bits < 4 * bits {
        lemma_pow2_strictly_increases(bits, 4 * bits);
    }
    if 4 * bits < 84 {
        lemma_pow2_strictly_increases(4 * bits, 84);
    }
    lemma_pow2_strictly_increases(84, 128);
}

/// Powers of two grow with the exponent.
pub proof fn lemma_pow2_increases(low: nat, high: nat)
    requires
        low <= high,
    ensures
        pow2(low) <= pow2(high),
{
    if low < high {
        lemma_pow2_strictly_increases(low, high);
    }
}

/// Four limbs of at most [`MAX_SPLIT_BITS`] bits cover no more than 128 bits.
proof fn lemma_split_within_half(bits: nat)
    requires
        bits <= MAX_SPLIT_BITS,
    ensures
        pow2(bits) <= pow2(2 * bits) <= pow2(3 * bits) <= range_bound(bits) <= half_weight(),
        pow2(3 * bits) < half_weight(),
{
    lemma_half_weight();
    lemma_pow2_increases(bits, 2 * bits);
    lemma_pow2_increases(2 * bits, 3 * bits);
    lemma_pow2_increases(3 * bits, 4 * bits);
    lemma_pow2_increases(4 * bits, 128);
    lemma_pow2_increases(3 * bits, 96);
    lemma_pow2_strictly_increases(96, 128);
}

/// Taking one more limb into account extends the remainder by that limb.
proof fn lemma_mod_step(x: nat, bits: nat, k: nat)
    ensures
        x % pow2(bits * (k + 1)) == x % pow2(bits * k) + pow2(bits * k) * limb_of(x, bits, k),
{
    assert(bits * (k + 1) == bits * k + bits) by (nonlinear_arith);
    lemma_pow2_adds(bits * k, bits);
    lemma_pow2_pos(bits * k);
    lemma_pow2_pos(bits);
    lemma_breakdown(x as int, pow2(bits * k) as int, pow2(bits) as int);
}

/// The canonical limbs of `v` recombine to `v` truncated to `4·bits` bits.
pub proof fn lemma_recombine_truncates(v: nat, bits: nat)
    ensures
        recombine(canonical_limbs(v, bits), bits) == v % range_bound(bits),
{
    let l = canonical_limbs(v, bits);
    lemma_mod_step(v, bits, 0);
    lemma_mod_step(v, bits, 1);
    lemma_mod_step(v, bits, 2);
    lemma_mod_step(v, bits, 3);
    lemma2_to64();
    assert(bits * 0 == 0);
    assert(bits * 1 == bits);
    assert(bits * 2 == 2 * bits);
    assert(bits * 3 == 3 * bits);
    assert(bits * 4 == 4 * bits);
    assert(v % pow2(0) == 0);
    assert(v % pow2(bits) == l[0]) by {
        assert(pow2(0) * limb_of(v, bits, 0) == limb_of(v, bits, 0));
    }
    lemma_mul_is_commutative(l[1] as int, pow2(bits) as int);
    lemma_mul_is_commutative(l[2] as int, pow2(2 * bits) as int);
    lemma_mul_is_commutative(l[3] as int, pow2(3 * bits) as int);
}

/// Every canonical limb lies below `2^bits`.
pub proof fn lemma_canonical_limbs_bounded(v: nat, bits: nat)
    ensures
        limbs_bounded(canonical_limbs(v, bits), bits),
{
    lemma_pow2_pos(bits);
    assert forall|k: int| 0 <= k < 4 implies canonical_limbs(v, bits)[k] < pow2(bits) by {
        lemma_mod_bound((v / pow2(bits * k as nat)) as int, pow2(bits) as int);
    }
}

/// Bounded limbs denote an integer inside the covered range.
pub proof fn lemma_recombine_bounded(limbs: Seq<nat>, bits: nat)
    requires
        limbs_bounded(limbs, bits),
    ensures
        recombine(limbs, bits) < range_bound(bits),
{
    let m = pow2(bits) as int;
    let m2 = pow2(2 * bits) as int;
    let m3 = pow2(3 * bits) as int;
    let m4 = pow2(4 * bits) as int;
    lemma_pow2_pos(bits);
    lemma_pow2_adds(bits, bits);
    lemma_pow2_adds(2 * bits, bits);
    lemma_pow2_adds(3 * bits, bits);
    let l0 = limbs[0] as int;
    let l1 = limbs[1] as int;
    let l2 = limbs[2] as int;
    let l3 = limbs[3] as int;
    assert(l0 + l1 * m < m2) by (nonlinear_arith)
        requires
            0 <= l0 < m,
            0 <= l1 < m,
            m2 == m * m,
    ;
    assert(l0 + l1 * m + l2 * m2 < m3) by (nonlinear_arith)
        requires
            0 <= l0 + l1 * m < m2,
            0 <= l2 < m,
            m3 == m2 * m,
    ;
    assert(l0 + l1 * m + l2 * m2 + l3 * m3 < m4) by (nonlinear_arith)
        requires
            0 <= l0 + l1 * m + l2 * m2 < m3,
            0 <= l3 < m,
            m4 == m3 * m,
    ;
}

/// A value inside the covered range is the recombination of its canonical limbs.
pub proof fn lemma_round_trip(v: nat, bits: nat)
    requires
        v < range_bound(bits),
    ensures
        recombine(canonical_limbs(v, bits), bits) == v,
        limbs_bounded(canonical_limbs(v, bits), bits),
{
    lemma_recombine_truncates(v, bits);
    lemma_canonical_limbs_bounded(v, bits);
    lemma_small_mod(v, range_bound(bits));
}

/// Bounded limbs are the canonical limbs of the integer that they denote: no
/// other four limbs below `2^bits` recombine to it.
pub proof fn lemma_recombine_unique(limbs: Seq<nat>, bits: nat)
    requires
        limbs_bounded(limbs, bits),
    ensures
        canonical_limbs(recombine(limbs, bits), bits) == limbs,
{
    let m = pow2(bits) as int;
    let v = recombine(limbs, bits) as int;
    let l0 = limbs[0] as int;
    let l1 = limbs[1] as int;
    let l2 = limbs[2] as int;
    let l3 = limbs[3] as int;
    lemma_pow2_pos(bits);
    lemma_pow2_pos(2 * bits);
    lemma_pow2_pos(3 * bits);
    lemma_pow2_adds(bits, bits);
    lemma_pow2_adds(2 * bits, bits);
    lemma2_to64();
    assert(bits * 0 == 0 && bits * 1 == bits && bits * 2 == 2 * bits && bits * 3 == 3 * bits);
    let q1 = l1 + l2 * m + l3 * (m * m);
    let q2 = l2 + l3 * m;
    assert(v == q1 * m + l0 && q1 == q2 * m + l1 && 0 <= q2 && 0 <= q1) by (nonlinear_arith)
        requires
            v == l0 + l1 * m + l2 * pow2(2 * bits) + l3 * pow2(3 * bits),
            pow2(2 * bits) == m * m,
            pow2(3 * bits) == m * m * m,
            q1 == l1 + l2 * m + l3 * (m * m),
            q2 == l2 + l3 * m,
            0 <= l1,
            0 <= l2,
            0 <= l3,
            0 < m,
    ;
    lemma_fundamental_div_mod_converse(v, m, q1, l0);
    lemma_fundamental_div_mod_converse(q1, m, q2, l1);
    lemma_fundamental_div_mod_converse(q2, m, l3, l2);
    lemma_small_mod(l3 as nat, m as nat);
    lemma_div_denominator(v, m, m);
    lemma_div_denominator(v, pow2(2 * bits) as int, m);
    assert(v / 1 == v);
    assert(limb_of(v as nat, bits, 0) == l0);
    assert(limb_of(v as nat, bits, 1) == l1);
    assert(limb_of(v as nat, bits, 2) == l2);
    assert(limb_of(v as nat, bits, 3) == l3);
    assert(canonical_limbs(v as nat, bits) =~= limbs);
}

/// A limb of `v` depends only on the bits of `v` below the limb's upper end.
proof fn lemma_limb_of_low_bits(v: nat, n: nat, bits: nat, k: nat)
    requires
        bits * (k + 1) <= n,
    ensures
        limb_of(v, bits, k) == limb_of(v % pow2(n), bits, k),
{
    let lo = v % pow2(n);
    let e = bits * k;
    let top = bits * (k + 1);
    assert(top == e + bits) by (nonlinear_arith)
        requires
            top == bits * (k + 1),
            e == bits * k,
    ;
    lemma_pow2_pos(n);
    lemma_pow2_pos(e);
    lemma_pow2_pos(top);
    lemma_pow2_pos(bits);
    // 2^n is a multiple of 2^top and of 2^e, so `v` and `lo` agree modulo both.
    lemma_pow2_adds(top, (n - top) as nat);
    lemma_pow2_adds(e, (n - e) as nat);
    lemma_fundamental_div_mod(v as int, pow2(n) as int);
    let q = (v / pow2(n)) as int;
    assert(v % pow2(top) == lo % pow2(top)) by {
        let c = pow2((n - top) as nat) as int;
        assert(pow2(n) * q == pow2(top) * (c * q)) by {
            lemma_mul_is_associative(pow2(top) as int, c, q);
        }
        lemma_mod_multiples_vanish(c * q, lo as int, pow2(top) as int);
    }
    assert(v % pow2(e) == lo % pow2(e)) by {
        let c = pow2((n - e) as nat) as int;
        assert(pow2(n) * q == pow2(e) * (c * q)) by {
            lemma_mul_is_associative(pow2(e) as int, c, q);
        }
        lemma_mod_multiples_vanish(c * q, lo as int, pow2(e) as int);
    }
    lemma_mod_step(v, bits, k);
    lemma_mod_step(lo, bits, k);
    lemma_mul_equality_converse(
        pow2(e) as int,
        limb_of(v, bits, k) as int,
        limb_of(lo, bits, k) as int,
    );
}

/// `2^bits` as a machine integer.
pub fn limb_modulus(bits: usize) -> (r: u64)
    requires
        bits < 64,
    ensures
        r == pow2(bits as nat),
{
    proof {
        lemma_u64_pow2_no_overflow(bits as nat);
        lemma_u64_shl_is_mul(1, bits as u64);
    }
    1u64 << (bits as u64)
}

/// Splits `value` into its four low limbs of `bits` bits, least significant
/// first. Bits of `value` at or above position `4·bits` are dropped.
pub fn decompose(value: &FieldValue, bits: usize) -> (limbs: [FieldValue; 4])
    requires
        bits <= MAX_SPLIT_BITS,
    ensures
        values_of(limbs) == canonical_limbs(value@, bits as nat),
{
    let low = value.lower_128();
    let m = limb_modulus(bits) as u128;
    proof {
        lemma_pow2_pos(bits as nat);
    }
    let l0 = low % m;
    let r1 = low / m;
    let l1 = r1 % m;
    let r2 = r1 / m;
    let l2 = r2 % m;
    let r3 = r2 / m;
    let l3 = r3 % m;
    let limbs = [
        FieldValue::from_u128(l0),
        FieldValue::from_u128(l1),
        FieldValue::from_u128(l2),
        FieldValue::from_u128(l3),
    ];
    proof {
        let b = bits as nat;
        let p = pow2(b) as int;
        lemma_half_weight();
        lemma2_to64();
        lemma_pow2_adds(b, b);
        lemma_pow2_adds(2 * b, b);
        lemma_pow2_pos(2 * b);
        lemma_pow2_pos(3 * b);
        assert(b * 0 == 0 && b * 1 == b && b * 2 == 2 * b && b * 3 == 3 * b && b * 4 == 4 * b);
        lemma_div_denominator(low as int, p, p);
        lemma_div_denominator(low as int, pow2(2 * b) as int, p);
        assert(l0 == limb_of(low as nat, b, 0));
        assert(l1 == limb_of(low as nat, b, 1));
        assert(l2 == limb_of(low as nat, b, 2));
        assert(l3 == limb_of(low as nat, b, 3));
        lemma_limb_of_low_bits(value@, 128, b, 0);
        lemma_limb_of_low_bits(value@, 128, b, 1);
        lemma_limb_of_low_bits(value@, 128, b, 2);
        lemma_limb_of_low_bits(value@, 128, b, 3);
        assert(values_of(limbs) =~= canonical_limbs(value@, b));
    }
    limbs
}

/// The value that four limbs denote, where each of them lies below `2^bits`.
pub fn recombine_limbs(limbs: &[FieldValue; 4], bits: usize) -> (r: Option<FieldValue>)
    requires
        bits <= MAX_SPLIT_BITS,
    ensures
        r is Some <==> limbs_bounded(values_of(*limbs), bits as nat),
        r matches Some(v) ==> v@ == recombine(values_of(*limbs), bits as nat),
{
    let m = limb_modulus(bits) as u128;
    proof {
        lemma_half_weight();
        lemma_u64_pow2_no_overflow(bits as nat);
    }
    let h0 = limbs[0].upper_128();
    let h1 = limbs[1].upper_128();
    let h2 = limbs[2].upper_128();
    let h3 = limbs[3].upper_128();
    let l0 = limbs[0].lower_128();
    let l1 = limbs[1].lower_128();
    let l2 = limbs[2].lower_128();
    let l3 = limbs[3].lower_128();
    proof {
        lemma_fundamental_div_mod(limbs[0]@ as int, half_weight() as int);
        lemma_fundamental_div_mod(limbs[1]@ as int, half_weight() as int);
        lemma_fundamental_div_mod(limbs[2]@ as int, half_weight() as int);
        lemma_fundamental_div_mod(limbs[3]@ as int, half_weight() as int);
    }
    if h0 != 0 || h1 != 0 || h2 != 0 || h3 != 0 || l0 >= m || l1 >= m || l2 >= m || l3 >= m {
        proof {
            let s = values_of(*limbs);
            assert(s[0] == limbs[0]@ && s[1] == limbs[1]@ && s[2] == limbs[2]@ && s[3]
                == limbs[3]@);
        }
        return None;
    }
    let ghost s = values_of(*limbs);
    let ghost b = bits as nat;
    proof {
        assert(s[0] == l0 && s[1] == l1 && s[2] == l2 && s[3] == l3);
        assert(limbs_bounded(s, b));
        lemma_recombine_bounded(s, b);
        lemma_split_within_half(b);
        lemma_pow2_adds(b, b);
        lemma_pow2_adds(2 * b, b);
        lemma_pow2_adds(3 * b, b);
        lemma_pow2_pos(b);
    }
    let m2 = m * m;
    let m3 = m2 * m;
    assert(m2 == pow2(2 * b) && m3 == pow2(3 * b));
    let ghost w1 = l1 as int * m as int;
    let ghost w2 = l2 as int * m2 as int;
    let ghost w3 = l3 as int * m3 as int;
    proof {
        lemma_mul_nonnegative(l1 as int, m as int);
        lemma_mul_nonnegative(l2 as int, m2 as int);
        lemma_mul_nonnegative(l3 as int, m3 as int);
        assert(l0 + w1 + w2 + w3 == recombine(s, b));
    }
    let total = l0 + l1 * m + l2 * m2 + l3 * m3;
    Some(FieldValue::from_u128(total))
}

} // verus!
