//! Canonical integers of the Pallas base field, held as plain machine words.

use vstd::prelude::*;

verus! {

/// Upper 128 bits of the field modulus.
pub const MODULUS_HI: u128 = 0x4000_0000_0000_0000_0000_0000_0000_0000;

/// Lower 128 bits of the field modulus.
pub const MODULUS_LO: u128 = 0x2246_98fc_094c_f91b_992d_30ed_0000_0001;

/// `2^128`, the weight of the upper half of a [`FieldValue`].
pub open spec fn half_weight() -> nat {
    0x1_0000_0000_0000_0000_0000_0000_0000_0000nat
}

/// The modulus `p` of the Pallas base field.
pub open spec fn modulus() -> nat {
    0x4000_0000_0000_0000_0000_0000_0000_0000_2246_98fc_094c_f91b_992d_30ed_0000_0001nat
}

/// `2^64`, the weight of the second of two words.
pub open spec fn word_weight() -> nat {
    0x1_0000_0000_0000_0000nat
}

/// The four 64-bit words of an integer below `2^256`, least significant first.
pub open spec fn words_of(v: nat) -> Seq<u64> {
    let lo = v % half_weight();
    let hi = v / half_weight();
    seq![
        (lo % word_weight()) as u64,
        (lo / word_weight()) as u64,
        (hi % word_weight()) as u64,
        (hi / word_weight()) as u64,
    ]
}

/// A field element in canonical form: an integer below [`modulus`], stored as
/// two 128-bit halves.
#[derive(Clone, Copy, Debug, PartialEq, Eq, Structural)]
pub struct FieldValue {
    lo: u128,
    hi: u128,
}

impl View for FieldValue {
    type V = nat;

    closed spec fn view(&self) -> nat {
        self.hi as nat * half_weight() + self.lo as nat
    }
}

impl FieldValue {
    /// Every value is canonical: its integer lies below the modulus.
    #[verifier::type_invariant]
    pub closed spec fn canonical(self) -> bool {
        self@ < modulus()
    }

    /// The integer that two halves denote.
    pub open spec fn compose(lo: u128, hi: u128) -> nat {
        hi as nat * half_weight() + lo as nat
    }

    /// The element from its two halves, where they denote an integer below the modulus.
    pub fn new(lo: u128, hi: u128) -> (r: Option<FieldValue>)
        ensures
            r is Some <==> Self::compose(lo, hi) < modulus(),
            r matches Some(v) ==> v@ == Self::compose(lo, hi),
    {
        if hi < MODULUS_HI || (hi == MODULUS_HI && lo < MODULUS_LO) {
            Some(FieldValue { lo, hi })
        } else {
            None
        }
    }

    /// The additive identity.
    pub fn zero() -> (r: FieldValue)
        ensures
            r@ == 0,
    {
        FieldValue { lo: 0, hi: 0 }
    }

    /// The element of a machine integer.
    pub fn from_u64(v: u64) -> (r: FieldValue)
        ensures
            r@ == v,
    {
        FieldValue { lo: v as u128, hi: 0 }
    }

    /// The element of a 128-bit integer.
    pub fn from_u128(v: u128) -> (r: FieldValue)
        ensures
            r@ == v,
    {
        FieldValue { lo: v, hi: 0 }
    }

    /// The lower 128 bits of the canonical integer.
    pub fn lower_128(&self) -> (r: u128)
        ensures
            r == self@ % half_weight(),
            self@ < modulus(),
    {
        proof {
            use_type_invariant(self);
        }
        self.lo
    }

    /// The upper bits of the canonical integer.
    pub fn upper_128(&self) -> (r: u128)
        ensures
            r == self@ / half_weight(),
    {
        self.hi
    }

    /// The canonical integer as four 64-bit words, least significant first.
    pub fn to_words(&self) -> (r: [u64; 4])
        ensures
            r@ == words_of(self@),
            r[0] as nat + r[1] as nat * 0x1_0000_0000_0000_0000nat + (r[2] as nat + r[3] as nat
                * 0x1_0000_0000_0000_0000nat) * half_weight() == self@,
    {
        let lo = self.lo;
        let hi = self.hi;
        let w0 = (lo & 0xffff_ffff_ffff_ffff) as u64;
        let w1 = (lo >> 64) as u64;
        let w2 = (hi & 0xffff_ffff_ffff_ffff) as u64;
        let w3 = (hi >> 64) as u64;
        assert(w0 == lo % 0x1_0000_0000_0000_0000 && w1 == lo / 0x1_0000_0000_0000_0000)
            by (bit_vector)
            requires
                w0 == (lo & 0xffff_ffff_ffff_ffff) as u64,
                w1 == (lo >> 64) as u64,
        ;
        assert(w2 == hi % 0x1_0000_0000_0000_0000 && w3 == hi / 0x1_0000_0000_0000_0000)
            by (bit_vector)
            requires
                w2 == (hi & 0xffff_ffff_ffff_ffff) as u64,
                w3 == (hi >> 64) as u64,
        ;
        assert(lo == self@ % half_weight() && hi == self@ / half_weight());
        assert([w0, w1, w2, w3]@ =~= words_of(self@));
        assert(w0 as u128 + (w1 as u128) * 0x1_0000_0000_0000_0000 == lo) by (bit_vector)
            requires
                w0 == (lo & 0xffff_ffff_ffff_ffff) as u64,
                w1 == (lo >> 64) as u64,
        ;
        assert(w2 as u128 + (w3 as u128) * 0x1_0000_0000_0000_0000 == hi) by (bit_vector)
            requires
                w2 == (hi & 0xffff_ffff_ffff_ffff) as u64,
                w3 == (hi >> 64) as u64,
        ;
        [w0, w1, w2, w3]
    }
}

} // verus!
