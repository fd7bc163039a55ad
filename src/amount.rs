//! A 256-bit unsigned token amount, held as two 128-bit words.

use vstd::bytes::*;
use vstd::prelude::*;

verus! {

/// 2^128, the weight of the high word.
pub open spec fn word_base() -> nat {
    0x1_0000_0000_0000_0000_0000_0000_0000_0000nat
}

/// The largest amount, 2^256 - 1.
pub open spec fn u256_max() -> nat {
    (word_base() * word_base() - 1) as nat
}

/// A 256-bit unsigned integer: `hi * 2^128 + lo`.
#[derive(Clone, Copy, Debug, PartialEq, Eq, Structural)]
pub struct U256 {
    pub lo: u128,
    pub hi: u128,
}

impl U256 {
    /// The number this value stands for.
    pub open spec fn value(self) -> nat {
        self.hi as nat * word_base() + self.lo as nat
    }

    /// Little-endian bytes of the amount, 32 of them.
    pub open spec fn spec_le_bytes(self) -> Seq<u8> {
        spec_u128_to_le_bytes(self.lo) + spec_u128_to_le_bytes(self.hi)
    }

    pub fn new(value: u128) -> (r: U256)
        ensures
            r.value() == value,
    {
        U256 { lo: value, hi: 0 }
    }

    pub fn from_words(hi: u128, lo: u128) -> (r: U256)
        ensures
            r.hi == hi,
            r.lo == lo,
    {
        U256 { lo, hi }
    }

    pub fn into_words(self) -> (r: (u128, u128))
        ensures
            r == (self.hi, self.lo),
    {
        (self.hi, self.lo)
    }

    pub fn zero() -> (r: U256)
        ensures
            r.value() == 0,
    {
        U256 { lo: 0, hi: 0 }
    }

    pub fn max_value() -> (r: U256)
        ensures
            r.value() == u256_max(),
    {
        U256 { lo: u128::MAX, hi: u128::MAX }
    }

    /// The 32 little-endian bytes of the amount.
    pub fn to_le_bytes(&self) -> (r: Vec<u8>)
        ensures
            r@ == self.spec_le_bytes(),
            r@.len() == 32,
    {
        proof {
            lemma_auto_spec_u128_to_from_le_bytes();
        }
        let mut r = u128_to_le_bytes(self.lo);
        let mut h = u128_to_le_bytes(self.hi);
        r.append(&mut h);
        r
    }

    /// Reads an amount from exactly 32 little-endian bytes.
    pub fn from_le_bytes(bytes: &[u8]) -> (r: U256)
        requires
            bytes@.len() == 32,
        ensures
            r.spec_le_bytes() == bytes@,
    {
        proof {
            lemma_auto_spec_u128_to_from_le_bytes();
        }
        let lo = u128_from_le_bytes(vstd::slice::slice_subrange(bytes, 0, 16));
        let hi = u128_from_le_bytes(vstd::slice::slice_subrange(bytes, 16, 32));
        let r = U256 { lo, hi };
        assert(r.spec_le_bytes() =~= bytes@);
        r
    }
}

impl U256 {
    /// Whether `self` is at most `other`.
    pub fn is_at_most(&self, other: &U256) -> (r: bool)
        ensures
            r == (self.value() <= other.value()),
    {
        proof {
            lemma_words_order(*self, *other);
        }
        self.hi < other.hi || (self.hi == other.hi && self.lo <= other.lo)
    }

    /// The lesser of two amounts.
    pub fn min(self, other: U256) -> (r: U256)
        ensures
            r.value() == if self.value() <= other.value() {
                self.value()
            } else {
                other.value()
            },
    {
        if self.is_at_most(&other) {
            self
        } else {
            other
        }
    }

    /// Relies on ethnum's `U256::checked_add`: the sum, or `None` where it
    /// passes 2^256 - 1.
    #[verifier::external_body]
    pub(crate) fn checked_add(self, rhs: U256) -> (r: Option<U256>)
        ensures
            match r {
                Some(s) => s.value() == self.value() + rhs.value(),
                None => self.value() + rhs.value() > u256_max(),
            },
    {
        let a = ethnum::U256::from_words(self.hi, self.lo);
        let b = ethnum::U256::from_words(rhs.hi, rhs.lo);
        match a.checked_add(b) {
            Some(s) => {
                let (hi, lo) = s.into_words();
                Some(U256 { lo, hi })
            },
            None => None,
        }
    }

    /// Relies on ethnum's `U256::checked_sub`: the difference, or `None`
    /// where it is negative.
    #[verifier::external_body]
    pub(crate) fn checked_sub(self, rhs: U256) -> (r: Option<U256>)
        ensures
            match r {
                Some(d) => d.value() == self.value() - rhs.value(),
                None => self.value() < rhs.value(),
            },
    {
        let a = ethnum::U256::from_words(self.hi, self.lo);
        let b = ethnum::U256::from_words(rhs.hi, rhs.lo);
        match a.checked_sub(b) {
            Some(d) => {
                let (hi, lo) = d.into_words();
                Some(U256 { lo, hi })
            },
            None => None,
        }
    }

    /// Relies on ethnum's `U256::checked_mul`: the product, or `None` where
    /// it passes 2^256 - 1.
    #[verifier::external_body]
    pub(crate) fn checked_mul(self, rhs: U256) -> (r: Option<U256>)
        ensures
            match r {
                Some(p) => p.value() == self.value() * rhs.value(),
                None => self.value() * rhs.value() > u256_max(),
            },
    {
        let a = ethnum::U256::from_words(self.hi, self.lo);
        let b = ethnum::U256::from_words(rhs.hi, rhs.lo);
        match a.checked_mul(b) {
            Some(p) => {
                let (hi, lo) = p.into_words();
                Some(U256 { lo, hi })
            },
            None => None,
        }
    }

    /// Relies on ethnum's `U256::checked_div`: the quotient rounded down, or
    /// `None` for a zero divisor.
    #[verifier::external_body]
    pub(crate) fn checked_div(self, rhs: U256) -> (r: Option<U256>)
        ensures
            match r {
                Some(q) => rhs.value() > 0 && q.value() == self.value() / rhs.value(),
                None => rhs.value() == 0,
            },
    {
        let a = ethnum::U256::from_words(self.hi, self.lo);
        let b = ethnum::U256::from_words(rhs.hi, rhs.lo);
        match a.checked_div(b) {
            Some(q) => {
                let (hi, lo) = q.into_words();
                Some(U256 { lo, hi })
            },
            None => None,
        }
    }
}

/// Every amount is at most 2^256 - 1.
pub proof fn lemma_value_bound(a: U256)
    ensures
        a.value() <= u256_max(),
{
    let b = word_base() as int;
    assert(a.hi as int * b + a.lo as int <= (b - 1) * b + (b - 1)) by (nonlinear_arith)
        requires
            0 <= a.hi < b,
            0 <= a.lo < b,
    ;
}

/// Amounts compare as their word pairs do, high word first.
pub proof fn lemma_words_order(a: U256, b: U256)
    ensures
        (a.value() <= b.value()) == (a.hi < b.hi || (a.hi == b.hi && a.lo <= b.lo)),
{
    let base = word_base() as int;
    if a.hi < b.hi {
        assert((a.hi as int) * base + (a.lo as int) < (b.hi as int) * base) by (nonlinear_arith)
            requires
                a.hi < b.hi,
                0 <= a.lo < base,
        ;
    } else if a.hi > b.hi {
        assert((b.hi as int) * base + (b.lo as int) < (a.hi as int) * base) by (nonlinear_arith)
            requires
                b.hi < a.hi,
                0 <= b.lo < base,
        ;
    }
}

/// Two amounts with the same bytes are the same amount.
pub proof fn lemma_le_bytes_injective(a: U256, b: U256)
    requires
        a.spec_le_bytes() == b.spec_le_bytes(),
    ensures
        a == b,
{
    lemma_auto_spec_u128_to_from_le_bytes();
    assert(a.spec_le_bytes().subrange(0, 16) =~= spec_u128_to_le_bytes(a.lo));
    assert(b.spec_le_bytes().subrange(0, 16) =~= spec_u128_to_le_bytes(b.lo));
    assert(a.spec_le_bytes().subrange(16, 32) =~= spec_u128_to_le_bytes(a.hi));
    assert(b.spec_le_bytes().subrange(16, 32) =~= spec_u128_to_le_bytes(b.hi));
}

impl From<u64> for U256 {
    fn from(v: u64) -> (r: U256) {
        U256 { lo: v as u128, hi: 0 }
    }
}

impl vstd::std_specs::convert::FromSpecImpl<u64> for U256 {
    open spec fn obeys_from_spec() -> bool {
        true
    }

    open spec fn from_spec(v: u64) -> U256 {
        U256 { lo: v as u128, hi: 0 }
    }
}

} // verus!
