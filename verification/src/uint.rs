//! Unsigned 256-bit integers, held as four 64-bit limbs, least significant first.
//!
//! The arithmetic is that of `alloy_primitives::U256`, which is `Uint<256, 4>`
//! of the crate `ruint`. The functions at the end of this file call it; their
//! contracts are taken on trust from that crate, as release 1.12.1 of `ruint`
//! has it; the dependencies hold `ruint` to that release. Each of them turns its
//! arguments into `alloy_primitives::U256` with `from_limbs` and the result
//! back with `into_limbs`, both of which take and give the limbs least
//! significant first and change nothing.

use vstd::prelude::*;

verus! {

/// Two to the power 256: the number of values of a [`U256`].
pub open spec fn modulus() -> nat {
    0x1_0000_0000_0000_0000_0000_0000_0000_0000_0000_0000_0000_0000_0000_0000_0000_0000nat
}

/// The number that four limbs stand for, least significant limb first.
pub open spec fn limbs_value(l0: u64, l1: u64, l2: u64, l3: u64) -> nat {
    (l0 as nat) + (l1 as nat) * 0x1_0000_0000_0000_0000nat
        + (l2 as nat) * 0x1_0000_0000_0000_0000_0000_0000_0000_0000nat
        + (l3 as nat) * 0x1_0000_0000_0000_0000_0000_0000_0000_0000_0000_0000_0000_0000nat
}

/// The weights of the limbs are the powers of two to the power 64, and
/// [`modulus`] is the next power: one more than the largest number that four
/// limbs stand for.
pub proof fn lemma_modulus()
    ensures
        limbs_value(1, 0, 0, 0) == 1,
        limbs_value(0, 1, 0, 0) == u64::MAX + 1,
        limbs_value(0, 0, 1, 0) == (u64::MAX + 1) * limbs_value(0, 1, 0, 0),
        limbs_value(0, 0, 0, 1) == (u64::MAX + 1) * limbs_value(0, 0, 1, 0),
        modulus() == (u64::MAX + 1) * limbs_value(0, 0, 0, 1),
        modulus() == limbs_value(u64::MAX, u64::MAX, u64::MAX, u64::MAX) + 1,
{
}

/// An unsigned 256-bit integer.
#[derive(Clone, Copy, Debug, PartialEq, Eq)]
pub struct U256 {
    /// The four limbs, least significant first.
    pub limbs: [u64; 4],
}

impl View for U256 {
    type V = nat;

    /// The number that the integer stands for.
    open spec fn view(&self) -> nat {
        limbs_value(self.limbs[0], self.limbs[1], self.limbs[2], self.limbs[3])
    }
}

impl U256 {
    /// The integer `value`.
    pub fn from_u64(value: u64) -> (r: U256)
        ensures
            r@ == value,
    {
        U256 { limbs: [value, 0, 0, 0] }
    }

    /// The integer zero.
    pub fn zero() -> (r: U256)
        ensures
            r@ == 0,
    {
        U256 { limbs: [0, 0, 0, 0] }
    }

    /// The integer with the given limbs, least significant first.
    pub fn from_limbs(limbs: [u64; 4]) -> (r: U256)
        ensures
            r.limbs == limbs,
    {
        U256 { limbs }
    }

    /// This integer as a `u64`, where it is small enough for one.
    pub fn as_u64(self) -> (r: Option<u64>)
        ensures
            match r {
                Some(value) => self@ == value,
                None => self@ > u64::MAX,
            },
    {
        if self.limbs[1] == 0 && self.limbs[2] == 0 && self.limbs[3] == 0 {
            Some(self.limbs[0])
        } else {
            None
        }
    }

    /// The limbs of this integer, least significant first.
    pub fn into_limbs(self) -> (r: [u64; 4])
        ensures
            r == self.limbs,
    {
        self.limbs
    }

    /// Every value is below two to the power 256, and the largest is one
    /// below it.
    pub proof fn lemma_bounded(self)
        ensures
            self@ < modulus(),
            self.limbs[0] == u64::MAX && self.limbs[1] == u64::MAX && self.limbs[2] == u64::MAX
                && self.limbs[3] == u64::MAX ==> self@ == modulus() - 1,
    {
    }

    /// Two integers that stand for the same number are the same.
    pub proof fn lemma_view_injective(self, other: U256)
        requires
            self@ == other@,
        ensures
            self == other,
    {
        assert(self.limbs[0] == other.limbs[0] && self.limbs[1] == other.limbs[1] && self.limbs[2]
            == other.limbs[2] && self.limbs[3] == other.limbs[3]);
        assert(self.limbs =~= other.limbs);
    }
}

/// The sum of `a` and `b`, reduced modulo two to the power 256.
///
/// Calls `+` of `alloy_primitives::U256`, which is `Uint::wrapping_add`: the
/// sum, wrapping around at the boundary of the type. Trusted, not proved.
#[verifier::external_body]
pub(crate) fn wrapping_add(a: U256, b: U256) -> (r: U256)
    ensures
        r@ == (a@ + b@) % modulus(),
{
    let x = alloy_primitives::U256::from_limbs(a.limbs);
    let y = alloy_primitives::U256::from_limbs(b.limbs);
    U256 { limbs: (x + y).into_limbs() }
}

/// The difference of `a` and `b`, reduced modulo two to the power 256: where
/// `b` is the larger, two to the power 256 is added to it.
///
/// Calls `-` of `alloy_primitives::U256`, which is `Uint::wrapping_sub`: the
/// difference, wrapping around at the boundary of the type. Trusted, not
/// proved.
#[verifier::external_body]
pub(crate) fn wrapping_sub(a: U256, b: U256) -> (r: U256)
    ensures
        r@ == (a@ - b@) % (modulus() as int),
{
    let x = alloy_primitives::U256::from_limbs(a.limbs);
    let y = alloy_primitives::U256::from_limbs(b.limbs);
    U256 { limbs: (x - y).into_limbs() }
}

/// The product of `a` and `b`, reduced modulo two to the power 256.
///
/// Calls `*` of `alloy_primitives::U256`, which is `Uint::wrapping_mul`: the
/// product, wrapping around at the boundary of the type. Trusted, not proved.
#[verifier::external_body]
pub(crate) fn wrapping_mul(a: U256, b: U256) -> (r: U256)
    ensures
        r@ == (a@ * b@) % modulus(),
{
    let x = alloy_primitives::U256::from_limbs(a.limbs);
    let y = alloy_primitives::U256::from_limbs(b.limbs);
    U256 { limbs: (x * y).into_limbs() }
}

/// The quotient of `a` by `b`, rounded down.
///
/// Calls `/` of `alloy_primitives::U256`, which is `Uint::wrapping_div`: the
/// quotient rounded down. It panics where the divisor is zero, which the
/// precondition rules out. Trusted, not proved.
#[verifier::external_body]
pub(crate) fn div(a: U256, b: U256) -> (r: U256)
    requires
        b@ != 0,
    ensures
        r@ == a@ / b@,
{
    let x = alloy_primitives::U256::from_limbs(a.limbs);
    let y = alloy_primitives::U256::from_limbs(b.limbs);
    U256 { limbs: (x / y).into_limbs() }
}

/// Whether `a` is less than `b`.
///
/// Calls `<` of `alloy_primitives::U256`, which orders the integers by the
/// numbers they stand for: it compares the limbs from the most significant
/// down. Trusted, not proved.
#[verifier::external_body]
pub(crate) fn less_than(a: U256, b: U256) -> (r: bool)
    ensures
        r == (a@ < b@),
{
    let x = alloy_primitives::U256::from_limbs(a.limbs);
    let y = alloy_primitives::U256::from_limbs(b.limbs);
    x < y
}

} // verus!
