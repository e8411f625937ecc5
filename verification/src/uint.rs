//! 256-bit unsigned amounts, held as four little-endian 64-bit limbs.
//!
//! The arithmetic itself is done by `alloy`'s `U256` (the `ruint` crate):
//! each operation converts the limbs one for one and calls it.

use vstd::prelude::*;

verus! {

/// 2^64.
pub open spec fn limb_base() -> int {
    0x1_0000_0000_0000_0000int
}

/// 2^256, one more than the largest amount.
pub open spec fn u256_modulus() -> int {
    0x1_0000_0000_0000_0000_0000_0000_0000_0000_0000_0000_0000_0000_0000_0000_0000_0000int
}

/// The number that four little-endian limbs stand for.
pub open spec fn limbs_value(l0: u64, l1: u64, l2: u64, l3: u64) -> int {
    l0 + limb_base() * (l1 + limb_base() * (l2 + limb_base() * l3))
}

/// An unsigned 256-bit amount.
#[derive(Debug, Clone, Copy, PartialEq, Eq)]
pub struct U256 {
    /// Little-endian limbs: `limbs[0]` is the least significant.
    pub limbs: [u64; 4],
}

impl U256 {
    /// The number this amount stands for.
    pub open spec fn value(self) -> int {
        limbs_value(self.limbs@[0], self.limbs@[1], self.limbs@[2], self.limbs@[3])
    }

    /// Zero.
    pub fn zero() -> (r: U256)
        ensures
            r.value() == 0,
            r == (U256 { limbs: [0, 0, 0, 0] }),
    {
        U256 { limbs: [0, 0, 0, 0] }
    }

    /// The largest amount, 2^256 - 1.
    pub fn max_value() -> (r: U256)
        ensures
            r.value() == u256_modulus() - 1,
    {
        let r = U256 { limbs: [u64::MAX, u64::MAX, u64::MAX, u64::MAX] };
        let ghost m = u64::MAX as int;
        assert(m + limb_base() * (m + limb_base() * (m + limb_base() * m)) == u256_modulus() - 1)
            by (nonlinear_arith)
            requires
                m == 0xffff_ffff_ffff_ffffint,
                limb_base() == 0x1_0000_0000_0000_0000int,
                u256_modulus() == 0x1_0000_0000_0000_0000_0000_0000_0000_0000_0000_0000_0000_0000_0000_0000_0000_0000int,
        ;
        r
    }

    /// The amount equal to `x`.
    pub fn from_u128(x: u128) -> (r: U256)
        ensures
            r.value() == x,
    {
        u256_from_u128(x)
    }

    /// The amount equal to `x`.
    pub fn from_u64(x: u64) -> (r: U256)
        ensures
            r.value() == x,
    {
        u256_from_u128(x as u128)
    }

    /// This amount as a `u128`, if it fits.
    pub fn to_u128(&self) -> (r: Option<u128>)
        ensures
            r matches Some(v) ==> v == self.value(),
            r is Some <==> self.value() <= u128::MAX,
    {
        u256_to_u128(*self)
    }
}

/// Every amount lies in `0 .. 2^256`.
pub proof fn lemma_value_bounds(x: U256)
    ensures
        0 <= x.value() < u256_modulus(),
{
    let l0 = x.limbs@[0];
    let l1 = x.limbs@[1];
    let l2 = x.limbs@[2];
    let l3 = x.limbs@[3];
    let b = limb_base();
    assert(0 <= l2 + b * l3 <= b * b - 1) by (nonlinear_arith)
        requires
            0 <= l2 < b,
            0 <= l3 < b,
            b == limb_base(),
    ;
    assert(0 <= l1 + b * (l2 + b * l3) <= b * b * b - 1) by (nonlinear_arith)
        requires
            0 <= l1 < b,
            0 <= l2 + b * l3 <= b * b - 1,
            b == limb_base(),
    ;
    assert(0 <= l0 + b * (l1 + b * (l2 + b * l3)) <= b * b * b * b - 1) by (nonlinear_arith)
        requires
            0 <= l0 < b,
            0 <= l1 + b * (l2 + b * l3) <= b * b * b - 1,
            b == limb_base(),
    ;
    assert(b * b * b * b == u256_modulus()) by (nonlinear_arith)
        requires
            b == 0x1_0000_0000_0000_0000int,
            u256_modulus() == 0x1_0000_0000_0000_0000_0000_0000_0000_0000_0000_0000_0000_0000_0000_0000_0000_0000int,
    ;
}

/// `alloy`'s `U256::from` on a `u128`: the amount equal to it.
#[verifier::external_body]
pub(crate) fn u256_from_u128(x: u128) -> (r: U256)
    ensures
        r.value() == x,
{
    U256 { limbs: alloy::primitives::U256::from(x).into_limbs() }
}

/// `u128::try_from` on `alloy`'s `U256`: succeeds exactly when the amount
/// fits, and then gives it.
#[verifier::external_body]
pub(crate) fn u256_to_u128(x: U256) -> (r: Option<u128>)
    ensures
        r matches Some(v) ==> v == x.value(),
        r is Some <==> x.value() <= u128::MAX,
{
    u128::try_from(alloy::primitives::U256::from_limbs(x.limbs)).ok()
}

/// `alloy`'s `U256` multiplication, which wraps around at 2^256.
#[verifier::external_body]
pub(crate) fn u256_mul(a: U256, b: U256) -> (r: U256)
    ensures
        r.value() == (a.value() * b.value()) % u256_modulus(),
{
    let x = alloy::primitives::U256::from_limbs(a.limbs);
    let y = alloy::primitives::U256::from_limbs(b.limbs);
    U256 { limbs: (x * y).into_limbs() }
}

/// `alloy`'s `U256::checked_mul`: the product, unless it reaches 2^256.
#[verifier::external_body]
pub(crate) fn u256_checked_mul(a: U256, b: U256) -> (r: Option<U256>)
    ensures
        r matches Some(v) ==> v.value() == a.value() * b.value(),
        r is Some <==> a.value() * b.value() < u256_modulus(),
{
    let x = alloy::primitives::U256::from_limbs(a.limbs);
    let y = alloy::primitives::U256::from_limbs(b.limbs);
    match x.checked_mul(y) {
        Some(v) => Some(U256 { limbs: v.into_limbs() }),
        None => None,
    }
}

/// `alloy`'s `U256` division, rounding down; it panics on a zero divisor,
/// which is ruled out here.
#[verifier::external_body]
pub(crate) fn u256_div(a: U256, b: U256) -> (r: U256)
    requires
        b.value() != 0,
    ensures
        r.value() == a.value() / b.value(),
{
    let x = alloy::primitives::U256::from_limbs(a.limbs);
    let y = alloy::primitives::U256::from_limbs(b.limbs);
    U256 { limbs: (x / y).into_limbs() }
}

/// `alloy`'s `U256` addition, which wraps around at 2^256.
#[verifier::external_body]
pub(crate) fn u256_add(a: U256, b: U256) -> (r: U256)
    ensures
        r.value() == (a.value() + b.value()) % u256_modulus(),
{
    let x = alloy::primitives::U256::from_limbs(a.limbs);
    let y = alloy::primitives::U256::from_limbs(b.limbs);
    U256 { limbs: (x + y).into_limbs() }
}

/// `alloy`'s `U256` subtraction, which wraps around at 2^256.
#[verifier::external_body]
pub(crate) fn u256_sub(a: U256, b: U256) -> (r: U256)
    ensures
        r.value() == (a.value() - b.value()) % u256_modulus(),
{
    let x = alloy::primitives::U256::from_limbs(a.limbs);
    let y = alloy::primitives::U256::from_limbs(b.limbs);
    U256 { limbs: (x - y).into_limbs() }
}

/// `alloy`'s `U256::saturating_sub`: the difference, or zero below zero.
#[verifier::external_body]
pub(crate) fn u256_saturating_sub(a: U256, b: U256) -> (r: U256)
    ensures
        r.value() == if a.value() >= b.value() { a.value() - b.value() } else { 0 },
{
    let x = alloy::primitives::U256::from_limbs(a.limbs);
    let y = alloy::primitives::U256::from_limbs(b.limbs);
    U256 { limbs: x.saturating_sub(y).into_limbs() }
}

/// `alloy`'s `U256` order: whether `a` is below `b`.
#[verifier::external_body]
pub(crate) fn u256_lt(a: U256, b: U256) -> (r: bool)
    ensures
        r == (a.value() < b.value()),
{
    alloy::primitives::U256::from_limbs(a.limbs) < alloy::primitives::U256::from_limbs(b.limbs)
}

/// `alloy`'s `Display` of a `U256`: the amount in decimal.
#[verifier::external_body]
pub(crate) fn u256_to_decimal(x: U256) -> (r: String)
    ensures
        r@ == crate::text::spec_decimal(x.value() as nat),
{
    alloy::primitives::U256::from_limbs(x.limbs).to_string()
}

} // verus!
