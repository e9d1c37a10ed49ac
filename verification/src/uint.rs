//! 256-bit unsigned integers for fixed-point amounts, rates and debts.
//!
//! A value is held as four 64-bit limbs, least significant first, and is seen in
//! specifications as the natural number those limbs spell. Comparisons and the
//! conversions to and from machine integers are written and proved here; the
//! arithmetic itself is carried out by `alloy_primitives::U256` (ruint).

use vstd::prelude::*;

verus! {

/// 2^64, the weight of the second limb.
pub open spec fn base1() -> int {
    18446744073709551616int
}

/// 2^128, the weight of the third limb.
pub open spec fn base2() -> int {
    340282366920938463463374607431768211456int
}

/// 2^192, the weight of the fourth limb.
pub open spec fn base3() -> int {
    6277101735386680763835789423207666416102355444464034512896int
}

/// 2^256: one more than the largest representable value.
pub open spec fn modulus() -> int {
    115792089237316195423570985008687907853269984665640564039457584007913129639936int
}

/// The largest representable value, 2^256 - 1.
pub open spec fn max_value() -> nat {
    (modulus() - 1) as nat
}

/// A 256-bit unsigned integer.
#[derive(Clone, Copy, Debug, PartialEq, Eq, Structural)]
pub struct U256 {
    /// Bits 0..64
    pub l0: u64,
    /// Bits 64..128
    pub l1: u64,
    /// Bits 128..192
    pub l2: u64,
    /// Bits 192..256
    pub l3: u64,
}

impl View for U256 {
    type V = nat;

    open spec fn view(&self) -> nat {
        (self.l0 + base1() * self.l1 + base2() * self.l2 + base3() * self.l3) as nat
    }
}

/// The value that a saturating operation gives for the exact result `x`.
pub open spec fn saturate(x: nat) -> nat {
    if x < modulus() {
        x as nat
    } else {
        max_value()
    }
}

/// The digit character of `d` (for `d < 10`).
pub open spec fn digit_char(d: nat) -> char {
    if d == 0 { '0' }
    else if d == 1 { '1' }
    else if d == 2 { '2' }
    else if d == 3 { '3' }
    else if d == 4 { '4' }
    else if d == 5 { '5' }
    else if d == 6 { '6' }
    else if d == 7 { '7' }
    else if d == 8 { '8' }
    else { '9' }
}

/// Decimal notation of `n`, without leading zeros ("0" for zero).
pub open spec fn decimal_text(n: nat) -> Seq<char>
    decreases n,
{
    if n < 10 {
        seq![digit_char(n)]
    } else {
        decimal_text(n / 10).push(digit_char(n % 10))
    }
}

/// Every value lies below 2^256.
pub proof fn lemma_view_bound(x: U256)
    ensures
        x@ < modulus(),
{
}

/// Two values with the same number are the same value.
pub proof fn lemma_view_injective(x: U256, y: U256)
    requires
        x@ == y@,
    ensures
        x == y,
{
    let b = base1();
    let hx = x.l1 + b * x.l2 + b * b * x.l3;
    let hy = y.l1 + b * y.l2 + b * b * y.l3;
    assert(x@ == x.l0 + b * hx) by (nonlinear_arith)
        requires
            b == base1(),
            hx == x.l1 + b * x.l2 + b * b * x.l3,
            x@ == x.l0 + base1() * x.l1 + base2() * x.l2 + base3() * x.l3,
            base2() == b * b,
            base3() == b * b * b,
    ;
    assert(y@ == y.l0 + b * hy) by (nonlinear_arith)
        requires
            b == base1(),
            hy == y.l1 + b * y.l2 + b * b * y.l3,
            y@ == y.l0 + base1() * y.l1 + base2() * y.l2 + base3() * y.l3,
            base2() == b * b,
            base3() == b * b * b,
    ;
    vstd::arithmetic::div_mod::lemma_fundamental_div_mod_converse(x@ as int, b, hx, x.l0 as int);
    vstd::arithmetic::div_mod::lemma_fundamental_div_mod_converse(y@ as int, b, hy, y.l0 as int);
    assert(x.l0 == y.l0);
    assert(hx == hy);
    let gx = x.l2 + b * x.l3;
    let gy = y.l2 + b * y.l3;
    assert(hx == x.l1 + b * gx) by (nonlinear_arith)
        requires
            hx == x.l1 + b * x.l2 + b * b * x.l3,
            gx == x.l2 + b * x.l3,
    ;
    assert(hy == y.l1 + b * gy) by (nonlinear_arith)
        requires
            hy == y.l1 + b * y.l2 + b * b * y.l3,
            gy == y.l2 + b * y.l3,
    ;
    vstd::arithmetic::div_mod::lemma_fundamental_div_mod_converse(hx, b, gx, x.l1 as int);
    vstd::arithmetic::div_mod::lemma_fundamental_div_mod_converse(hy, b, gy, y.l1 as int);
    assert(x.l1 == y.l1);
    vstd::arithmetic::div_mod::lemma_fundamental_div_mod_converse(gx, b, x.l3 as int, x.l2 as int);
    vstd::arithmetic::div_mod::lemma_fundamental_div_mod_converse(gy, b, y.l3 as int, y.l2 as int);
}

impl U256 {
    /// Zero.
    pub fn zero() -> (r: U256)
        ensures
            r@ == 0,
    {
        U256 { l0: 0, l1: 0, l2: 0, l3: 0 }
    }

    /// The largest value, 2^256 - 1.
    pub fn max() -> (r: U256)
        ensures
            r@ == max_value(),
    {
        U256 { l0: u64::MAX, l1: u64::MAX, l2: u64::MAX, l3: u64::MAX }
    }

    /// Widens a `u64`.
    pub fn from_u64(v: u64) -> (r: U256)
        ensures
            r@ == v,
    {
        U256 { l0: v, l1: 0, l2: 0, l3: 0 }
    }

    /// Widens a `u128`.
    pub fn from_u128(v: u128) -> (r: U256)
        ensures
            r@ == v,
    {
        let lo: u64 = (v % 18446744073709551616u128) as u64;
        let hi: u64 = (v / 18446744073709551616u128) as u64;
        proof {
            vstd::arithmetic::div_mod::lemma_fundamental_div_mod(v as int, base1());
        }
        U256 { l0: lo, l1: hi, l2: 0, l3: 0 }
    }

    /// Narrows to a `u128`; the value must fit.
    pub fn to_u128(&self) -> (r: u128)
        requires
            self@ < base2(),
        ensures
            r == self@,
    {
        (self.l0 as u128) + (self.l1 as u128) * 18446744073709551616u128
    }

    /// Narrows to a `u64`; the value must fit.
    pub fn to_u64(&self) -> (r: u64)
        requires
            self@ < base1(),
        ensures
            r == self@,
    {
        self.l0
    }

    /// `true` iff the value is zero.
    pub fn is_zero(&self) -> (r: bool)
        ensures
            r == (self@ == 0),
    {
        self.l0 == 0 && self.l1 == 0 && self.l2 == 0 && self.l3 == 0
    }

    /// Value equality.
    pub fn eq(&self, other: &U256) -> (r: bool)
        ensures
            r == (self@ == other@),
    {
        proof {
            if self@ == other@ {
                lemma_view_injective(*self, *other);
            }
        }
        self.l0 == other.l0 && self.l1 == other.l1 && self.l2 == other.l2 && self.l3 == other.l3
    }

    /// Strictly less than.
    pub fn lt(&self, other: &U256) -> (r: bool)
        ensures
            r == (self@ < other@),
    {
        if self.l3 != other.l3 {
            self.l3 < other.l3
        } else if self.l2 != other.l2 {
            self.l2 < other.l2
        } else if self.l1 != other.l1 {
            self.l1 < other.l1
        } else {
            self.l0 < other.l0
        }
    }

    /// Less than or equal.
    pub fn le(&self, other: &U256) -> (r: bool)
        ensures
            r == (self@ <= other@),
    {
        !other.lt(self)
    }

    /// Strictly greater than.
    pub fn gt(&self, other: &U256) -> (r: bool)
        ensures
            r == (self@ > other@),
    {
        other.lt(self)
    }
}

/// Wrapping addition: `ruint::Uint::wrapping_add` (also the `+` operator of
/// `alloy_primitives::U256`). Claimed: the result is the sum modulo 2^256.
#[verifier::external_body]
pub(crate) fn wrapping_add(a: U256, b: U256) -> (r: U256)
    ensures
        r@ as int == (a@ as int + b@ as int) % modulus(),
{
    let x = alloy_primitives::U256::from_limbs([a.l0, a.l1, a.l2, a.l3]);
    let y = alloy_primitives::U256::from_limbs([b.l0, b.l1, b.l2, b.l3]);
    let l = x.wrapping_add(y).into_limbs();
    U256 { l0: l[0], l1: l[1], l2: l[2], l3: l[3] }
}

/// Wrapping subtraction: `ruint::Uint::wrapping_sub` (the `-` operator).
/// Claimed: the result is the difference modulo 2^256.
#[verifier::external_body]
pub(crate) fn wrapping_sub(a: U256, b: U256) -> (r: U256)
    ensures
        r@ as int == (a@ - b@) % modulus(),
{
    let x = alloy_primitives::U256::from_limbs([a.l0, a.l1, a.l2, a.l3]);
    let y = alloy_primitives::U256::from_limbs([b.l0, b.l1, b.l2, b.l3]);
    let l = x.wrapping_sub(y).into_limbs();
    U256 { l0: l[0], l1: l[1], l2: l[2], l3: l[3] }
}

/// Wrapping multiplication: `ruint::Uint::wrapping_mul` (the `*` operator).
/// Claimed: the result is the product modulo 2^256.
#[verifier::external_body]
pub(crate) fn wrapping_mul(a: U256, b: U256) -> (r: U256)
    ensures
        r@ as int == (a@ as int * b@ as int) % modulus(),
{
    let x = alloy_primitives::U256::from_limbs([a.l0, a.l1, a.l2, a.l3]);
    let y = alloy_primitives::U256::from_limbs([b.l0, b.l1, b.l2, b.l3]);
    let l = x.wrapping_mul(y).into_limbs();
    U256 { l0: l[0], l1: l[1], l2: l[2], l3: l[3] }
}

/// Division rounding down: `ruint::Uint::wrapping_div` (the `/` operator), which
/// panics on a zero divisor; a zero divisor is therefore excluded.
/// Claimed: the result is the floor of the quotient.
#[verifier::external_body]
pub(crate) fn div(a: U256, b: U256) -> (r: U256)
    requires
        b@ != 0,
    ensures
        r@ == a@ / b@,
{
    let x = alloy_primitives::U256::from_limbs([a.l0, a.l1, a.l2, a.l3]);
    let y = alloy_primitives::U256::from_limbs([b.l0, b.l1, b.l2, b.l3]);
    let l = x.wrapping_div(y).into_limbs();
    U256 { l0: l[0], l1: l[1], l2: l[2], l3: l[3] }
}

/// `ruint::Uint::checked_add`. Claimed: `None` exactly when the sum does not fit,
/// otherwise the sum.
#[verifier::external_body]
pub(crate) fn checked_add(a: U256, b: U256) -> (r: Option<U256>)
    ensures
        r is Some <==> a@ + b@ < modulus(),
        r matches Some(v) ==> v@ == a@ + b@,
{
    let x = alloy_primitives::U256::from_limbs([a.l0, a.l1, a.l2, a.l3]);
    let y = alloy_primitives::U256::from_limbs([b.l0, b.l1, b.l2, b.l3]);
    match x.checked_add(y) {
        Some(v) => {
            let l = v.into_limbs();
            Some(U256 { l0: l[0], l1: l[1], l2: l[2], l3: l[3] })
        },
        None => None,
    }
}

/// `ruint::Uint::checked_sub`. Claimed: `None` exactly when `b > a`, otherwise the
/// difference.
#[verifier::external_body]
pub(crate) fn checked_sub(a: U256, b: U256) -> (r: Option<U256>)
    ensures
        r is Some <==> b@ <= a@,
        r matches Some(v) ==> v@ == a@ - b@,
{
    let x = alloy_primitives::U256::from_limbs([a.l0, a.l1, a.l2, a.l3]);
    let y = alloy_primitives::U256::from_limbs([b.l0, b.l1, b.l2, b.l3]);
    match x.checked_sub(y) {
        Some(v) => {
            let l = v.into_limbs();
            Some(U256 { l0: l[0], l1: l[1], l2: l[2], l3: l[3] })
        },
        None => None,
    }
}

/// `ruint::Uint::checked_mul`. Claimed: `None` exactly when the product does not
/// fit, otherwise the product.
#[verifier::external_body]
pub(crate) fn checked_mul(a: U256, b: U256) -> (r: Option<U256>)
    ensures
        r is Some <==> a@ * b@ < modulus(),
        r matches Some(v) ==> v@ == a@ * b@,
{
    let x = alloy_primitives::U256::from_limbs([a.l0, a.l1, a.l2, a.l3]);
    let y = alloy_primitives::U256::from_limbs([b.l0, b.l1, b.l2, b.l3]);
    match x.checked_mul(y) {
        Some(v) => {
            let l = v.into_limbs();
            Some(U256 { l0: l[0], l1: l[1], l2: l[2], l3: l[3] })
        },
        None => None,
    }
}

/// `ruint::Uint::checked_div`. Claimed: `None` exactly when the divisor is zero,
/// otherwise the floor of the quotient.
#[verifier::external_body]
pub(crate) fn checked_div(a: U256, b: U256) -> (r: Option<U256>)
    ensures
        r is Some <==> b@ != 0,
        r matches Some(v) ==> v@ == a@ / b@,
{
    let x = alloy_primitives::U256::from_limbs([a.l0, a.l1, a.l2, a.l3]);
    let y = alloy_primitives::U256::from_limbs([b.l0, b.l1, b.l2, b.l3]);
    match x.checked_div(y) {
        Some(v) => {
            let l = v.into_limbs();
            Some(U256 { l0: l[0], l1: l[1], l2: l[2], l3: l[3] })
        },
        None => None,
    }
}

/// `ruint::Uint::saturating_add`. Claimed: the sum, or 2^256 - 1 when it does not fit.
#[verifier::external_body]
pub(crate) fn saturating_add(a: U256, b: U256) -> (r: U256)
    ensures
        r@ == saturate(a@ + b@),
{
    let x = alloy_primitives::U256::from_limbs([a.l0, a.l1, a.l2, a.l3]);
    let y = alloy_primitives::U256::from_limbs([b.l0, b.l1, b.l2, b.l3]);
    let l = x.saturating_add(y).into_limbs();
    U256 { l0: l[0], l1: l[1], l2: l[2], l3: l[3] }
}

/// `ruint::Uint::saturating_mul`. Claimed: the product, or 2^256 - 1 when it does
/// not fit.
#[verifier::external_body]
pub(crate) fn saturating_mul(a: U256, b: U256) -> (r: U256)
    ensures
        r@ == saturate(a@ * b@),
{
    let x = alloy_primitives::U256::from_limbs([a.l0, a.l1, a.l2, a.l3]);
    let y = alloy_primitives::U256::from_limbs([b.l0, b.l1, b.l2, b.l3]);
    let l = x.saturating_mul(y).into_limbs();
    U256 { l0: l[0], l1: l[1], l2: l[2], l3: l[3] }
}

/// `ruint::Uint::root` with degree 2. Claimed: the floor of the square root.
#[verifier::external_body]
pub(crate) fn sqrt_floor(a: U256) -> (r: U256)
    ensures
        r@ * r@ <= a@ < (r@ + 1) * (r@ + 1),
{
    let x = alloy_primitives::U256::from_limbs([a.l0, a.l1, a.l2, a.l3]);
    let l = x.root(2).into_limbs();
    U256 { l0: l[0], l1: l[1], l2: l[2], l3: l[3] }
}

/// `Display` of `alloy_primitives::U256` through `to_string`. Claimed: the
/// decimal notation of the value.
#[verifier::external_body]
pub(crate) fn to_decimal_string(a: U256) -> (r: String)
    ensures
        r@ == decimal_text(a@),
{
    alloy_primitives::U256::from_limbs([a.l0, a.l1, a.l2, a.l3]).to_string()
}

/// The number that the bytes spell in big-endian order (most significant first).
pub open spec fn be_value(bytes: Seq<u8>) -> nat
    decreases bytes.len(),
{
    if bytes.len() == 0 {
        0
    } else {
        (be_value(bytes.drop_last()) * 256 + bytes.last()) as nat
    }
}

/// `ruint::Uint::from_be_slice`, which panics on more than 32 bytes (those are
/// excluded). Claimed: the number that the bytes spell in big-endian order.
#[verifier::external_body]
pub(crate) fn from_be_slice(bytes: &[u8]) -> (r: U256)
    requires
        bytes@.len() <= 32,
    ensures
        r@ == be_value(bytes@),
{
    let l = alloy_primitives::U256::from_be_slice(bytes).into_limbs();
    U256 { l0: l[0], l1: l[1], l2: l[2], l3: l[3] }
}

} // verus!
