//! 256-bit unsigned integers held as four 64-bit words.

use vstd::prelude::*;

verus! {

/// Two to the power 64: the weight of the second word.
pub open spec fn pow2_64() -> nat {
    0x1_0000_0000_0000_0000nat
}

/// Two to the power 128: the weight of the third word.
pub open spec fn pow2_128() -> nat {
    0x1_0000_0000_0000_0000_0000_0000_0000_0000nat
}

/// Two to the power 192: the weight of the fourth word.
pub open spec fn pow2_192() -> nat {
    0x1_0000_0000_0000_0000_0000_0000_0000_0000_0000_0000_0000_0000nat
}

/// Two to the power 256: the first number that a `U256` cannot hold.
pub open spec fn pow2_256() -> nat {
    0x1_0000_0000_0000_0000_0000_0000_0000_0000_0000_0000_0000_0000_0000_0000_0000_0000nat
}

/// An unsigned integer below two to the power 256.
///
/// The words are declared from the most significant down, so that the
/// derived ordering is the numeric one.
#[derive(Clone, Copy, Debug, PartialEq, Eq, PartialOrd, Ord, Hash, Structural)]
pub struct U256 {
    pub w3: u64,
    pub w2: u64,
    pub w1: u64,
    pub w0: u64,
}

impl View for U256 {
    type V = nat;

    /// The number that the four words stand for.
    open spec fn view(&self) -> nat {
        (self.w0 + pow2_64() * self.w1 + pow2_128() * self.w2 + pow2_192() * self.w3) as nat
    }
}

/// Adds two words and a carry; the second result is the carry out.
fn add_with_carry(a: u64, b: u64, carry: bool) -> (r: (u64, bool))
    ensures
        r.0 + (if r.1 { pow2_64() } else { 0 }) == a + b + (if carry { 1nat } else { 0 }),
{
    let c: u128 = if carry { 1 } else { 0 };
    let t: u128 = a as u128 + b as u128 + c;
    if t >= 0x1_0000_0000_0000_0000u128 {
        ((t - 0x1_0000_0000_0000_0000u128) as u64, true)
    } else {
        (t as u64, false)
    }
}

/// Subtracts a word and a borrow from a word; the second result is the borrow out.
fn sub_with_borrow(a: u64, b: u64, borrow: bool) -> (r: (u64, bool))
    ensures
        r.0 - (if r.1 { pow2_64() } else { 0 }) == a - b - (if borrow { 1nat } else { 0 }),
{
    let c: u128 = if borrow { 1 } else { 0 };
    let t: u128 = a as u128 + 0x1_0000_0000_0000_0000u128 - b as u128 - c;
    if t >= 0x1_0000_0000_0000_0000u128 {
        ((t - 0x1_0000_0000_0000_0000u128) as u64, false)
    } else {
        (t as u64, true)
    }
}

/// The value whose number is `n`, for `n` below two to the power 256.
pub open spec fn u256_of(n: nat) -> U256 {
    U256 {
        w3: (((n / pow2_64()) / pow2_64()) / pow2_64() % pow2_64()) as u64,
        w2: ((n / pow2_64()) / pow2_64() % pow2_64()) as u64,
        w1: (n / pow2_64() % pow2_64()) as u64,
        w0: (n % pow2_64()) as u64,
    }
}

/// `u256_of` is the inverse of the view.
pub proof fn lemma_u256_of(n: nat)
    requires
        n < pow2_256(),
    ensures
        u256_of(n)@ == n,
{
    let b = pow2_64();
    let n1 = n / b;
    let n2 = n1 / b;
    let n3 = n2 / b;
    assert(n == b * n1 + n % b);
    assert(n1 == b * n2 + n1 % b);
    assert(n2 == b * n3 + n2 % b);
    assert(n3 < b);
}

impl U256 {
    /// The number zero.
    pub fn zero() -> (r: U256)
        ensures
            r@ == 0,
    {
        U256 { w3: 0, w2: 0, w1: 0, w0: 0 }
    }

    /// The largest number that fits.
    pub fn max_value() -> (r: U256)
        ensures
            r@ == pow2_256() - 1,
    {
        U256 { w3: u64::MAX, w2: u64::MAX, w1: u64::MAX, w0: u64::MAX }
    }

    /// Two values are the same number exactly when their words agree.
    pub proof fn lemma_view_injective(a: U256, b: U256)
        ensures
            (a@ == b@) <==> (a == b),
    {
    }

    /// Every value is below two to the power 256.
    pub proof fn lemma_view_bound(a: U256)
        ensures
            a@ < pow2_256(),
    {
    }

    pub fn is_zero(&self) -> (r: bool)
        ensures
            r == (self@ == 0),
    {
        self.w0 == 0 && self.w1 == 0 && self.w2 == 0 && self.w3 == 0
    }

    /// Numeric strict order.
    pub fn less_than(&self, other: &U256) -> (r: bool)
        ensures
            r == (self@ < other@),
    {
        if self.w3 != other.w3 {
            self.w3 < other.w3
        } else if self.w2 != other.w2 {
            self.w2 < other.w2
        } else if self.w1 != other.w1 {
            self.w1 < other.w1
        } else {
            self.w0 < other.w0
        }
    }

    /// Numeric order.
    pub fn at_most(&self, other: &U256) -> (r: bool)
        ensures
            r == (self@ <= other@),
    {
        !other.less_than(self)
    }

    /// The smaller of two numbers.
    pub fn min(self, other: U256) -> (r: U256)
        ensures
            r@ == if self@ <= other@ { self@ } else { other@ },
            r == self || r == other,
    {
        if other.less_than(&self) {
            other
        } else {
            self
        }
    }

    /// The sum, unless it does not fit.
    pub fn checked_add(self, other: U256) -> (r: Option<U256>)
        ensures
            r.is_some() <==> self@ + other@ < pow2_256(),
            r.is_some() ==> r.unwrap()@ == self@ + other@,
    {
        let (w0, c0) = add_with_carry(self.w0, other.w0, false);
        let (w1, c1) = add_with_carry(self.w1, other.w1, c0);
        let (w2, c2) = add_with_carry(self.w2, other.w2, c1);
        let (w3, c3) = add_with_carry(self.w3, other.w3, c2);
        if c3 {
            None
        } else {
            Some(U256 { w3, w2, w1, w0 })
        }
    }

    /// The difference, unless the second number is the larger.
    pub fn checked_sub(self, other: U256) -> (r: Option<U256>)
        ensures
            r.is_some() <==> other@ <= self@,
            r.is_some() ==> r.unwrap()@ == self@ - other@,
    {
        let (w0, b0) = sub_with_borrow(self.w0, other.w0, false);
        let (w1, b1) = sub_with_borrow(self.w1, other.w1, b0);
        let (w2, b2) = sub_with_borrow(self.w2, other.w2, b1);
        let (w3, b3) = sub_with_borrow(self.w3, other.w3, b2);
        if b3 {
            None
        } else {
            Some(U256 { w3, w2, w1, w0 })
        }
    }

    /// The low word, for a number that has no other.
    pub fn low_u64(&self) -> (r: u64)
        ensures
            r == self@ % pow2_64(),
    {
        self.w0
    }
}

/// The product, unless it does not fit.
///
/// Trusted: this calls `checked_mul` of `primitive_types::U256`, which
/// multiplies the two numbers in full and answers `None` exactly when a word
/// above the fourth is not zero. The words are handed over and taken back
/// in the same little-endian order.
#[verifier::external_body]
pub(crate) fn checked_mul(a: U256, b: U256) -> (r: Option<U256>)
    ensures
        r.is_some() <==> a@ * b@ < pow2_256(),
        r.is_some() ==> r.unwrap()@ == a@ * b@,
{
    let x = primitive_types::U256([a.w0, a.w1, a.w2, a.w3]);
    let y = primitive_types::U256([b.w0, b.w1, b.w2, b.w3]);
    match x.checked_mul(y) {
        Some(p) => Some(U256 { w3: p.0[3], w2: p.0[2], w1: p.0[1], w0: p.0[0] }),
        None => None,
    }
}

/// The quotient rounded down, unless the divisor is zero.
///
/// Trusted: this calls `checked_div` of `primitive_types::U256`, which
/// answers `None` for a zero divisor and otherwise the first part of
/// `div_mod`, the quotient of the truncating division.
#[verifier::external_body]
pub(crate) fn checked_div(a: U256, b: U256) -> (r: Option<U256>)
    ensures
        r.is_some() <==> b@ != 0,
        r.is_some() ==> r.unwrap()@ == a@ / b@,
{
    let x = primitive_types::U256([a.w0, a.w1, a.w2, a.w3]);
    let y = primitive_types::U256([b.w0, b.w1, b.w2, b.w3]);
    match x.checked_div(y) {
        Some(q) => Some(U256 { w3: q.0[3], w2: q.0[2], w1: q.0[1], w0: q.0[0] }),
        None => None,
    }
}

impl From<u64> for U256 {
    fn from(v: u64) -> (r: U256) {
        U256 { w3: 0, w2: 0, w1: 0, w0: v }
    }
}

impl vstd::std_specs::convert::FromSpecImpl<u64> for U256 {
    open spec fn obeys_from_spec() -> bool {
        true
    }

    open spec fn from_spec(v: u64) -> U256 {
        U256 { w3: 0, w2: 0, w1: 0, w0: v }
    }
}

} // verus!
