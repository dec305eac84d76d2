//! Signed 16.16 fixed-point numbers.

use crate::backend::mul_q16;
use core::ops::{Add, Mul, Sub};
use vstd::prelude::*;
use vstd::std_specs::ops::{AddSpecImpl, MulSpecImpl, SubSpecImpl};

verus! {

/// Raw bits of the number one: two to the power of the sixteen fractional bits.
pub const UNIT: i32 = 65536;

/// A signed fixed-point number with sixteen integer and sixteen fractional
/// bits. `bits` holds the number scaled by [`UNIT`], so the number denoted is
/// `bits / 65536`.
#[derive(Clone, Copy, Debug, PartialEq, Eq, Structural)]
pub struct Scalar {
    pub bits: i32,
}

impl View for Scalar {
    type V = int;

    /// The raw bits as a mathematical integer.
    open spec fn view(&self) -> int {
        self.bits as int
    }
}

/// Whether `v` can be the raw bits of a [`Scalar`].
pub open spec fn fits(v: int) -> bool {
    i32::MIN <= v <= i32::MAX
}

/// Raw bits of the product of the numbers with raw bits `a` and `b`: the exact
/// product, rounded towards minus infinity to sixteen fractional bits.
pub open spec fn product(a: int, b: int) -> int {
    (a * b) / 65536
}

/// Multiplying by one changes nothing, on either side.
pub proof fn lemma_product_by_one(a: int)
    ensures
        product(a, 65536) == a,
        product(65536, a) == a,
{
    assert((a * 65536) / 65536 == a) by (nonlinear_arith);
    assert((65536 * a) / 65536 == a) by (nonlinear_arith);
}

/// Multiplying by zero gives zero, on either side.
pub proof fn lemma_product_by_zero(a: int)
    ensures
        product(a, 0) == 0,
        product(0, a) == 0,
{
    assert((a * 0) / 65536 == 0) by (nonlinear_arith);
    assert((0 * a) / 65536 == 0) by (nonlinear_arith);
}

impl Scalar {
    /// Integer part of the number: the largest integer not above it.
    pub open spec fn floor(self) -> int {
        self@ / 65536
    }

    /// Whether the number is an integer.
    pub open spec fn is_whole(self) -> bool {
        self@ % 65536 == 0
    }

    /// The number one.
    pub fn one() -> (r: Scalar)
        ensures
            r@ == UNIT,
    {
        Scalar { bits: UNIT }
    }
}

impl Add for Scalar {
    type Output = Scalar;

    /// Sum of two numbers. The sum has to be representable.
    fn add(self, rhs: Scalar) -> (r: Scalar)
        ensures
            r@ == self@ + rhs@,
    {
        Scalar { bits: self.bits + rhs.bits }
    }
}

impl AddSpecImpl for Scalar {
    open spec fn obeys_add_spec() -> bool {
        true
    }

    open spec fn add_req(self, rhs: Scalar) -> bool {
        fits(self@ + rhs@)
    }

    open spec fn add_spec(self, rhs: Scalar) -> Scalar {
        Scalar { bits: (self@ + rhs@) as i32 }
    }
}

impl Sub for Scalar {
    type Output = Scalar;

    /// Difference of two numbers. The difference has to be representable.
    fn sub(self, rhs: Scalar) -> (r: Scalar)
        ensures
            r@ == self@ - rhs@,
    {
        Scalar { bits: self.bits - rhs.bits }
    }
}

impl SubSpecImpl for Scalar {
    open spec fn obeys_sub_spec() -> bool {
        true
    }

    open spec fn sub_req(self, rhs: Scalar) -> bool {
        fits(self@ - rhs@)
    }

    open spec fn sub_spec(self, rhs: Scalar) -> Scalar {
        Scalar { bits: (self@ - rhs@) as i32 }
    }
}

impl Mul for Scalar {
    type Output = Scalar;

    /// Product of two numbers, rounded towards minus infinity. The rounded
    /// product has to be representable.
    fn mul(self, rhs: Scalar) -> (r: Scalar)
        ensures
            r@ == product(self@, rhs@),
    {
        Scalar { bits: mul_q16(self.bits, rhs.bits) }
    }
}

impl MulSpecImpl for Scalar {
    open spec fn obeys_mul_spec() -> bool {
        true
    }

    open spec fn mul_req(self, rhs: Scalar) -> bool {
        fits(product(self@, rhs@))
    }

    open spec fn mul_spec(self, rhs: Scalar) -> Scalar {
        Scalar { bits: product(self@, rhs@) as i32 }
    }
}

} // verus!
