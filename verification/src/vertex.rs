//! Points of the plane and their algebra.

use crate::backend::{cordic_sqrt_wide, mul_q32, narrow, sqrt_q32, widen};
use crate::root::{floor_root, is_floor_root, lemma_floor_root, lemma_narrowed_root};
use crate::scalar::{fits, lemma_product_by_one, product, Scalar, UNIT};
use core::ops::{Add, Mul, Sub};
use vstd::prelude::*;

verus! {

/// A point of the plane with fixed-point coordinates.
#[derive(Clone, Copy, Debug, PartialEq, Eq, Structural)]
pub struct Vertex {
    pub x: Scalar,
    pub y: Scalar,
}

impl Vertex {
    /// The point with the given coordinates.
    pub fn new(x: Scalar, y: Scalar) -> (v: Vertex)
        ensures
            v.x == x,
            v.y == y,
    {
        Vertex { x, y }
    }

    /// Whether the sum with `other` is representable.
    pub open spec fn summable(self, other: Vertex) -> bool {
        fits(self.x@ + other.x@) && fits(self.y@ + other.y@)
    }

    /// The sum with `other`, coordinate by coordinate.
    pub open spec fn sum(self, other: Vertex) -> Vertex {
        Vertex {
            x: Scalar { bits: (self.x@ + other.x@) as i32 },
            y: Scalar { bits: (self.y@ + other.y@) as i32 },
        }
    }

    /// Whether the difference from `other` is representable.
    pub open spec fn subtractable(self, other: Vertex) -> bool {
        fits(self.x@ - other.x@) && fits(self.y@ - other.y@)
    }

    /// The difference from `other`, coordinate by coordinate.
    pub open spec fn difference(self, other: Vertex) -> Vertex {
        Vertex {
            x: Scalar { bits: (self.x@ - other.x@) as i32 },
            y: Scalar { bits: (self.y@ - other.y@) as i32 },
        }
    }

    /// Whether the point scaled by `k` is representable.
    pub open spec fn scalable(self, k: Scalar) -> bool {
        fits(product(self.x@, k@)) && fits(product(self.y@, k@))
    }

    /// The point scaled by `k`: each coordinate times `k`, rounded towards
    /// minus infinity.
    pub open spec fn scaled(self, k: Scalar) -> Vertex {
        Vertex {
            x: Scalar { bits: product(self.x@, k@) as i32 },
            y: Scalar { bits: product(self.y@, k@) as i32 },
        }
    }

    /// Squared distance from the origin, exact: the sum of the squared raw
    /// coordinates, which are the raw bits of that number with thirty-two
    /// fractional bits.
    pub open spec fn squared_norm(self) -> int {
        self.x@ * self.x@ + self.y@ * self.y@
    }

    /// Raw bits of the distance from the origin, as [`Vertex::abs`] computes
    /// it: the square root of the squared distance, taken in the 32.32 format
    /// and then rounded down to sixteen fractional bits.
    pub open spec fn magnitude(self) -> int {
        cordic_sqrt_wide(self.squared_norm()) / 65536
    }

    /// The point mirrored in the second axis.
    pub open spec fn mirrored_x(self) -> Vertex {
        Vertex { x: Scalar { bits: (-self.x@) as i32 }, y: self.y }
    }

    /// The point mirrored in the first axis.
    pub open spec fn mirrored_y(self) -> Vertex {
        Vertex { x: self.x, y: Scalar { bits: (-self.y@) as i32 } }
    }

    /// The point with its coordinates exchanged.
    pub open spec fn transposed(self) -> Vertex {
        Vertex { x: self.y, y: self.x }
    }

    /// Decides whether [`Vertex::abs`] can be called: whether the squared
    /// distance from the origin lies below two to the thirtieth.
    pub fn magnitude_representable(&self) -> (ok: bool)
        ensures
            ok == (self.squared_norm() < 0x4000_0000_0000_0000),
    {
        let x: i64 = self.x.bits as i64;
        let y: i64 = self.y.bits as i64;
        proof {
            lemma_widened_square(x as int);
            lemma_widened_square(y as int);
        }
        let xx: i64 = x * x;
        let yy: i64 = y * y;
        xx < 0x4000_0000_0000_0000 && yy < 0x4000_0000_0000_0000 - xx
    }

    /// Distance from the origin: the square root of the squared distance.
    ///
    /// The squares, their sum and the root are taken in the 32.32 format,
    /// where squares and sum are exact; the root is then rounded down to
    /// sixteen fractional bits. The result is never negative and never above
    /// the exact distance. For a point at distance one or more from the origin
    /// it is the exact distance rounded down to sixteen fractional bits.
    ///
    /// The distance has to be representable: the squared distance has to lie
    /// below two to the thirtieth.
    pub fn abs(&self) -> (r: Scalar)
        requires
            self.squared_norm() < 0x4000_0000_0000_0000,
        ensures
            r@ == self.magnitude(),
            0 <= r@,
            r@ * r@ <= self.squared_norm(),
            self.squared_norm() == 0 ==> r@ == 0,
            self.squared_norm() >= 0x1_0000_0000 ==> is_floor_root(r@, self.squared_norm()),
            self.squared_norm() >= 0x1_0000_0000 ==> r@ == floor_root(self.squared_norm()),
    {
        let wx: i64 = widen(self.x.bits);
        let wy: i64 = widen(self.y.bits);
        proof {
            lemma_widened_square(self.x@);
            lemma_widened_square(self.y@);
        }
        let xx: i64 = mul_q32(wx, wx);
        let yy: i64 = mul_q32(wy, wy);
        let sqr: i64 = xx + yy;
        let root: i64 = sqrt_q32(sqr);
        proof {
            lemma_narrowed_root(root as int, sqr as int);
            if sqr >= 0x1_0000_0000 {
                lemma_floor_root(root / 65536, sqr as int);
            }
        }
        Scalar { bits: narrow(root) }
    }
}

/// The square of a widened number, brought back to thirty-two fractional
/// bits, is the square of the raw bits, and it fits in 64 bits.
proof fn lemma_widened_square(a: int)
    by (nonlinear_arith)
    requires
        i32::MIN <= a <= i32::MAX,
    ensures
        ((a * 65536) * (a * 65536)) / 0x1_0000_0000 == a * a,
        0 <= a * a <= 0x4000_0000_0000_0000,
{
}

impl Add for Vertex {
    type Output = Vertex;

    /// Sum of two points, coordinate by coordinate.
    fn add(self, other: Vertex) -> (r: Vertex)
        ensures
            r == self.sum(other),
    {
        Vertex { x: self.x + other.x, y: self.y + other.y }
    }
}

impl vstd::std_specs::ops::AddSpecImpl for Vertex {
    open spec fn obeys_add_spec() -> bool {
        true
    }

    open spec fn add_req(self, other: Vertex) -> bool {
        self.summable(other)
    }

    open spec fn add_spec(self, other: Vertex) -> Vertex {
        self.sum(other)
    }
}

impl Sub for Vertex {
    type Output = Vertex;

    /// Difference of two points, coordinate by coordinate.
    fn sub(self, other: Vertex) -> (r: Vertex)
        ensures
            r == self.difference(other),
    {
        Vertex { x: self.x - other.x, y: self.y - other.y }
    }
}

impl vstd::std_specs::ops::SubSpecImpl for Vertex {
    open spec fn obeys_sub_spec() -> bool {
        true
    }

    open spec fn sub_req(self, other: Vertex) -> bool {
        self.subtractable(other)
    }

    open spec fn sub_spec(self, other: Vertex) -> Vertex {
        self.difference(other)
    }
}

impl Mul<Scalar> for Vertex {
    type Output = Vertex;

    /// The point scaled by `rhs`: each coordinate times `rhs`, rounded towards
    /// minus infinity.
    fn mul(self, rhs: Scalar) -> (r: Vertex)
        ensures
            r == self.scaled(rhs),
    {
        let xx = self.x * rhs;
        let yy = self.y * rhs;
        Vertex { x: xx, y: yy }
    }
}

impl vstd::std_specs::ops::MulSpecImpl<Scalar> for Vertex {
    open spec fn obeys_mul_spec() -> bool {
        true
    }

    open spec fn mul_req(self, rhs: Scalar) -> bool {
        self.scalable(rhs)
    }

    open spec fn mul_spec(self, rhs: Scalar) -> Vertex {
        self.scaled(rhs)
    }
}

/// The distance from the origin ignores the signs and the order of the
/// coordinates.
pub proof fn lemma_magnitude_symmetric(v: Vertex)
    requires
        i32::MIN < v.x@,
        i32::MIN < v.y@,
    ensures
        v.mirrored_x().squared_norm() == v.squared_norm(),
        v.mirrored_y().squared_norm() == v.squared_norm(),
        v.transposed().squared_norm() == v.squared_norm(),
        v.mirrored_x().magnitude() == v.magnitude(),
        v.mirrored_y().magnitude() == v.magnitude(),
        v.transposed().magnitude() == v.magnitude(),
{
    assert((-v.x@) * (-v.x@) == v.x@ * v.x@) by (nonlinear_arith);
    assert((-v.y@) * (-v.y@) == v.y@ * v.y@) by (nonlinear_arith);
}

/// Addition of points is commutative: where one sum is representable, so is
/// the other, and they are the same point.
pub proof fn lemma_add_commutative(a: Vertex, b: Vertex)
    requires
        a.summable(b),
    ensures
        b.summable(a),
        a.sum(b) == b.sum(a),
{
}

/// Addition of points is associative, where the sums on both sides are
/// representable.
pub proof fn lemma_add_associative(a: Vertex, b: Vertex, c: Vertex)
    requires
        a.summable(b),
        a.sum(b).summable(c),
        b.summable(c),
        a.summable(b.sum(c)),
    ensures
        a.sum(b).sum(c) == a.sum(b.sum(c)),
{
}

/// Scaling by one is always possible and returns the point unchanged.
pub proof fn lemma_scale_by_one(a: Vertex)
    ensures
        a.scalable(Scalar { bits: UNIT }),
        a.scaled(Scalar { bits: UNIT }) == a,
{
    lemma_product_by_one(a.x@);
    lemma_product_by_one(a.y@);
}

} // verus!
