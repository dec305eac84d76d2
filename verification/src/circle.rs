//! Circles, their translation and their exponential filter.

use crate::scalar::{
    fits, lemma_product_by_one, lemma_product_by_zero, product, Scalar, UNIT,
};
use crate::vertex::Vertex;
use core::ops::Add;
use vstd::prelude::*;

verus! {

/// A circle: the coordinates of its centre and its radius. By convention the
/// radius is not negative; nothing enforces it.
#[derive(Clone, Copy, Debug, PartialEq, Eq, Structural)]
pub struct Circle {
    pub x: Scalar,
    pub y: Scalar,
    pub r: Scalar,
}

impl View for Circle {
    type V = (int, int, int);

    /// The raw bits of the centre's coordinates and of the radius.
    open spec fn view(&self) -> (int, int, int) {
        (self.x@, self.y@, self.r@)
    }
}

/// Raw bits of the weighted mean of two numbers: `old` weighted by one minus
/// `alpha`, `new` by `alpha`, each product rounded towards minus infinity
/// before the two are added.
pub open spec fn blend(old: int, new: int, alpha: int) -> int {
    product(old, UNIT - alpha) + product(new, alpha)
}

/// Whether every step of [`blend`] is representable: one minus `alpha`, the
/// two products and their sum.
pub open spec fn blendable(old: int, new: int, alpha: int) -> bool {
    &&& fits(UNIT - alpha)
    &&& fits(product(old, UNIT - alpha))
    &&& fits(product(new, alpha))
    &&& fits(blend(old, new, alpha))
}

/// A product of raw bits, rounded towards minus infinity to sixteen
/// fractional bits.
fn rounded_product(a: i64, b: i64) -> (r: i64)
    requires
        -0x8000_0000 <= a <= 0x7fff_ffff,
        -0x8000_0000 <= b <= 0x8000_0000,
    ensures
        r == product(a as int, b as int),
{
    proof {
        assert(-0x4000_0000_0000_0000 <= a * b <= 0x4000_0000_0000_0000) by (nonlinear_arith)
            requires
                -0x8000_0000 <= a <= 0x8000_0000,
                -0x8000_0000 <= b <= 0x8000_0000,
        ;
    }
    let p: i64 = a * b;
    if p >= 0 {
        p / 65536
    } else {
        -((-p + 65535) / 65536)
    }
}

/// Decides [`blendable`].
fn blend_representable(old: Scalar, new: Scalar, alpha: Scalar) -> (ok: bool)
    ensures
        ok == blendable(old@, new@, alpha@),
{
    let beta: i64 = 65536 - alpha.bits as i64;
    if beta > 0x7fff_ffff {
        return false;
    }
    let a: i64 = rounded_product(old.bits as i64, beta);
    let b: i64 = rounded_product(new.bits as i64, alpha.bits as i64);
    -0x8000_0000 <= a && a <= 0x7fff_ffff && -0x8000_0000 <= b && b <= 0x7fff_ffff
        && -0x8000_0000 <= a + b && a + b <= 0x7fff_ffff
}

/// One number of the filtered circle.
fn blend_scalar(old: Scalar, new: Scalar, alpha: Scalar) -> (r: Scalar)
    requires
        blendable(old@, new@, alpha@),
    ensures
        r@ == blend(old@, new@, alpha@),
{
    old * (Scalar::one() - alpha) + new * alpha
}

impl Circle {
    /// The circle with the given centre and radius.
    pub fn new(x: Scalar, y: Scalar, r: Scalar) -> (c: Circle)
        ensures
            c.x == x,
            c.y == y,
            c.r == r,
    {
        Circle { x, y, r }
    }

    /// Whether the circle moved by `t` is representable.
    pub open spec fn movable(self, t: Vertex) -> bool {
        fits(self.x@ + t.x@) && fits(self.y@ + t.y@)
    }

    /// The circle moved by `t`: the centre is shifted, the radius stays.
    pub open spec fn moved(self, t: Vertex) -> Circle {
        Circle {
            x: Scalar { bits: (self.x@ + t.x@) as i32 },
            y: Scalar { bits: (self.y@ + t.y@) as i32 },
            r: self.r,
        }
    }

    /// Whether the filter step from `self` towards `rhs` is representable.
    pub open spec fn filterable(self, rhs: Circle, alpha: Scalar) -> bool {
        &&& blendable(self.x@, rhs.x@, alpha@)
        &&& blendable(self.y@, rhs.y@, alpha@)
        &&& blendable(self.r@, rhs.r@, alpha@)
    }

    /// The circle that the filter step from `self` towards `rhs` gives.
    pub open spec fn filtered(self, rhs: Circle, alpha: Scalar) -> Circle {
        Circle {
            x: Scalar { bits: blend(self.x@, rhs.x@, alpha@) as i32 },
            y: Scalar { bits: blend(self.y@, rhs.y@, alpha@) as i32 },
            r: Scalar { bits: blend(self.r@, rhs.r@, alpha@) as i32 },
        }
    }

    /// Decides [`Circle::filterable`]: whether [`Circle::exp_filt`] can be
    /// called.
    pub fn filter_representable(self, rhs: Circle, alpha: Scalar) -> (ok: bool)
        ensures
            ok == self.filterable(rhs, alpha),
    {
        blend_representable(self.x, rhs.x, alpha) && blend_representable(self.y, rhs.y, alpha)
            && blend_representable(self.r, rhs.r, alpha)
    }

    /// One step of the exponential filter: each of centre and radius becomes
    /// `self * (1 - alpha) + rhs * alpha`.
    ///
    /// `alpha` is meant to lie between zero and one; it is neither checked nor
    /// clamped, and a value outside extrapolates.
    pub fn exp_filt(self, rhs: Circle, alpha: Scalar) -> (c: Circle)
        requires
            self.filterable(rhs, alpha),
        ensures
            c == self.filtered(rhs, alpha),
    {
        let xx = blend_scalar(self.x, rhs.x, alpha);
        let yy = blend_scalar(self.y, rhs.y, alpha);
        let rr = blend_scalar(self.r, rhs.r, alpha);
        Circle { x: xx, y: yy, r: rr }
    }
}

impl Add<Vertex> for Circle {
    type Output = Circle;

    /// The circle moved by `other`: the centre is shifted, the radius stays.
    fn add(self, other: Vertex) -> (r: Circle)
        ensures
            r == self.moved(other),
    {
        Circle { x: self.x + other.x, y: self.y + other.y, r: self.r }
    }
}

impl vstd::std_specs::ops::AddSpecImpl<Vertex> for Circle {
    open spec fn obeys_add_spec() -> bool {
        true
    }

    open spec fn add_req(self, other: Vertex) -> bool {
        self.movable(other)
    }

    open spec fn add_spec(self, other: Vertex) -> Circle {
        self.moved(other)
    }
}

/// A value that can be smoothed towards a new sample of type `T` with a
/// weight of type `F`.
pub trait ExpFilt<T, F>: Sized {
    /// Whether the step is representable.
    spec fn exp_filt_req(self, rhs: T, alpha: F) -> bool;

    /// What the step gives.
    spec fn exp_filt_spec(self, rhs: T, alpha: F) -> Self;

    /// One step of the filter from `self` towards `rhs`.
    fn exp_filt(self, rhs: T, alpha: F) -> (r: Self)
        requires
            self.exp_filt_req(rhs, alpha),
        ensures
            r == self.exp_filt_spec(rhs, alpha),
    ;
}

impl ExpFilt<Circle, Scalar> for Circle {
    open spec fn exp_filt_req(self, rhs: Circle, alpha: Scalar) -> bool {
        self.filterable(rhs, alpha)
    }

    open spec fn exp_filt_spec(self, rhs: Circle, alpha: Scalar) -> Circle {
        self.filtered(rhs, alpha)
    }

    fn exp_filt(self, rhs: Circle, alpha: Scalar) -> (r: Circle)
        ensures
            r == self.filtered(rhs, alpha),
    {
        Circle::exp_filt(self, rhs, alpha)
    }
}

/// With weight zero the filter is always representable and keeps the old
/// circle.
pub proof fn lemma_filter_weight_zero(old: Circle, new: Circle)
    ensures
        old.filterable(new, Scalar { bits: 0 }),
        old.filtered(new, Scalar { bits: 0 }) == old,
{
    lemma_blend_weight_zero(old.x@, new.x@);
    lemma_blend_weight_zero(old.y@, new.y@);
    lemma_blend_weight_zero(old.r@, new.r@);
}

/// With weight one the filter is always representable and returns the new
/// circle.
pub proof fn lemma_filter_weight_one(old: Circle, new: Circle)
    ensures
        old.filterable(new, Scalar { bits: UNIT }),
        old.filtered(new, Scalar { bits: UNIT }) == new,
{
    lemma_blend_weight_one(old.x@, new.x@);
    lemma_blend_weight_one(old.y@, new.y@);
    lemma_blend_weight_one(old.r@, new.r@);
}

/// With a weight between zero and one the filter is always representable:
/// it interpolates, and no step of it leaves the range of the numbers.
pub proof fn lemma_filter_within_unit(old: Circle, new: Circle, alpha: Scalar)
    requires
        0 <= alpha@ <= UNIT,
    ensures
        old.filterable(new, alpha),
{
    lemma_blend_within_unit(old.x@, new.x@, alpha@);
    lemma_blend_within_unit(old.y@, new.y@, alpha@);
    lemma_blend_within_unit(old.r@, new.r@, alpha@);
}

/// A number times a weight between zero and one lies between zero and the
/// number, before and after rounding.
proof fn lemma_product_within_unit(v: int, w: int)
    requires
        0 <= w <= 65536,
    ensures
        v >= 0 ==> 0 <= v * w <= v * 65536 && 0 <= product(v, w) <= v,
        v <= 0 ==> v * 65536 <= v * w <= 0 && v <= product(v, w) <= 0,
{
    if v >= 0 {
        assert(0 <= v * w <= v * 65536) by (nonlinear_arith)
            requires
                v >= 0,
                0 <= w <= 65536,
        ;
    }
    if v <= 0 {
        assert(v * 65536 <= v * w <= 0) by (nonlinear_arith)
            requires
                v <= 0,
                0 <= w <= 65536,
        ;
    }
}

/// The weighted mean of two numbers lies between them, but for the rounding:
/// at most one unit in the last place below the smaller, never above the
/// larger, and always within the range of the numbers.
proof fn lemma_blend_within_unit(old: int, new: int, alpha: int)
    requires
        fits(old),
        fits(new),
        0 <= alpha <= 65536,
    ensures
        blendable(old, new, alpha),
        old <= new ==> old - 1 <= blend(old, new, alpha) <= new,
        new <= old ==> new - 1 <= blend(old, new, alpha) <= old,
{
    let beta = 65536 - alpha;
    let p = old * beta;
    let q = new * alpha;
    let a = p / 65536;
    let b = q / 65536;
    lemma_product_within_unit(old, beta);
    lemma_product_within_unit(new, alpha);
    assert(a == product(old, UNIT - alpha));
    assert(b == product(new, alpha));
    assert(65536 * a <= p < 65536 * a + 65536);
    assert(65536 * b <= q < 65536 * b + 65536);
    let lo = if old <= new { old } else { new };
    let hi = if old <= new { new } else { old };
    assert(lo * beta <= p <= hi * beta) by (nonlinear_arith)
        requires
            lo <= old <= hi,
            0 <= beta,
            p == old * beta,
    ;
    assert(lo * alpha <= q <= hi * alpha) by (nonlinear_arith)
        requires
            lo <= new <= hi,
            0 <= alpha,
            q == new * alpha,
    ;
    assert(lo * beta + lo * alpha == lo * 65536) by (nonlinear_arith)
        requires
            beta == 65536 - alpha,
    ;
    assert(hi * beta + hi * alpha == hi * 65536) by (nonlinear_arith)
        requires
            beta == 65536 - alpha,
    ;
    assert(lo - 1 <= a + b <= hi);
    if lo == i32::MIN {
        if old == i32::MIN {
            assert(p == 65536 * (-32768 * beta)) by (nonlinear_arith)
                requires
                    p == old * beta,
                    old == -0x8000_0000,
            ;
            assert(65536 * a == p);
        } else {
            assert(new == i32::MIN);
            assert(q == 65536 * (-32768 * alpha)) by (nonlinear_arith)
                requires
                    q == new * alpha,
                    new == -0x8000_0000,
            ;
            assert(65536 * b == q);
        }
        assert(lo <= a + b);
    }
}

proof fn lemma_blend_weight_zero(old: int, new: int)
    requires
        fits(old),
        fits(new),
    ensures
        blendable(old, new, 0),
        blend(old, new, 0) == old,
{
    lemma_product_by_one(old);
    lemma_product_by_zero(new);
}

proof fn lemma_blend_weight_one(old: int, new: int)
    requires
        fits(old),
        fits(new),
    ensures
        blendable(old, new, UNIT as int),
        blend(old, new, UNIT as int) == new,
{
    lemma_product_by_zero(old);
    lemma_product_by_one(new);
}

} // verus!
