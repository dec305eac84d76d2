//! The circle through three points.
//!
//! The fit works on the integer parts of the coordinates, in 64-bit integers:
//! wide enough for every square and product that the closed formula needs.
//! The specification speaks of those integer parts as plain integers: `x1` and
//! `y1` for the first point, and so on.

use crate::backend::{from_integer, integer_part, narrow, sqrt_q32, widen_integer};
use crate::circle::Circle;
use crate::quotient::{
    divide, lemma_quotient_negated_dividend, lemma_quotient_negated_divisor, lemma_quotient_shift,
    quotient, steady,
};
use crate::root::{
    floor_root, is_floor_root, lemma_floor_root, lemma_floor_root_of_zero, lemma_narrowed_root,
};
use crate::scalar::Scalar;
use crate::vertex::Vertex;
use vstd::prelude::*;

verus! {

/// Why three points have no circle through them.
#[derive(Clone, Copy, Debug, PartialEq, Eq, Structural)]
pub enum FitError {
    /// The integer parts of the three points lie on one line.
    Collinear,
}

/// Squared distance of the point `(x, y)` from the origin.
pub open spec fn squared_norm(x: int, y: int) -> int {
    x * x + y * y
}

/// Squared distance between the points `(x, y)` and `(cx, cy)`.
pub open spec fn squared_distance(x: int, y: int, cx: int, cy: int) -> int {
    (x - cx) * (x - cx) + (y - cy) * (y - cy)
}

/// Twice the signed area of the triangle of the three points; zero exactly
/// when they lie on one line.
pub open spec fn turn(x1: int, y1: int, x2: int, y2: int, x3: int, y3: int) -> int {
    (x2 - x1) * (y3 - y1) - (x3 - x1) * (y2 - y1)
}

/// Whether the three points lie on one line.
pub open spec fn collinear(x1: int, y1: int, x2: int, y2: int, x3: int, y3: int) -> bool {
    turn(x1, y1, x2, y2, x3, y3) == 0
}

/// Numerator of the centre's first coordinate, over `2 * turn`.
pub open spec fn numerator_x(x1: int, y1: int, x2: int, y2: int, x3: int, y3: int) -> int {
    (squared_norm(x2, y2) - squared_norm(x1, y1)) * (y3 - y1) - (squared_norm(x3, y3)
        - squared_norm(x1, y1)) * (y2 - y1)
}

/// Numerator of the centre's second coordinate, over `2 * turn`.
pub open spec fn numerator_y(x1: int, y1: int, x2: int, y2: int, x3: int, y3: int) -> int {
    (squared_norm(x3, y3) - squared_norm(x1, y1)) * (x2 - x1) - (squared_norm(x2, y2)
        - squared_norm(x1, y1)) * (x3 - x1)
}

/// First coordinate of the centre of the circle through three points that are
/// not collinear, rounded towards zero to an integer.
pub open spec fn centre_x(x1: int, y1: int, x2: int, y2: int, x3: int, y3: int) -> int {
    quotient(numerator_x(x1, y1, x2, y2, x3, y3), 2 * turn(x1, y1, x2, y2, x3, y3))
}

/// Second coordinate of that centre, rounded towards zero to an integer.
pub open spec fn centre_y(x1: int, y1: int, x2: int, y2: int, x3: int, y3: int) -> int {
    quotient(numerator_y(x1, y1, x2, y2, x3, y3), 2 * turn(x1, y1, x2, y2, x3, y3))
}

/// Squared radius: the squared distance from the first point to the centre.
pub open spec fn radicand(x1: int, y1: int, x2: int, y2: int, x3: int, y3: int) -> int {
    squared_distance(
        x1,
        y1,
        centre_x(x1, y1, x2, y2, x3, y3),
        centre_y(x1, y1, x2, y2, x3, y3),
    )
}

/// What the fit gives for three points with integer coordinates: the error
/// for collinear points, else the raw bits of the circle whose centre is
/// ([`centre_x`], [`centre_y`]) and whose radius is the square root of
/// [`radicand`], rounded down to sixteen fractional bits.
pub open spec fn fit_integers(x1: int, y1: int, x2: int, y2: int, x3: int, y3: int) -> Result<
    (int, int, int),
    FitError,
> {
    if collinear(x1, y1, x2, y2, x3, y3) {
        Err(FitError::Collinear)
    } else {
        Ok(
            (
                centre_x(x1, y1, x2, y2, x3, y3) * 65536,
                centre_y(x1, y1, x2, y2, x3, y3) * 65536,
                floor_root(radicand(x1, y1, x2, y2, x3, y3) * 0x1_0000_0000),
            ),
        )
    }
}

/// Whether the circle through three points with integer coordinates can be
/// written down: its centre has to lie within the sixteen integer bits of a
/// coordinate, and so has its radius, hence its squared radius below two to
/// the thirtieth. Collinear points have no circle and nothing to represent.
pub open spec fn integers_representable(
    x1: int,
    y1: int,
    x2: int,
    y2: int,
    x3: int,
    y3: int,
) -> bool {
    collinear(x1, y1, x2, y2, x3, y3) || {
        &&& -32768 <= centre_x(x1, y1, x2, y2, x3, y3) <= 32767
        &&& -32768 <= centre_y(x1, y1, x2, y2, x3, y3) <= 32767
        &&& radicand(x1, y1, x2, y2, x3, y3) < 0x4000_0000
    }
}

/// What the fit gives for three points: [`fit_integers`] of the integer parts
/// of their coordinates.
pub open spec fn fit(v1: Vertex, v2: Vertex, v3: Vertex) -> Result<(int, int, int), FitError> {
    fit_integers(
        v1.x.floor(),
        v1.y.floor(),
        v2.x.floor(),
        v2.y.floor(),
        v3.x.floor(),
        v3.y.floor(),
    )
}

/// Whether the circle through three points can be written down:
/// [`integers_representable`] of the integer parts of their coordinates.
pub open spec fn representable(v1: Vertex, v2: Vertex, v3: Vertex) -> bool {
    integers_representable(
        v1.x.floor(),
        v1.y.floor(),
        v2.x.floor(),
        v2.y.floor(),
        v3.x.floor(),
        v3.y.floor(),
    )
}

/// Whether the integer parts of three points lie on one line.
pub open spec fn samples_collinear(v1: Vertex, v2: Vertex, v3: Vertex) -> bool {
    collinear(v1.x.floor(), v1.y.floor(), v2.x.floor(), v2.y.floor(), v3.x.floor(), v3.y.floor())
}

/// Squared radius of the circle through three points: [`radicand`] of the
/// integer parts of their coordinates.
pub open spec fn samples_radicand(v1: Vertex, v2: Vertex, v3: Vertex) -> int {
    radicand(v1.x.floor(), v1.y.floor(), v2.x.floor(), v2.y.floor(), v3.x.floor(), v3.y.floor())
}

/// A result of the fit with its circle, if there is one, as raw bits.
pub open spec fn outcome(res: Result<Circle, FitError>) -> Result<(int, int, int), FitError> {
    match res {
        Ok(c) => Ok(c@),
        Err(e) => Err(e),
    }
}

/// A product is bounded by the product of the bounds of its factors.
proof fn lemma_product_bound(a: int, b: int, ma: int, mb: int)
    by (nonlinear_arith)
    requires
        -ma <= a <= ma,
        -mb <= b <= mb,
    ensures
        -(ma * mb) <= a * b <= ma * mb,
{
}

/// A square is not negative, and bounded by the square of the bound.
proof fn lemma_square_bound(a: int, m: int)
    by (nonlinear_arith)
    requires
        -m <= a <= m,
    ensures
        0 <= a * a <= m * m,
{
}

/// Regroups one numerator of the closed formula: `a` and `b` stand for the
/// squared coordinates of the three points, `u` for the coordinate that the
/// numerator is taken along.
proof fn lemma_regroup(
    a1: int,
    b1: int,
    a2: int,
    b2: int,
    a3: int,
    b3: int,
    u1: int,
    u2: int,
    u3: int,
)
    by (nonlinear_arith)
    ensures
        (a1 - a3) * (u1 - u2) + (b1 - b3) * (u1 - u2) + (a2 - a1) * (u1 - u3) + (b2 - b1) * (u1
            - u3) == ((a3 + b3) - (a1 + b1)) * (u2 - u1) - ((a2 + b2) - (a1 + b1)) * (u3 - u1),
{
}

/// The two denominators of the closed formula are `2 * turn` and its
/// opposite, and the two numerators are [`numerator_y`] and the opposite of
/// [`numerator_x`].
proof fn lemma_closed_formula(x1: int, y1: int, x2: int, y2: int, x3: int, y3: int)
    ensures
        (y3 - y1) * (x1 - x2) - (y2 - y1) * (x1 - x3) == -turn(x1, y1, x2, y2, x3, y3),
        (x3 - x1) * (y1 - y2) - (x2 - x1) * (y1 - y3) == turn(x1, y1, x2, y2, x3, y3),
        (x1 * x1 - x3 * x3) * (x1 - x2) + (y1 * y1 - y3 * y3) * (x1 - x2) + (x2 * x2 - x1 * x1) * (
        x1 - x3) + (y2 * y2 - y1 * y1) * (x1 - x3) == numerator_y(x1, y1, x2, y2, x3, y3),
        (x1 * x1 - x3 * x3) * (y1 - y2) + (y1 * y1 - y3 * y3) * (y1 - y2) + (x2 * x2 - x1 * x1) * (
        y1 - y3) + (y2 * y2 - y1 * y1) * (y1 - y3) == -numerator_x(x1, y1, x2, y2, x3, y3),
{
    assert((y3 - y1) * (x1 - x2) - (y2 - y1) * (x1 - x3) == -((x2 - x1) * (y3 - y1) - (x3 - x1) * (
    y2 - y1))) by (nonlinear_arith);
    assert((x3 - x1) * (y1 - y2) - (x2 - x1) * (y1 - y3) == (x2 - x1) * (y3 - y1) - (x3 - x1) * (y2
        - y1)) by (nonlinear_arith);
    lemma_regroup(x1 * x1, y1 * y1, x2 * x2, y2 * y2, x3 * x3, y3 * y3, x1, x2, x3);
    lemma_regroup(x1 * x1, y1 * y1, x2 * x2, y2 * y2, x3 * x3, y3 * y3, y1, y2, y3);
}

/// Integer parts of a point's coordinates.
fn integer_point(v: &Vertex) -> (p: (i64, i64))
    ensures
        p.0 == v.x.floor(),
        p.1 == v.y.floor(),
        -32768 <= p.0 <= 32767,
        -32768 <= p.1 <= 32767,
{
    (integer_part(v.x.bits), integer_part(v.y.bits))
}

/// Centre of the circle through three integer points, by the closed formula:
/// two linear combinations of the squared-coordinate differences, each divided
/// by twice a cross term, give the opposites of the centre's coordinates.
/// `None` stands for collinear points, for which both cross terms vanish.
fn centre_of(a: (i64, i64), b: (i64, i64), c: (i64, i64)) -> (res: Option<(i64, i64)>)
    requires
        -32768 <= a.0 <= 32767,
        -32768 <= a.1 <= 32767,
        -32768 <= b.0 <= 32767,
        -32768 <= b.1 <= 32767,
        -32768 <= c.0 <= 32767,
        -32768 <= c.1 <= 32767,
    ensures
        ({
            let (x1, y1) = (a.0 as int, a.1 as int);
            let (x2, y2) = (b.0 as int, b.1 as int);
            let (x3, y3) = (c.0 as int, c.1 as int);
            match res {
                None => collinear(x1, y1, x2, y2, x3, y3),
                Some(m) => {
                    &&& !collinear(x1, y1, x2, y2, x3, y3)
                    &&& m.0 == centre_x(x1, y1, x2, y2, x3, y3)
                    &&& m.1 == centre_y(x1, y1, x2, y2, x3, y3)
                },
            }
        }),
{
    let (x1, y1): (i64, i64) = a;
    let (x2, y2): (i64, i64) = b;
    let (x3, y3): (i64, i64) = c;

    let x12: i64 = x1 - x2;
    let x13: i64 = x1 - x3;
    let y12: i64 = y1 - y2;
    let y13: i64 = y1 - y3;

    let x31: i64 = x3 - x1;
    let x21: i64 = x2 - x1;
    let y31: i64 = y3 - y1;
    let y21: i64 = y2 - y1;

    proof {
        lemma_square_bound(x1 as int, 32768);
        lemma_square_bound(x2 as int, 32768);
        lemma_square_bound(x3 as int, 32768);
        lemma_square_bound(y1 as int, 32768);
        lemma_square_bound(y2 as int, 32768);
        lemma_square_bound(y3 as int, 32768);
    }
    let sx13: i64 = x1 * x1 - x3 * x3;
    let sy13: i64 = y1 * y1 - y3 * y3;
    let sx21: i64 = x2 * x2 - x1 * x1;
    let sy21: i64 = y2 * y2 - y1 * y1;

    proof {
        lemma_product_bound(y31 as int, x12 as int, 65535, 65535);
        lemma_product_bound(y21 as int, x13 as int, 65535, 65535);
        lemma_product_bound(x31 as int, y12 as int, 65535, 65535);
        lemma_product_bound(x21 as int, y13 as int, 65535, 65535);
        lemma_closed_formula(x1 as int, y1 as int, x2 as int, y2 as int, x3 as int, y3 as int);
    }
    let den_f: i64 = 2 * (y31 * x12 - y21 * x13);
    let den_g: i64 = 2 * (x31 * y12 - x21 * y13);
    if den_f == 0 || den_g == 0 {
        return None;
    }
    proof {
        lemma_product_bound(sx13 as int, x12 as int, 0x4000_0000, 65535);
        lemma_product_bound(sy13 as int, x12 as int, 0x4000_0000, 65535);
        lemma_product_bound(sx21 as int, x13 as int, 0x4000_0000, 65535);
        lemma_product_bound(sy21 as int, x13 as int, 0x4000_0000, 65535);
        lemma_product_bound(sx13 as int, y12 as int, 0x4000_0000, 65535);
        lemma_product_bound(sy13 as int, y12 as int, 0x4000_0000, 65535);
        lemma_product_bound(sx21 as int, y13 as int, 0x4000_0000, 65535);
        lemma_product_bound(sy21 as int, y13 as int, 0x4000_0000, 65535);
    }
    let f: i64 = divide(sx13 * x12 + sy13 * x12 + sx21 * x13 + sy21 * x13, den_f);
    let g: i64 = divide(sx13 * y12 + sy13 * y12 + sx21 * y13 + sy21 * y13, den_g);
    proof {
        let t = turn(x1 as int, y1 as int, x2 as int, y2 as int, x3 as int, y3 as int);
        lemma_quotient_negated_divisor(
            numerator_y(x1 as int, y1 as int, x2 as int, y2 as int, x3 as int, y3 as int),
            2 * t,
        );
        lemma_quotient_negated_dividend(
            numerator_x(x1 as int, y1 as int, x2 as int, y2 as int, x3 as int, y3 as int),
            2 * t,
        );
    }
    Some((-g, -f))
}

/// Completes the square: the terms that one coordinate `x` of a point adds to
/// the squared radius, with `g` the opposite of the centre's coordinate.
proof fn lemma_completed_square(x: int, g: int)
    ensures
        g * g - (-x) * x + (2 * g) * x == (x - (-g)) * (x - (-g)),
        g * g + x * x + (2 * g) * x == (x - (-g)) * (x - (-g)),
{
    assert((-x) * x == -(x * x)) by (nonlinear_arith);
    assert((2 * g) * x == 2 * (g * x)) by (nonlinear_arith);
    assert((x + g) * (x + g) == x * x + 2 * (g * x) + g * g) by (nonlinear_arith);
}

/// Squared radius of the circle with centre `m` through the point `p`: with
/// `g` and `f` the opposites of the centre's coordinates and `c` the constant
/// term of the circle's equation, it is `g * g + f * f - c`. That is the squared
/// distance from `p` to `m`, hence never negative.
fn squared_radius(p: (i64, i64), m: (i64, i64)) -> (sq: i64)
    requires
        -32768 <= p.0 <= 32767,
        -32768 <= p.1 <= 32767,
        -32768 <= m.0 <= 32767,
        -32768 <= m.1 <= 32767,
    ensures
        sq == squared_distance(p.0 as int, p.1 as int, m.0 as int, m.1 as int),
        sq >= 0,
{
    let (x1, y1): (i64, i64) = p;
    let g: i64 = -m.0;
    let f: i64 = -m.1;
    proof {
        lemma_product_bound(-x1, x1 as int, 32768, 32768);
        lemma_product_bound(y1 as int, y1 as int, 32768, 32768);
        lemma_product_bound(2 * g, x1 as int, 65536, 32768);
        lemma_product_bound(2 * f, y1 as int, 65536, 32768);
        lemma_product_bound(g as int, g as int, 32768, 32768);
        lemma_product_bound(f as int, f as int, 32768, 32768);
        lemma_square_bound(x1 - m.0, 65535);
        lemma_square_bound(y1 - m.1, 65535);
        lemma_completed_square(x1 as int, g as int);
        lemma_completed_square(y1 as int, f as int);
    }
    let c: i64 = -x1 * x1 - y1 * y1 - 2 * g * x1 - 2 * f * y1;
    g * g + f * f - c
}

/// Decides [`representable`]: whether [`circle_from_three_vertex`] can write
/// down the circle through the three points.
pub fn circle_representable(vertex: &[Vertex; 3]) -> (ok: bool)
    ensures
        ok == representable(vertex[0], vertex[1], vertex[2]),
{
    let p1: (i64, i64) = integer_point(&vertex[0]);
    let p2: (i64, i64) = integer_point(&vertex[1]);
    let p3: (i64, i64) = integer_point(&vertex[2]);
    match centre_of(p1, p2, p3) {
        None => true,
        Some(m) => {
            if m.0 < -32768 || m.0 > 32767 || m.1 < -32768 || m.1 > 32767 {
                false
            } else {
                squared_radius(p1, m) < 0x4000_0000
            }
        },
    }
}

/// Fits the circle through three points.
///
/// Only the integer parts of the coordinates count. Points whose integer parts
/// lie on one line have no circle: that is reported as
/// [`FitError::Collinear`], and it is the only failure. Otherwise the centre
/// comes from the closed formula, each coordinate rounded towards zero to an
/// integer, and the radius is the square root of the squared distance from the
/// first point to that centre, taken in the 32.32 format and rounded down to
/// sixteen fractional bits. The squared distance is a sum of two squares, so
/// the root is never asked of a negative number.
///
/// The circle has to be [`representable`]; [`circle_representable`] decides
/// that.
pub fn circle_from_three_vertex(vertex: &[Vertex; 3]) -> (res: Result<Circle, FitError>)
    requires
        representable(vertex[0], vertex[1], vertex[2]),
    ensures
        outcome(res) == fit(vertex[0], vertex[1], vertex[2]),
        res is Err <==> samples_collinear(vertex[0], vertex[1], vertex[2]),
        res matches Ok(c) ==> is_floor_root(
            c.r@,
            samples_radicand(vertex[0], vertex[1], vertex[2]) * 0x1_0000_0000,
        ),
{
    let p1: (i64, i64) = integer_point(&vertex[0]);
    let p2: (i64, i64) = integer_point(&vertex[1]);
    let p3: (i64, i64) = integer_point(&vertex[2]);
    match centre_of(p1, p2, p3) {
        None => Err(FitError::Collinear),
        Some(m) => {
            let sqr_of_r: i64 = squared_radius(p1, m);
            let wide: i64 = widen_integer(sqr_of_r);
            let root: i64 = sqrt_q32(wide);
            proof {
                lemma_narrowed_root(root as int, wide as int);
                if sqr_of_r == 0 {
                    lemma_floor_root_of_zero();
                    assert(is_floor_root(0, 0)) by (nonlinear_arith);
                } else {
                    lemma_floor_root(root / 65536, wide as int);
                }
            }
            Ok(
                Circle {
                    x: Scalar { bits: from_integer(m.0) },
                    y: Scalar { bits: from_integer(m.1) },
                    r: Scalar { bits: narrow(root) },
                },
            )
        },
    }
}

/// Where both divisions of the closed formula leave no remainder, the centre
/// is equally far from the three points: the circle passes through all of
/// them.
pub proof fn lemma_centre_equidistant(x1: int, y1: int, x2: int, y2: int, x3: int, y3: int)
    requires
        !collinear(x1, y1, x2, y2, x3, y3),
        centre_exact(x1, y1, x2, y2, x3, y3),
    ensures
        squared_distance(
            x2,
            y2,
            centre_x(x1, y1, x2, y2, x3, y3),
            centre_y(x1, y1, x2, y2, x3, y3),
        ) == radicand(x1, y1, x2, y2, x3, y3),
        squared_distance(
            x3,
            y3,
            centre_x(x1, y1, x2, y2, x3, y3),
            centre_y(x1, y1, x2, y2, x3, y3),
        ) == radicand(x1, y1, x2, y2, x3, y3),
{
    let cx = centre_x(x1, y1, x2, y2, x3, y3);
    let cy = centre_y(x1, y1, x2, y2, x3, y3);
    let t = turn(x1, y1, x2, y2, x3, y3);
    let ax = x2 - x1;
    let ay = y2 - y1;
    let bx = x3 - x1;
    let by = y3 - y1;
    let a = squared_norm(x2, y2) - squared_norm(x1, y1);
    let b = squared_norm(x3, y3) - squared_norm(x1, y1);
    let nx = numerator_x(x1, y1, x2, y2, x3, y3);
    let ny = numerator_y(x1, y1, x2, y2, x3, y3);
    lemma_distance_difference(x1, y1, x2, y2, cx, cy);
    lemma_distance_difference(x1, y1, x3, y3, cx, cy);
    let e2 = squared_distance(x2, y2, cx, cy) - squared_distance(x1, y1, cx, cy);
    let e3 = squared_distance(x3, y3, cx, cy) - squared_distance(x1, y1, cx, cy);
    assert(t * (2 * (cx * ax)) == (cx * (2 * t)) * ax) by (nonlinear_arith);
    assert(t * (2 * (cy * ay)) == (cy * (2 * t)) * ay) by (nonlinear_arith);
    assert(t * (2 * (cx * bx)) == (cx * (2 * t)) * bx) by (nonlinear_arith);
    assert(t * (2 * (cy * by)) == (cy * (2 * t)) * by) by (nonlinear_arith);
    assert((a * by - b * ay) * ax + (b * ax - a * bx) * ay == a * (ax * by - bx * ay))
        by (nonlinear_arith);
    assert((a * by - b * ay) * bx + (b * ax - a * bx) * by == b * (ax * by - bx * ay))
        by (nonlinear_arith);
    assert(t * e2 == 0) by (nonlinear_arith)
        requires
            e2 == a - 2 * (cx * ax) - 2 * (cy * ay),
            t * (2 * (cx * ax)) == nx * ax,
            t * (2 * (cy * ay)) == ny * ay,
            nx * ax + ny * ay == a * t,
    ;
    assert(t * e3 == 0) by (nonlinear_arith)
        requires
            e3 == b - 2 * (cx * bx) - 2 * (cy * by),
            t * (2 * (cx * bx)) == nx * bx,
            t * (2 * (cy * by)) == ny * by,
            nx * bx + ny * by == b * t,
    ;
    assert(e2 == 0 && e3 == 0) by (nonlinear_arith)
        requires
            t != 0,
            t * e2 == 0,
            t * e3 == 0,
    ;
}

/// The difference of the squared distances from two points to a third.
proof fn lemma_distance_difference(px: int, py: int, qx: int, qy: int, cx: int, cy: int)
    ensures
        squared_distance(qx, qy, cx, cy) - squared_distance(px, py, cx, cy) == squared_norm(
            qx,
            qy,
        ) - squared_norm(px, py) - 2 * (cx * (qx - px)) - 2 * (cy * (qy - py)),
{
    assert((qx - cx) * (qx - cx) - (px - cx) * (px - cx) == qx * qx - px * px - 2 * (cx * (qx
        - px))) by (nonlinear_arith);
    assert((qy - cy) * (qy - cy) - (py - cy) * (py - cy) == qy * qy - py * py - 2 * (cy * (qy
        - py))) by (nonlinear_arith);
}

/// The form that `turn` and both numerators share changes its sign when two
/// of the three points are exchanged: `s` stands for what is differenced in
/// the first factors, `u` in the second.
proof fn lemma_alternating(s1: int, s2: int, s3: int, u1: int, u2: int, u3: int)
    by (nonlinear_arith)
    ensures
        (s1 - s2) * (u3 - u2) - (s3 - s2) * (u1 - u2) == -((s2 - s1) * (u3 - u1) - (s3 - s1) * (u2
            - u1)),
        (s3 - s1) * (u2 - u1) - (s2 - s1) * (u3 - u1) == -((s2 - s1) * (u3 - u1) - (s3 - s1) * (u2
            - u1)),
{
}

/// The centre does not depend on the order of the points: exchanging the
/// first two points, or the last two, keeps collinear points collinear and
/// every other centre where it is.
pub proof fn lemma_centre_order(x1: int, y1: int, x2: int, y2: int, x3: int, y3: int)
    ensures
        collinear(x2, y2, x1, y1, x3, y3) == collinear(x1, y1, x2, y2, x3, y3),
        collinear(x1, y1, x3, y3, x2, y2) == collinear(x1, y1, x2, y2, x3, y3),
        !collinear(x1, y1, x2, y2, x3, y3) ==> {
            &&& centre_x(x2, y2, x1, y1, x3, y3) == centre_x(x1, y1, x2, y2, x3, y3)
            &&& centre_y(x2, y2, x1, y1, x3, y3) == centre_y(x1, y1, x2, y2, x3, y3)
            &&& centre_x(x1, y1, x3, y3, x2, y2) == centre_x(x1, y1, x2, y2, x3, y3)
            &&& centre_y(x1, y1, x3, y3, x2, y2) == centre_y(x1, y1, x2, y2, x3, y3)
        },
{
    let (s1, s2, s3) = (squared_norm(x1, y1), squared_norm(x2, y2), squared_norm(x3, y3));
    lemma_alternating(x1, x2, x3, y1, y2, y3);
    lemma_alternating(s1, s2, s3, y1, y2, y3);
    lemma_alternating(s1, s2, s3, x1, x2, x3);
    let t = turn(x1, y1, x2, y2, x3, y3);
    let nx = numerator_x(x1, y1, x2, y2, x3, y3);
    let ny = numerator_y(x1, y1, x2, y2, x3, y3);
    assert(turn(x2, y2, x1, y1, x3, y3) == -t);
    assert(turn(x1, y1, x3, y3, x2, y2) == -t);
    assert(numerator_x(x2, y2, x1, y1, x3, y3) == -nx);
    assert(numerator_x(x1, y1, x3, y3, x2, y2) == -nx);
    assert(numerator_y(x2, y2, x1, y1, x3, y3) == -ny);
    assert(numerator_y(x1, y1, x3, y3, x2, y2) == -ny);
    if t != 0 {
        lemma_quotient_negated_dividend(nx, 2 * t);
        lemma_quotient_negated_divisor(-nx, 2 * t);
        lemma_quotient_negated_dividend(ny, 2 * t);
        lemma_quotient_negated_divisor(-ny, 2 * t);
    }
}

/// Whether both divisions of the closed formula leave no remainder: the
/// centre of the circle through the three points has integer coordinates.
pub open spec fn centre_exact(x1: int, y1: int, x2: int, y2: int, x3: int, y3: int) -> bool {
    &&& centre_x(x1, y1, x2, y2, x3, y3) * (2 * turn(x1, y1, x2, y2, x3, y3)) == numerator_x(
        x1,
        y1,
        x2,
        y2,
        x3,
        y3,
    )
    &&& centre_y(x1, y1, x2, y2, x3, y3) * (2 * turn(x1, y1, x2, y2, x3, y3)) == numerator_y(
        x1,
        y1,
        x2,
        y2,
        x3,
        y3,
    )
}

/// The fit does not depend on the order of the points, where the centre has
/// integer coordinates: each of the six orders gives the same result. With a
/// centre that is rounded, the radius is the distance from the rounded centre
/// to whichever point comes first, and can differ between orders.
pub proof fn lemma_fit_order(x1: int, y1: int, x2: int, y2: int, x3: int, y3: int)
    requires
        !collinear(x1, y1, x2, y2, x3, y3) ==> centre_exact(x1, y1, x2, y2, x3, y3),
    ensures
        fit_integers(x1, y1, x3, y3, x2, y2) == fit_integers(x1, y1, x2, y2, x3, y3),
        fit_integers(x2, y2, x1, y1, x3, y3) == fit_integers(x1, y1, x2, y2, x3, y3),
        fit_integers(x2, y2, x3, y3, x1, y1) == fit_integers(x1, y1, x2, y2, x3, y3),
        fit_integers(x3, y3, x1, y1, x2, y2) == fit_integers(x1, y1, x2, y2, x3, y3),
        fit_integers(x3, y3, x2, y2, x1, y1) == fit_integers(x1, y1, x2, y2, x3, y3),
{
    lemma_centre_order(x1, y1, x2, y2, x3, y3);
    lemma_centre_order(x2, y2, x1, y1, x3, y3);
    lemma_centre_order(x1, y1, x3, y3, x2, y2);
    lemma_centre_order(x3, y3, x1, y1, x2, y2);
    if !collinear(x1, y1, x2, y2, x3, y3) {
        lemma_centre_equidistant(x1, y1, x2, y2, x3, y3);
    }
}

/// What a fit gives after its circle, if there is one, is moved by `t`: the
/// centre is shifted, the radius stays.
pub open spec fn translated(res: Result<(int, int, int), FitError>, t: Vertex) -> Result<
    (int, int, int),
    FitError,
> {
    match res {
        Ok(c) => Ok((c.0 + t.x@, c.1 + t.y@, c.2)),
        Err(e) => Err(e),
    }
}

/// How the difference of two squared norms changes when both points move by
/// `(dx, dy)`.
proof fn lemma_shifted_norm(px: int, py: int, qx: int, qy: int, dx: int, dy: int)
    ensures
        squared_norm(qx + dx, qy + dy) - squared_norm(px + dx, py + dy) == squared_norm(qx, qy)
            - squared_norm(px, py) + 2 * (dx * (qx - px)) + 2 * (dy * (qy - py)),
{
    assert((qx + dx) * (qx + dx) - (px + dx) * (px + dx) == qx * qx - px * px + 2 * (dx * (qx
        - px))) by (nonlinear_arith);
    assert((qy + dy) * (qy + dy) - (py + dy) * (py + dy) == qy * qy - py * py + 2 * (dy * (qy
        - py))) by (nonlinear_arith);
}

/// One numerator after a move: `a` and `b` are the differences of squared
/// norms before it, the other arguments the coordinate differences and the
/// shift.
proof fn lemma_shifted_numerator(
    a: int,
    b: int,
    ax: int,
    ay: int,
    bx: int,
    by: int,
    dx: int,
    dy: int,
)
    ensures
        (a + 2 * (dx * ax) + 2 * (dy * ay)) * by - (b + 2 * (dx * bx) + 2 * (dy * by)) * ay == (a
            * by - b * ay) + dx * (2 * (ax * by - bx * ay)),
{
    let u = dx * ax;
    let v = dy * ay;
    let w = dx * bx;
    let z = dy * by;
    assert((a + 2 * u + 2 * v) * by - (b + 2 * w + 2 * z) * ay == (a * by - b * ay) + 2 * (u * by)
        + 2 * (v * by) - 2 * (w * ay) - 2 * (z * ay)) by (nonlinear_arith);
    assert(v * by == z * ay) by (nonlinear_arith)
        requires
            v == dy * ay,
            z == dy * by,
    ;
    assert(u * by - w * ay == dx * (ax * by - bx * ay)) by (nonlinear_arith)
        requires
            u == dx * ax,
            w == dx * bx,
    ;
    assert(dx * (2 * (ax * by - bx * ay)) == 2 * (dx * (ax * by - bx * ay))) by (nonlinear_arith);
}

/// Moving three points by the same integers leaves `turn` unchanged and moves
/// each numerator of the centre by the shift times `2 * turn`.
proof fn lemma_shifted_formula(
    x1: int,
    y1: int,
    x2: int,
    y2: int,
    x3: int,
    y3: int,
    dx: int,
    dy: int,
)
    ensures
        turn(x1 + dx, y1 + dy, x2 + dx, y2 + dy, x3 + dx, y3 + dy) == turn(x1, y1, x2, y2, x3, y3),
        numerator_x(x1 + dx, y1 + dy, x2 + dx, y2 + dy, x3 + dx, y3 + dy) == numerator_x(
            x1,
            y1,
            x2,
            y2,
            x3,
            y3,
        ) + dx * (2 * turn(x1, y1, x2, y2, x3, y3)),
        numerator_y(x1 + dx, y1 + dy, x2 + dx, y2 + dy, x3 + dx, y3 + dy) == numerator_y(
            x1,
            y1,
            x2,
            y2,
            x3,
            y3,
        ) + dy * (2 * turn(x1, y1, x2, y2, x3, y3)),
{
    let ax = x2 - x1;
    let ay = y2 - y1;
    let bx = x3 - x1;
    let by = y3 - y1;
    assert((x2 + dx) - (x1 + dx) == ax && (y2 + dy) - (y1 + dy) == ay);
    assert((x3 + dx) - (x1 + dx) == bx && (y3 + dy) - (y1 + dy) == by);
    let a = squared_norm(x2, y2) - squared_norm(x1, y1);
    let b = squared_norm(x3, y3) - squared_norm(x1, y1);
    lemma_shifted_norm(x1, y1, x2, y2, dx, dy);
    lemma_shifted_norm(x1, y1, x3, y3, dx, dy);
    lemma_shifted_numerator(a, b, ax, ay, bx, by, dx, dy);
    lemma_shifted_numerator(b, a, by, bx, ay, ax, dy, dx);
    assert(by * ax - ay * bx == ax * by - bx * ay) by (nonlinear_arith);
}

/// Translation invariance of the fit on integer points: moving three points
/// that are not collinear by the integers `(dx, dy)` moves the centre by the
/// same and keeps the squared radius, where rounding each coordinate of the
/// centre towards zero is [`steady`] under the move. Collinear points stay
/// collinear under every move.
pub proof fn lemma_centre_translation(
    x1: int,
    y1: int,
    x2: int,
    y2: int,
    x3: int,
    y3: int,
    dx: int,
    dy: int,
)
    requires
        !collinear(x1, y1, x2, y2, x3, y3) ==> {
            &&& steady(
                numerator_x(x1, y1, x2, y2, x3, y3),
                2 * turn(x1, y1, x2, y2, x3, y3),
                dx,
            )
            &&& steady(
                numerator_y(x1, y1, x2, y2, x3, y3),
                2 * turn(x1, y1, x2, y2, x3, y3),
                dy,
            )
        },
    ensures
        collinear(x1 + dx, y1 + dy, x2 + dx, y2 + dy, x3 + dx, y3 + dy) == collinear(
            x1,
            y1,
            x2,
            y2,
            x3,
            y3,
        ),
        !collinear(x1, y1, x2, y2, x3, y3) ==> {
            &&& centre_x(x1 + dx, y1 + dy, x2 + dx, y2 + dy, x3 + dx, y3 + dy) == centre_x(
                x1,
                y1,
                x2,
                y2,
                x3,
                y3,
            ) + dx
            &&& centre_y(x1 + dx, y1 + dy, x2 + dx, y2 + dy, x3 + dx, y3 + dy) == centre_y(
                x1,
                y1,
                x2,
                y2,
                x3,
                y3,
            ) + dy
            &&& radicand(x1 + dx, y1 + dy, x2 + dx, y2 + dy, x3 + dx, y3 + dy) == radicand(
                x1,
                y1,
                x2,
                y2,
                x3,
                y3,
            )
        },
{
    lemma_shifted_formula(x1, y1, x2, y2, x3, y3, dx, dy);
    if !collinear(x1, y1, x2, y2, x3, y3) {
        let d = 2 * turn(x1, y1, x2, y2, x3, y3);
        lemma_quotient_shift(numerator_x(x1, y1, x2, y2, x3, y3), d, dx);
        lemma_quotient_shift(numerator_y(x1, y1, x2, y2, x3, y3), d, dy);
        let cx = centre_x(x1, y1, x2, y2, x3, y3);
        let cy = centre_y(x1, y1, x2, y2, x3, y3);
        assert((x1 + dx) - (cx + dx) == x1 - cx);
        assert((y1 + dy) - (cy + dy) == y1 - cy);
    }
}

/// Whether rounding the centre of the circle through three points towards
/// zero is [`steady`] under a move by the integer part of `t`, in both
/// coordinates.
pub open spec fn centre_steady(v1: Vertex, v2: Vertex, v3: Vertex, t: Vertex) -> bool {
    let (x1, y1) = (v1.x.floor(), v1.y.floor());
    let (x2, y2) = (v2.x.floor(), v2.y.floor());
    let (x3, y3) = (v3.x.floor(), v3.y.floor());
    &&& steady(
        numerator_x(x1, y1, x2, y2, x3, y3),
        2 * turn(x1, y1, x2, y2, x3, y3),
        t.x.floor(),
    )
    &&& steady(
        numerator_y(x1, y1, x2, y2, x3, y3),
        2 * turn(x1, y1, x2, y2, x3, y3),
        t.y.floor(),
    )
}

/// Translation invariance of the fit: fitting three points moved by `t` gives
/// what fitting the points and then moving the circle by `t` gives.
///
/// For points that are not collinear that holds where `t` has integer
/// coordinates and the rounding of the centre is steady under the move: the
/// fit sees integer parts only, and it rounds the centre towards zero, so a
/// move by a fraction or across zero can change what is rounded away. For
/// collinear points it holds where `t` has integer coordinates, and wherever
/// else the moved points are collinear too.
pub proof fn lemma_fit_translation(v1: Vertex, v2: Vertex, v3: Vertex, t: Vertex)
    requires
        v1.summable(t),
        v2.summable(t),
        v3.summable(t),
        samples_collinear(v1, v2, v3) ==> (t.x.is_whole() && t.y.is_whole()) || samples_collinear(
            v1.sum(t),
            v2.sum(t),
            v3.sum(t),
        ),
        !samples_collinear(v1, v2, v3) ==> t.x.is_whole() && t.y.is_whole() && centre_steady(
            v1,
            v2,
            v3,
            t,
        ),
    ensures
        fit(v1.sum(t), v2.sum(t), v3.sum(t)) == translated(fit(v1, v2, v3), t),
{
    if t.x.is_whole() && t.y.is_whole() {
        let dx = t.x.floor();
        let dy = t.y.floor();
        assert(v1.sum(t).x.floor() == v1.x.floor() + dx);
        assert(v1.sum(t).y.floor() == v1.y.floor() + dy);
        assert(v2.sum(t).x.floor() == v2.x.floor() + dx);
        assert(v2.sum(t).y.floor() == v2.y.floor() + dy);
        assert(v3.sum(t).x.floor() == v3.x.floor() + dx);
        assert(v3.sum(t).y.floor() == v3.y.floor() + dy);
        lemma_centre_translation(
            v1.x.floor(),
            v1.y.floor(),
            v2.x.floor(),
            v2.y.floor(),
            v3.x.floor(),
            v3.y.floor(),
            dx,
            dy,
        );
    }
}

} // verus!
