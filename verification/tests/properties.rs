use circle_fit::circle::{Circle, ExpFilt};
use circle_fit::fit::{circle_from_three_vertex, circle_representable, FitError};
use circle_fit::scalar::{Scalar, UNIT};
use circle_fit::vertex::Vertex;
use fixed::types::{I16F16, I32F32};

fn num(val: f64) -> Scalar {
    Scalar { bits: I16F16::from_num(val).to_bits() }
}

fn point(x: f64, y: f64) -> Vertex {
    Vertex::new(num(x), num(y))
}

/// Integer square root, rounded down.
fn isqrt(w: u128) -> u128 {
    let mut lo: u128 = 0;
    let mut hi: u128 = 1 << 48;
    while lo < hi {
        let mid = (lo + hi + 1) / 2;
        if mid * mid <= w {
            lo = mid;
        } else {
            hi = mid - 1;
        }
    }
    lo
}

/// What the root routine gives in the 32.32 format, narrowed to 16.16.
fn wide_root(bits: i64) -> i32 {
    I16F16::from_num(cordic::sqrt(I32F32::from_bits(bits))).to_bits()
}

fn as_f64(s: Scalar) -> f64 {
    I16F16::from_bits(s.bits).to_num::<f64>()
}

#[test]
fn collinear_points_are_reported() {
    let pts = [point(0.0, 0.0), point(1.0, 1.0), point(2.0, 2.0)];
    assert!(circle_representable(&pts));
    assert_eq!(circle_from_three_vertex(&pts), Err(FitError::Collinear));
}

#[test]
fn collinear_on_a_vertical_and_a_horizontal_line() {
    let vertical = [point(3.0, -2.0), point(3.0, 0.0), point(3.0, 7.0)];
    assert_eq!(circle_from_three_vertex(&vertical), Err(FitError::Collinear));
    let horizontal = [point(-4.0, 5.0), point(0.0, 5.0), point(9.0, 5.0)];
    assert_eq!(circle_from_three_vertex(&horizontal), Err(FitError::Collinear));
}

#[test]
fn repeated_point_is_collinear() {
    let pts = [point(1.0, 2.0), point(1.0, 2.0), point(4.0, -3.0)];
    assert_eq!(circle_from_three_vertex(&pts), Err(FitError::Collinear));
}

#[test]
fn fractional_parts_do_not_count_for_the_fit() {
    let pts = [point(1.75, 0.5), point(0.25, 1.99), point(-0.5, 0.125)];
    // integer parts: (1, 0), (0, 1), (-1, 0)
    assert_eq!(
        circle_from_three_vertex(&pts),
        Ok(Circle::new(num(0.0), num(0.0), num(1.0)))
    );
}

#[test]
fn fractional_parts_can_make_points_collinear() {
    // integer parts: (0, 0), (1, 1), (2, 2)
    let pts = [point(0.9, 0.1), point(1.2, 1.7), point(2.5, 2.4)];
    assert_eq!(circle_from_three_vertex(&pts), Err(FitError::Collinear));
}

#[test]
fn centre_is_rounded_towards_zero() {
    // exact centre (0.5, 0.5)
    let upper = [point(0.0, 0.0), point(1.0, 0.0), point(0.0, 1.0)];
    assert_eq!(
        circle_from_three_vertex(&upper),
        Ok(Circle::new(num(0.0), num(0.0), num(0.0)))
    );
    // exact centre (-0.5, -0.5)
    let lower = [point(0.0, 0.0), point(-1.0, 0.0), point(0.0, -1.0)];
    assert_eq!(
        circle_from_three_vertex(&lower),
        Ok(Circle::new(num(0.0), num(0.0), num(0.0)))
    );
    // exact centre (-2.5, 3.5), first point (-5, 3)
    let mixed = [point(-5.0, 3.0), point(0.0, 3.0), point(-5.0, 4.0)];
    let circle = circle_from_three_vertex(&mixed).unwrap();
    assert_eq!(circle.x, num(-2.0));
    assert_eq!(circle.y, num(3.0));
    // squared distance from (-5, 3) to (-2, 3)
    assert_eq!(circle.r, num(3.0));
}

#[test]
fn radius_takes_the_root_with_fractional_bits() {
    // centre (0, 0), squared radius 2
    let pts = [point(1.0, 1.0), point(-1.0, 1.0), point(1.0, -1.0)];
    let circle = circle_from_three_vertex(&pts).unwrap();
    assert_eq!(circle.x, num(0.0));
    assert_eq!(circle.y, num(0.0));
    // the square root of two, rounded down to sixteen fractional bits
    assert_eq!(circle.r.bits, 92681);
    assert!((as_f64(circle.r) - 2.0f64.sqrt()).abs() < 1e-4);
}

#[test]
fn fit_is_independent_of_the_orientation() {
    let ccw = [point(5.0, 2.0), point(2.0, 5.0), point(-1.0, 2.0)];
    let cw = [point(-1.0, 2.0), point(2.0, 5.0), point(5.0, 2.0)];
    assert_eq!(circle_from_three_vertex(&ccw), circle_from_three_vertex(&cw));
}

#[test]
fn circles_up_to_the_coordinate_range_are_fitted() {
    // centre (100, 100), squared radius 20000
    let pts = [point(0.0, 0.0), point(200.0, 0.0), point(0.0, 200.0)];
    assert!(circle_representable(&pts));
    let circle = circle_from_three_vertex(&pts).unwrap();
    assert_eq!(circle.x, num(100.0));
    assert_eq!(circle.y, num(100.0));
    assert_eq!(circle.r.bits as u128, isqrt(20000u128 << 32));
    // centre (0, 0), radius 1000
    let wide = [point(1000.0, 0.0), point(0.0, 1000.0), point(-1000.0, 0.0)];
    assert!(circle_representable(&wide));
    assert_eq!(
        circle_from_three_vertex(&wide),
        Ok(Circle::new(num(0.0), num(0.0), num(1000.0)))
    );
    // centre (0, 0), radius 128
    let edge = [point(128.0, 0.0), point(0.0, 128.0), point(-128.0, 0.0)];
    assert_eq!(
        circle_from_three_vertex(&edge),
        Ok(Circle::new(num(0.0), num(0.0), num(128.0)))
    );
}

#[test]
fn radius_at_the_end_of_the_range() {
    // exact centre (-0.5, -0.5), rounded to (0, 0); the first point decides
    // the radius
    let fits = [point(32767.0, 0.0), point(-32768.0, 0.0), point(0.0, -32768.0)];
    assert!(circle_representable(&fits));
    assert_eq!(
        circle_from_three_vertex(&fits),
        Ok(Circle::new(num(0.0), num(0.0), num(32767.0)))
    );
    // from (-32768, 0) the squared radius is two to the thirtieth
    let too_wide = [point(-32768.0, 0.0), point(32767.0, 0.0), point(0.0, -32768.0)];
    assert!(!circle_representable(&too_wide));
}

#[test]
fn far_centre_is_not_representable() {
    // nearly collinear: the centre lies far outside the coordinate range
    let pts = [point(-30000.0, 0.0), point(0.0, 1.0), point(30000.0, 0.0)];
    assert!(!circle_representable(&pts));
}

#[test]
fn extreme_coordinates_do_not_overflow() {
    let pts = [
        Vertex::new(Scalar { bits: i32::MIN }, Scalar { bits: i32::MIN }),
        Vertex::new(Scalar { bits: i32::MAX }, Scalar { bits: i32::MIN }),
        Vertex::new(Scalar { bits: i32::MIN }, Scalar { bits: i32::MAX }),
    ];
    // integer parts (-32768, -32768), (32767, -32768), (-32768, 32767):
    // centre (0, 0) after rounding, squared radius far above the bound
    assert!(!circle_representable(&pts));
}

#[test]
fn translation_moves_the_fitted_circle() {
    let pts = [point(5.0, 2.0), point(2.0, 5.0), point(-1.0, 2.0)];
    let t = point(-7.0, 11.0);
    let moved = [pts[0] + t, pts[1] + t, pts[2] + t];
    let before = circle_from_three_vertex(&pts).unwrap();
    let after = circle_from_three_vertex(&moved).unwrap();
    assert_eq!(after, before + t);
    assert_eq!(after, Circle::new(num(-5.0), num(13.0), num(3.0)));
}

#[test]
fn translation_keeps_collinear_points_collinear() {
    let pts = [point(0.0, 0.0), point(1.0, 1.0), point(2.0, 2.0)];
    let t = point(100.0, -50.0);
    let moved = [pts[0] + t, pts[1] + t, pts[2] + t];
    assert_eq!(circle_from_three_vertex(&moved), Err(FitError::Collinear));
}

#[test]
fn translation_across_zero_can_change_the_rounding() {
    // exact centre (0.5, 0.5), rounded to (0, 0)
    let pts = [point(0.0, 0.0), point(1.0, 0.0), point(0.0, 1.0)];
    let t = point(-1.0, -1.0);
    let moved = [pts[0] + t, pts[1] + t, pts[2] + t];
    let before = circle_from_three_vertex(&pts).unwrap();
    let after = circle_from_three_vertex(&moved).unwrap();
    // exact centre (-0.5, -0.5) is rounded to (0, 0) as well
    assert_eq!(after.x, num(0.0));
    assert_eq!((before + t).x, num(-1.0));
}

#[test]
fn vertex_addition_is_commutative_and_associative() {
    let a = point(1.5, -2.25);
    let b = point(-300.0, 4.0);
    let c = point(0.0625, 1000.5);
    assert_eq!(a + b, b + a);
    assert_eq!((a + b) + c, a + (b + c));
    assert_eq!(a + b, point(-298.5, 1.75));
}

#[test]
fn vertex_subtraction() {
    let a = point(1.5, -2.25);
    let b = point(-300.0, 4.0);
    assert_eq!(a - b, point(301.5, -6.25));
    assert_eq!((a - b) + b, a);
}

#[test]
fn scaling_by_one_is_the_identity() {
    let one = Scalar::one();
    assert_eq!(one.bits, UNIT);
    let a = point(-123.456, 0.001);
    assert_eq!(a * one, a);
    let extreme = Vertex::new(Scalar { bits: i32::MIN }, Scalar { bits: i32::MAX });
    assert_eq!(extreme * one, extreme);
}

#[test]
fn scaling_by_zero_and_by_a_negative() {
    let a = point(3.0, -4.5);
    assert_eq!(a * num(0.0), point(0.0, 0.0));
    assert_eq!(a * num(-2.0), point(-6.0, 9.0));
    assert_eq!(a * num(0.5), point(1.5, -2.25));
}

#[test]
fn product_is_rounded_towards_minus_infinity() {
    let half = num(0.5);
    // one unit in the last place times one half
    assert_eq!(Scalar { bits: 1 } * half, Scalar { bits: 0 });
    assert_eq!(Scalar { bits: -1 } * half, Scalar { bits: -1 });
    assert_eq!(Scalar { bits: 3 } * half, Scalar { bits: 1 });
    assert_eq!(Scalar { bits: -3 } * half, Scalar { bits: -2 });
}

#[test]
fn scalar_sum_and_difference() {
    assert_eq!(num(1.25) + num(2.5), num(3.75));
    assert_eq!(num(1.25) - num(2.5), num(-1.25));
    assert_eq!(Scalar { bits: i32::MAX - 1 } + Scalar { bits: 1 }, Scalar { bits: i32::MAX });
    assert_eq!(Scalar { bits: i32::MIN + 1 } - Scalar { bits: 1 }, Scalar { bits: i32::MIN });
}

#[test]
fn magnitude_of_three_four_is_five() {
    let v = point(3.0, 4.0);
    assert_eq!(v.abs(), num(5.0));
    assert!((as_f64(v.abs()) - 5.0).abs() < 1e-4);
}

#[test]
fn magnitude_of_small_and_negative_points() {
    assert_eq!(point(0.0, 0.0).abs(), num(0.0));
    assert_eq!(point(-1.0, 0.0).abs(), num(1.0));
    assert_eq!(point(-6.0, -8.0).abs(), num(10.0));
    let v = point(1.0, 1.0);
    assert_eq!(v.abs().bits, 92681);
    assert!((as_f64(v.abs()) - 2.0f64.sqrt()).abs() < 1e-4);
}

#[test]
fn magnitude_of_points_within_one_of_the_origin() {
    // below one the result is what the routine gives; it never exceeds the
    // exact distance
    for bits in [1i32, 2, 255, 256, 257, 4096, 32768, 46340, 65535] {
        let v = Vertex::new(Scalar { bits }, Scalar { bits: 0 });
        let r = v.abs();
        assert_eq!(r.bits, wide_root((bits as i64) * (bits as i64)));
        assert!(0 <= r.bits && r.bits <= bits);
    }
    let w = Vertex::new(Scalar { bits: -30000 }, Scalar { bits: 40000 });
    let r = w.abs();
    assert_eq!(r.bits, wide_root(30000i64 * 30000 + 40000i64 * 40000));
    assert!((r.bits as i64) * (r.bits as i64) <= 30000i64 * 30000 + 40000i64 * 40000);
}

#[test]
fn magnitude_of_far_points() {
    assert_eq!(point(20000.0, 21000.0).abs(), num(29000.0));
    assert_eq!(point(127.0, 0.0).abs(), num(127.0));
    assert_eq!(point(0.0, -32767.0).abs(), num(32767.0));
    let w = point(90.0, 90.0);
    assert_eq!(w.abs().bits as u128, isqrt(16200u128 << 32));
    // the largest squared distance below two to the thirtieth
    let far = Vertex::new(Scalar { bits: i32::MAX }, Scalar { bits: 0 });
    assert_eq!(far.abs(), Scalar { bits: i32::MAX });
    let diagonal = point(23170.0, 23170.0);
    assert_eq!(diagonal.abs().bits as u128, isqrt((2 * 23170u128 * 23170) << 32));
}

#[test]
fn magnitude_ignores_signs_and_order() {
    let points = [(3.5, -4.25), (20000.0, 21000.0), (0.001, 0.002), (-100.0, 0.5)];
    for (a, b) in points {
        let r = point(a, b).abs();
        assert_eq!(point(-a, b).abs(), r);
        assert_eq!(point(a, -b).abs(), r);
        assert_eq!(point(-a, -b).abs(), r);
        assert_eq!(point(b, a).abs(), r);
    }
}

#[test]
fn magnitude_is_the_root_rounded_down() {
    let mut bits: i64 = 65536;
    while bits < (1 << 31) {
        for other in [0i64, 1, 65535, 65536, bits / 3, bits] {
            let norm = (bits as u128) * (bits as u128) + (other as u128) * (other as u128);
            if norm < (1u128 << 62) {
                let v =
                    Vertex::new(Scalar { bits: bits as i32 }, Scalar { bits: -(other as i32) });
                assert_eq!(v.abs().bits as u128, isqrt(norm));
            }
        }
        bits = bits * 3 / 2 + 12345;
    }
}

#[test]
fn circle_translation_keeps_the_radius() {
    let c = Circle::new(num(3.0), num(4.0), num(1.0));
    let moved = c + point(-10.5, 0.25);
    assert_eq!(moved, Circle::new(num(-7.5), num(4.25), num(1.0)));
}

#[test]
fn filter_with_weight_zero_keeps_the_old_circle() {
    let old = Circle::new(num(12.5), num(-7.25), num(3.0));
    let new = Circle::new(num(2000.0), num(2000.0), num(2000.0));
    assert_eq!(old.exp_filt(new, num(0.0)), old);
}

#[test]
fn filter_with_weight_one_returns_the_new_circle() {
    let old = Circle::new(num(12.5), num(-7.25), num(3.0));
    let new = Circle::new(num(2000.0), num(-2000.0), num(2000.0));
    assert_eq!(old.exp_filt(new, num(1.0)), new);
}

#[test]
fn filter_halves_the_gap_each_step() {
    let target = Circle::new(num(2000.0), num(2000.0), num(2000.0));
    let mut c = Circle::new(num(0.0), num(0.0), num(0.0));
    let expected = [1000.0, 1500.0, 1750.0, 1875.0];
    for e in expected {
        c = c.exp_filt(target, num(0.5));
        assert_eq!(c, Circle::new(num(e), num(e), num(e)));
    }
}

#[test]
fn filter_with_a_quarter() {
    let old = Circle::new(num(8.0), num(-8.0), num(4.0));
    let new = Circle::new(num(16.0), num(0.0), num(0.0));
    // 8 * 0.75 + 16 * 0.25, -8 * 0.75, 4 * 0.75
    assert_eq!(old.exp_filt(new, num(0.25)), Circle::new(num(10.0), num(-6.0), num(3.0)));
}

#[test]
fn filter_rounds_each_product_down() {
    let old = Circle::new(Scalar { bits: 1 }, Scalar { bits: -1 }, Scalar { bits: 3 });
    let new = Circle::new(Scalar { bits: 1 }, Scalar { bits: -1 }, Scalar { bits: -3 });
    let half = num(0.5);
    // each half is rounded towards minus infinity before the sum
    assert_eq!(
        old.exp_filt(new, half),
        Circle::new(Scalar { bits: 0 }, Scalar { bits: -2 }, Scalar { bits: -1 })
    );
}

#[test]
fn filter_outside_the_unit_interval_extrapolates() {
    let old = Circle::new(num(0.0), num(0.0), num(1.0));
    let new = Circle::new(num(10.0), num(-10.0), num(2.0));
    assert_eq!(old.exp_filt(new, num(2.0)), Circle::new(num(20.0), num(-20.0), num(3.0)));
}

#[test]
fn filter_through_the_trait() {
    let old = Circle::new(num(0.0), num(0.0), num(0.0));
    let new = Circle::new(num(2000.0), num(2000.0), num(2000.0));
    let step = <Circle as ExpFilt<Circle, Scalar>>::exp_filt(old, new, num(0.5));
    assert_eq!(step, Circle::new(num(1000.0), num(1000.0), num(1000.0)));
}

#[test]
fn constructors_keep_their_arguments() {
    let v = Vertex::new(num(1.5), num(-2.5));
    assert_eq!(v.x, num(1.5));
    assert_eq!(v.y, num(-2.5));
    let c = Circle::new(num(1.0), num(2.0), num(3.0));
    assert_eq!((c.x, c.y, c.r), (num(1.0), num(2.0), num(3.0)));
}

#[test]
fn radius_is_the_root_rounded_down() {
    // centre (0, 0), squared radius a * a + b * b
    for a in [1i32, 2, 3, 7, 90, 91, 128, 1000, 12345, 23170] {
        for b in [1i32, 2, 5, 90, 127, 999, 23169] {
            let (x, y) = (a as f64, b as f64);
            let pts = [point(x, y), point(-x, y), point(x, -y)];
            assert!(circle_representable(&pts));
            let circle = circle_from_three_vertex(&pts).unwrap();
            assert_eq!(circle.x, num(0.0));
            assert_eq!(circle.y, num(0.0));
            let radicand = (a as u128) * (a as u128) + (b as u128) * (b as u128);
            assert_eq!(circle.r.bits as u128, isqrt(radicand << 32));
        }
    }
}

#[test]
fn fit_does_not_depend_on_the_order_of_the_points() {
    // centre (2, 2), radius 3
    let (a, b, c) = (point(5.0, 2.0), point(2.0, 5.0), point(-1.0, 2.0));
    let expected = Ok(Circle::new(num(2.0), num(2.0), num(3.0)));
    for order in [[a, b, c], [a, c, b], [b, a, c], [b, c, a], [c, a, b], [c, b, a]] {
        assert_eq!(circle_from_three_vertex(&order), expected);
    }
    // with the rounded centre (0, 0) of (0.5, 0.5) the first point decides
    let (p, q, r) = (point(0.0, 0.0), point(1.0, 0.0), point(0.0, 1.0));
    assert_eq!(circle_from_three_vertex(&[p, q, r]).unwrap().r, num(0.0));
    assert_eq!(circle_from_three_vertex(&[q, p, r]).unwrap().r, num(1.0));
}

#[test]
fn fit_near_the_ends_of_the_coordinate_range() {
    let high = [point(32767.0, 32000.0), point(32633.0, 32000.0), point(32700.0, 32067.0)];
    assert!(circle_representable(&high));
    assert_eq!(
        circle_from_three_vertex(&high),
        Ok(Circle::new(num(32700.0), num(32000.0), num(67.0)))
    );
    let low = [point(-32768.0, -32700.0), point(-32632.0, -32700.0), point(-32700.0, -32768.0)];
    assert!(circle_representable(&low));
    assert_eq!(
        circle_from_three_vertex(&low),
        Ok(Circle::new(num(-32700.0), num(-32700.0), num(68.0)))
    );
}

#[test]
fn filter_within_the_unit_interval_never_overflows() {
    let ends = [i32::MIN, i32::MIN + 1, -1, 0, 1, i32::MAX - 1, i32::MAX];
    for old in ends {
        for new in ends {
            for alpha in [0, 1, 32767, 32768, 65535, 65536] {
                let zero = Scalar { bits: 0 };
                let from = Circle::new(Scalar { bits: old }, Scalar { bits: new }, zero);
                let to = Circle::new(Scalar { bits: new }, Scalar { bits: old }, zero);
                let c = from.exp_filt(to, Scalar { bits: alpha });
                let (lo, hi) = (old.min(new) as i64, old.max(new) as i64);
                assert!(lo - 1 <= c.x.bits as i64 && c.x.bits as i64 <= hi);
                assert!(lo - 1 <= c.y.bits as i64 && c.y.bits as i64 <= hi);
                assert_eq!(c.r.bits, 0);
            }
        }
    }
}

#[test]
fn root_of_numbers_below_one() {
    // squared distance one quarter: the routine stays just below one half
    let v = point(0.5, 0.0);
    assert_eq!(v.abs().bits, wide_root(1 << 30));
    assert!((as_f64(v.abs()) - 0.5).abs() < 1e-4);
    assert!(v.abs().bits <= 32768);
    let w = point(0.3, 0.4);
    assert!((as_f64(w.abs()) - 0.5).abs() < 1e-3);
}

#[test]
fn magnitude_representable_decides_the_bound() {
    assert!(point(20000.0, 21000.0).magnitude_representable());
    assert!(point(0.0, 0.0).magnitude_representable());
    let (least, most) = (Scalar { bits: i32::MIN }, Scalar { bits: i32::MAX });
    assert!(Vertex::new(most, Scalar { bits: 0 }).magnitude_representable());
    // squared distance two to the thirtieth and more
    assert!(!Vertex::new(least, Scalar { bits: 0 }).magnitude_representable());
    assert!(!Vertex::new(most, Scalar { bits: 65536 }).magnitude_representable());
    assert!(!point(30000.0, 30000.0).magnitude_representable());
    assert!(!Vertex::new(least, least).magnitude_representable());
}

#[test]
fn filter_representable_decides_the_steps() {
    let old = Circle::new(num(0.0), num(0.0), num(1.0));
    let new = Circle::new(num(10.0), num(-10.0), num(2.0));
    assert!(old.filter_representable(new, num(0.5)));
    assert!(old.filter_representable(new, num(2.0)));
    assert!(old.filter_representable(new, num(-3.0)));
    // one minus the weight is not representable
    assert!(!old.filter_representable(new, Scalar { bits: i32::MIN }));
    assert!(!old.filter_representable(new, Scalar { bits: 65536 - i32::MAX - 1 }));
    assert!(old.filter_representable(old, Scalar { bits: 65536 - i32::MAX }));
    // a product is not representable
    let big = Circle::new(num(30000.0), num(0.0), num(0.0));
    assert!(!old.filter_representable(big, num(2.0)));
    assert!(!big.filter_representable(old, num(-1.0)));
    // the products are, their sum is not: 20000 * 1.5 + (-20000) * (-0.5)
    let high = Circle::new(num(20000.0), num(0.0), num(0.0));
    let opposite = Circle::new(num(-20000.0), num(0.0), num(0.0));
    assert!(!high.filter_representable(opposite, num(-0.5)));
    assert!(high.filter_representable(opposite, num(0.5)));
    // within the unit interval every step is
    let low =
        Circle::new(Scalar { bits: i32::MIN }, Scalar { bits: i32::MAX }, Scalar { bits: -1 });
    assert!(low.filter_representable(high, num(0.25)));
    assert!(low.filter_representable(low, Scalar { bits: 1 }));
}
