use circle_fit::circle::Circle;
use circle_fit::fit::{circle_from_three_vertex, FitError};
use circle_fit::scalar::Scalar;
use circle_fit::vertex::Vertex;
use fixed::types::I16F16;

fn fixed(val: f64) -> Scalar {
    Scalar { bits: I16F16::from_num(val).to_bits() }
}

#[test]
fn test_simple_circle() {
    let buffer = [
        Vertex { x: fixed(1.0), y: fixed(0.0) },
        Vertex { x: fixed(0.0), y: fixed(1.0) },
        Vertex { x: fixed(-1.0), y: fixed(0.0) },
    ];
    let circ = circle_from_three_vertex(&buffer);
    assert_eq!(
        circ,
        Ok::<Circle, FitError>(Circle { x: fixed(0.0), y: fixed(0.0), r: fixed(1.0) })
    );
}

#[test]
fn test_circle_with_offset_and_radius() {
    let buffer = [
        Vertex { x: fixed(5.0), y: fixed(2.0) },
        Vertex { x: fixed(2.0), y: fixed(5.0) },
        Vertex { x: fixed(-1.0), y: fixed(2.0) },
    ];
    let circ = circle_from_three_vertex(&buffer);
    assert_eq!(
        circ,
        Ok::<Circle, FitError>(Circle { x: fixed(2.0), y: fixed(2.0), r: fixed(3.0) })
    );
}

#[test]
fn test_circle_with_offset() {
    let buffer = [
        Vertex { x: fixed(3.0), y: fixed(2.0) },
        Vertex { x: fixed(2.0), y: fixed(3.0) },
        Vertex { x: fixed(1.0), y: fixed(2.0) },
    ];
    let circ = circle_from_three_vertex(&buffer);
    assert_eq!(
        circ,
        Ok::<Circle, FitError>(Circle { x: fixed(2.0), y: fixed(2.0), r: fixed(1.0) })
    );
}

#[test]
fn test_scalar_product() {
    let a = Vertex { x: fixed(1.0), y: fixed(1.0) };
    let c = fixed(2.0);
    let b = Vertex { x: fixed(2.0), y: fixed(2.0) };
    assert_eq!(b, a * c);
}

#[test]
fn test_addition_for_vertex() {
    let a = Vertex { x: fixed(1.0), y: fixed(2.0) };
    let b = Vertex { x: fixed(3.0), y: fixed(4.0) };
    let c = Vertex { x: fixed(4.0), y: fixed(6.0) };
    assert_eq!(c, a + b);
}

#[test]
fn test_exp_filter_for_circle() {
    let circ_old = Circle { x: fixed(0.0), y: fixed(0.0), r: fixed(0.0) };
    let circ_new = Circle { x: fixed(2000.0), y: fixed(2000.0), r: fixed(2000.0) };
    let alpha = fixed(0.5);
    let circ_filt1 = Circle { x: fixed(1000.0), y: fixed(1000.0), r: fixed(1000.0) };
    let circ_filt3 = Circle {
        x: Scalar { bits: I16F16::from_num(1500).to_bits() },
        y: Scalar { bits: I16F16::from_num(1500).to_bits() },
        r: Scalar { bits: I16F16::from_num(1500).to_bits() },
    };
    let circ_filt2 = circ_old.exp_filt(circ_new, alpha);
    assert_eq!(circ_filt1, circ_filt2);
    let circ_filt2 = circ_filt2.exp_filt(circ_new, alpha);
    assert_eq!(circ_filt3, circ_filt2);
}

#[test]
fn test_addition_for_circle_and_vertex() {
    let a = Vertex { x: fixed(1.0), y: fixed(2.0) };
    let b = Circle { x: fixed(3.0), y: fixed(4.0), r: fixed(1.0) };
    let c = Circle { x: fixed(4.0), y: fixed(6.0), r: fixed(1.0) };
    assert_eq!(c, b + a);
}
