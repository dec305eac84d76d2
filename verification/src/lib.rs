//! Fixed-point plane geometry: points, circles, the circle through three
//! points, and an exponential filter that smooths successive circles.
//!
//! Every number is a signed 16.16 fixed-point value, held as its raw bits;
//! the contracts speak of those bits as mathematical integers.

pub mod backend;
pub mod circle;
pub mod fit;
pub mod quotient;
pub mod root;
pub mod scalar;
pub mod vertex;

pub use crate::circle::{Circle, ExpFilt};
pub use crate::fit::{circle_from_three_vertex, circle_representable, FitError};
pub use crate::scalar::Scalar;
pub use crate::vertex::Vertex;
