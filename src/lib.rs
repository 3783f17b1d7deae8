//! Scalars modulo the order of the Ed25519 base point, points of the
//! Edwards curve, and their canonical byte and text encodings.
pub mod bytes;
pub mod error;
pub mod point;
pub mod scalar;
pub mod text;

pub use error::EccError;
pub use point::PointInner;
pub use scalar::ScalarInner;
