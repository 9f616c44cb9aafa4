//! A generic dense row-major matrix library.
//!
//! `Matrix<T>` stores an `m`-by-`n` table of elements.  Construction,
//! element access and structural operations (row and column extraction,
//! augmentation, transposition, mapping) are available for any copyable
//! element type; arithmetic (sum, addition, negation, subtraction,
//! multiplication) additionally asks the element type to form a [`Ring`],
//! and comparison asks for [`EqElem`].

pub mod arith;
pub mod convenience;
pub mod laws;
pub mod matrix;
pub mod ring;

pub use convenience::identity;
pub use convenience::ones;
pub use convenience::zeros;
pub use matrix::Matrix;
pub use matrix::MatrixError;
pub use ring::EqElem;
pub use ring::Ring;
