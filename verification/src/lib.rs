//! Single-variable polynomials over a generic coefficient type.
//!
//! A [`polynomial::Polynomial`] holds its coefficients lowest degree first,
//! together with the character that names its indeterminate. Construction
//! normalizes: zeros at the end of the coefficients are dropped, and the zero
//! polynomial is held as a single zero coefficient. Addition, subtraction,
//! multiplication, evaluation, degree and rendering are specified over the
//! mathematical model in [`model`] and proved against it.
//!
//! The coefficient type supplies the arithmetic through the
//! [`coefficient::Coefficient`] trait. [`integer`] implements it for `i64`;
//! [`laws`] states what holds of the operations for every coefficient type.

pub mod coefficient;
pub mod integer;
pub mod laws;
pub mod model;
pub mod polynomial;
pub mod text;
