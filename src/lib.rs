//! Damm check digits over strings of decimal digits.
//!
//! A fixed quasigroup of order ten folds a digit string, left to right, into
//! one interim digit. Appending that digit makes the whole string fold to
//! zero, and every single-digit substitution and every adjacent transposition
//! of such a string folds to something else.
use vstd::prelude::*;

pub mod quasigroup;
pub mod check_digit;
pub mod detection;

pub use check_digit::{check_sum, encode, is_valid};

verus! {

} // verus!
