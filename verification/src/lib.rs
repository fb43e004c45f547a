//! Captured serialization value trees, with checked conversions between their
//! numeric variants and Rust's numeric types.
//!
//! Floating-point numbers are carried by their IEEE 754 bit patterns; every conversion
//! between numeric types is exact or fails with a [`CastError`].
use vstd::prelude::*;

pub mod value;
pub mod exact;
pub mod ieee;
pub mod encode;
pub mod convert;
pub mod laws;

pub use value::{CastError, Value, ValueMap};
pub use ieee::{f32_to_i128, f32_to_u128, f64_to_i128, f64_to_u128};
pub use convert::{value_to_f32, value_to_f64, value_to_i128, value_to_u128};

verus! {

} // verus!
