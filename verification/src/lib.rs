//! A range-check gadget for PLONK-style constraint systems.
//!
//! A field element is shown to lie in `[0, 2^(4·B))` by splitting it into four
//! `B`-bit limbs: one polynomial gate ties the limbs to the element and one
//! table lookup per limb bounds each of them by `2^B`.

pub mod error;
pub mod field;
pub mod gate;
pub mod halo;
pub mod limbs;
pub mod poly;
pub mod range;
pub mod soundness;
pub mod table;

pub use error::RangeError;
pub use field::FieldValue;
pub use range::{RangeChip, RangeConfig, Variable};
