//! Build an ORed byte from the members of a tuple of bit-switch values.
//!
//! Hardware control registers are often written one byte at a time, with
//! each bit or small group of bits standing for one independent option.
//! This crate lets an application model each option as its own enum-like
//! type, give the type the [`ToByte`] capability, and then fold a whole
//! tuple of such values into the single byte that goes on the wire with
//! [`IntoAByte::into_a_byte`].
//!
//! The fold is a plain bitwise OR: the result's bits are exactly the union
//! of the bits contributed by the elements, in any order. The contracts
//! state this over the model in [`mask`], and the lemmas there prove the
//! algebra a caller may rely on: order independence, the zero element, and
//! bit isolation.
//!
//! A consumer grants a type the capability by implementing [`ToByte`]
//! once: one arm per variant, stating in `byte` which byte the variant
//! stands for and returning the same value from `to_byte`. The crate adds
//! no validation of the chosen patterns — overlapping bits simply OR
//! together, which is sometimes intended and always the caller's choice.

pub mod combine;
pub mod mask;

pub use combine::IntoAByte;
pub use combine::ToByte;
pub use mask::or_all;
