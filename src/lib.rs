//! A small PLONKish arithmetization engine over the Pallas base field, with
//! a satisfaction checker and an array-sum circuit built on it.
pub mod field;
pub mod plonk;
pub mod array_sum;
pub mod laws;
