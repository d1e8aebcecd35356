//! A small personal recipe and ingredient manager.
//!
//! The crate keeps ingredients ("indigents", each with a name and a dietary
//! category), recipes (a name, a list of ingredient lines with quantities in
//! grams, ordered preparation steps and a meal-type tag), and an in-memory
//! store that owns both and assigns numeric identifiers.

pub mod indigent;
pub mod recipes;
pub mod store;
pub mod text;
