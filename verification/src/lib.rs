//! Resolution and synthesis core for value-carrying enums.
//!
//! An enum definition arrives as a structured tree: its name, its
//! annotations, and its variants in declared order, each with a field shape
//! and annotations of its own.  From that tree this crate resolves a display
//! string and a numeric index for every variant, picks the integer type that
//! backs the indices, and answers the lookups the resolved enum supports:
//! variant to string, variant to number, string to variant, number to variant.
//!
//! Everything here is verified with Verus; the contracts on the public
//! functions are the reference for what each one computes.

pub mod assign;
pub mod attributes;
pub mod error;
pub mod extract;
pub mod hooks;
pub mod laws;
pub mod layout;
pub mod lookup;
pub mod number;
pub mod repr;
pub mod schema;
pub mod structure;
