//! Exact arithmetic in GF(5²) and the group law of a short Weierstrass
//! curve over it, with exhaustive searches for the points of the curve, its
//! torsion and the eigenspace of the Frobenius endomorphism.
//!
//! The modules whose names end in `_spec` hold the mathematical models that
//! the contracts speak of, those that end in `_lemmas` what is proved of
//! them, and `field`, `curve`, `search` and `report` the executable code.
//! `instance` is about the one curve `y² = x³ + x + 1`.

pub mod field_spec;
mod unreduced;
pub mod field_lemmas;
pub mod field;
pub mod curve_spec;
pub mod curve_lemmas;
pub mod curve;
pub mod instance;
mod instance_table;
pub mod search_spec;
pub mod search_lemmas;
pub mod search;
pub mod report;
