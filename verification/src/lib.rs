//! Recovery of a secret exponent from pairing-group elements via Cheon's
//! algorithm: two baby-step/giant-step searches over a small-order subgroup
//! of the pairing target field, followed by recombination and verification.

pub mod errors;
pub mod params;
pub mod curve;
pub mod table;
pub mod bsgs;
pub mod attack;
