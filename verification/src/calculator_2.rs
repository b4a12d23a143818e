//! Second calculator stage: multiplication and exponentiation, built by
//! repeated application of the stage below.

pub mod mul;
pub mod power;
