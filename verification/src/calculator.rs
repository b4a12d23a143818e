//! First calculator stage: addition.

pub mod add;
