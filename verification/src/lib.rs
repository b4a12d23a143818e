//! A small adventure-flavored library: characters and weapons, a toy
//! calculator, treasure-chest error handling, and a worker-coordination
//! model in which concurrent tasks hand results to a coordinator over a
//! bounded channel and the coordinator folds them into a running total.

pub mod armory;
pub mod calculator;
pub mod calculator_2;
pub mod channel;
pub mod coordination;
pub mod characters;
pub mod crabby;
pub mod inventory;
pub mod maps;
pub mod quests;
pub mod text;
pub mod treasure;
pub mod weapons;
