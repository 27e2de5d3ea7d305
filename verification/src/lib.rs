//! Core of a self-playing incremental combat game: a deterministic
//! fixed-timestep battle and economy simulation over integer milli-units,
//! together with a last-write-wins progress-synchronization client and the
//! server-side profile store it talks to.

pub mod client;
pub mod combat;
pub mod config;
pub mod cost;
pub mod engine;
pub mod errors;
pub mod input;
pub mod num;
pub mod store;
pub mod trusted;
pub mod unit;
pub mod upgrades;
