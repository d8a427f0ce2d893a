//! Lustro: a 256-bit state engine offering a hash, a seeded PRNG and an
//! extendable-output function (XOF), with batch variants and snapshots.

pub mod constants;
pub mod errors;
pub mod engine;
pub mod bytes;
pub mod api;
pub mod dispatch;
pub mod types;
pub mod hash;
pub mod xof;
pub mod prng;
pub mod laws;
pub use api::lustro_api_version;
