//! Deterministic slot-machine engine with a provably fair randomness scheme.
//!
//! Every spin outcome is derived from a secret operator seed, a player
//! supplied seed and a per-spin nonce through a keyed 256-bit hash, so a
//! player who later learns the revealed operator seed can recompute the
//! outcome and confirm it was not tampered with.

pub mod api;
pub mod engine;
pub mod hashing;
pub mod params;
pub mod paytable;
pub mod rng;
pub mod symbols;

pub use crate::api::{ApiError, ApiResult, VerifyResponse};
pub use crate::params::OperatorParams;
pub use crate::engine::{
    compute_reel_window, spin_once, spin_with_seeds, verify_reels, window_to_indices,
    EngineParams, SpinOutcome,
};
pub use crate::paytable::{Paytable, PaytableEntry};
pub use crate::rng::{derive_hash_hex, derive_words, ProvablyFairRng};
pub use crate::symbols::{ReelsConfig, Symbol};
