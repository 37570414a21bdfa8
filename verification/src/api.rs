//! Plain data types of the service boundary around the engine.

use vstd::prelude::*;

verus! {

/// The answer to a fairness-commitment query: the published hex
/// commitment of the live server seed.
#[derive(Clone, Debug)]
pub struct VerifyResponse {
    pub server_seed_hash: String,
}

/// The failure taxonomy of the service boundary. The engine itself never
/// fails; these arise only around it.
#[derive(Clone, Debug)]
pub enum ApiError {
    /// The request was rejected before reaching the engine.
    Invalid(String),
    /// An internal failure outside the engine.
    Internal,
}

pub type ApiResult<T> = Result<T, ApiError>;

} // verus!
