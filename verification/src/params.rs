//! Operator-owned state around the engine: the live server seed, its
//! published commitment, and the spin counter. The engine itself never
//! owns this state; callers pass a snapshot in and persist what comes
//! back.

use crate::rng::{derive_hash_hex, spec_commitment};
use vstd::prelude::*;

verus! {

/// The persisted operator parameters: the live (secret) server seed, the
/// published commitment of that seed, the return-to-player target in
/// hundredths (inert metadata), and the nonce of the last spin.
#[derive(Clone, Debug)]
pub struct OperatorParams {
    pub server_seed: String,
    pub server_seed_hash: String,
    pub rtp_target: u32,
    pub nonce: u64,
}

impl OperatorParams {
    /// The published commitment matches the live seed.
    pub open spec fn committed(&self) -> bool {
        self.server_seed_hash@ == spec_commitment(self.server_seed@)
    }

    /// Recomputes the commitment of the live seed, repairing a stale
    /// stored value; reports whether the stored value had to change.
    pub fn refresh_hash(&mut self) -> (changed: bool)
        ensures
            final(self).committed(),
            final(self).server_seed@ == old(self).server_seed@,
            final(self).rtp_target == old(self).rtp_target,
            final(self).nonce == old(self).nonce,
            changed == (old(self).server_seed_hash@ != spec_commitment(old(self).server_seed@)),
            !changed ==> final(self).server_seed_hash@ == old(self).server_seed_hash@,
    {
        let hash = derive_hash_hex(self.server_seed.as_str().as_bytes());
        if self.server_seed_hash != hash {
            self.server_seed_hash = hash;
            true
        } else {
            false
        }
    }

    /// Rotation: installs a new secret seed, publishes its commitment,
    /// and resets the nonce so that no counter value is ever reused
    /// against the seed being retired.
    pub fn rotate_seed(&mut self, new_seed: &str)
        ensures
            final(self).server_seed@ == new_seed@,
            final(self).server_seed_hash@ == spec_commitment(new_seed@),
            final(self).committed(),
            final(self).nonce == 0,
            final(self).rtp_target == old(self).rtp_target,
    {
        self.server_seed_hash = derive_hash_hex(new_seed.as_bytes());
        self.server_seed = new_seed.to_owned();
        self.nonce = 0;
    }

    /// Draws the nonce for the next spin: the counter is strictly
    /// increasing within one seed lifetime.
    pub fn advance_nonce(&mut self) -> (n: u64)
        requires
            old(self).nonce < u64::MAX,
        ensures
            final(self).nonce == old(self).nonce + 1,
            n == final(self).nonce,
            final(self).server_seed@ == old(self).server_seed@,
            final(self).server_seed_hash@ == old(self).server_seed_hash@,
            final(self).rtp_target == old(self).rtp_target,
    {
        self.nonce = self.nonce + 1;
        self.nonce
    }
}

} // verus!
