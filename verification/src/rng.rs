//! Deterministic randomness derivation: seed material to an unbounded,
//! repeatable stream of 32-bit values.
//!
//! The stream for one spin starts from the HMAC-SHA-256 tag of
//! `"<client_seed>:<nonce>"` under the server seed. Values are read as
//! consecutive big-endian four-byte chunks; whenever a buffer is
//! exhausted it is replaced by the SHA-256 digest of the current buffer,
//! and reading resumes from the start of the new one.

use crate::hashing::{hex_encode, hmac_sha256_tag, sha256_digest};
use crate::hashing::{spec_hex, spec_hmac_sha256, spec_sha256};
use vstd::prelude::*;
use vstd::utf8::encode_utf8;

verus! {

broadcast use vstd::array::group_array_axioms;

/// The decimal digits of `n` as ASCII bytes, most significant first, with
/// no leading zeros (a single digit for values below ten).
pub open spec fn spec_decimal(n: nat) -> Seq<u8>
    decreases n,
{
    if n < 10 {
        seq![(48 + n) as u8]
    } else {
        spec_decimal(n / 10).push((48 + n % 10) as u8)
    }
}

/// The HMAC message of one spin: the UTF-8 bytes of the client seed, the
/// colon byte, and the decimal digits of the nonce.
pub open spec fn spec_message(client: Seq<char>, nonce: u64) -> Seq<u8> {
    encode_utf8(client) + seq![58u8] + spec_decimal(nonce as nat)
}

/// The 32-byte buffer a spin's stream starts from: the HMAC-SHA-256 tag of
/// the spin message under the UTF-8 bytes of the server seed.
pub open spec fn spec_spin_buffer(server: Seq<char>, client: Seq<char>, nonce: u64) -> [u8; 32] {
    spec_hmac_sha256(encode_utf8(server), spec_message(client, nonce))
}

/// Buffer `j` of the hash chain: buffer zero is `b`, and every later
/// buffer is the SHA-256 digest of the previous one.
pub open spec fn spec_chained(b: [u8; 32], j: nat) -> [u8; 32]
    decreases j,
{
    if j == 0 {
        b
    } else {
        spec_sha256(spec_chained(b, (j - 1) as nat)@)
    }
}

/// The big-endian 32-bit value of four consecutive bytes of `b`.
pub open spec fn spec_be_word(b: Seq<u8>, i: int) -> u32 {
    (b[i] as int * 0x1000000 + b[i + 1] as int * 0x10000 + b[i + 2] as int * 0x100 + b[i
        + 3] as int) as u32
}

/// Value `k` of the unbounded stream drawn from a 32-byte buffer and its
/// hash chain: eight values per buffer, left to right.
pub open spec fn spec_chain_word(b: [u8; 32], k: nat) -> u32 {
    spec_be_word(spec_chained(b, k / 8)@, 4 * ((k % 8) as int))
}

/// Value `k` of the stream drawn from an arbitrary starting buffer: the
/// whole four-byte chunks of the buffer itself first, then the stream of
/// its SHA-256 hash chain.
pub open spec fn spec_word_stream(b0: Seq<u8>, k: nat) -> u32 {
    if k < b0.len() / 4 {
        spec_be_word(b0, 4 * k as int)
    } else {
        spec_chain_word(spec_sha256(b0), (k - b0.len() / 4) as nat)
    }
}

/// The first `count` values of the stream drawn from `b0`.
pub open spec fn spec_words(b0: Seq<u8>, count: nat) -> Seq<u32> {
    Seq::new(count, |k: int| spec_word_stream(b0, k as nat))
}

/// The published commitment of a server seed: the lowercase hex digits of
/// the SHA-256 digest of its UTF-8 bytes.
pub open spec fn spec_commitment(server: Seq<char>) -> Seq<char> {
    spec_hex(spec_sha256(encode_utf8(server))@)
}

/// Determinism: the stream is a pure function of the seed material, so
/// two independently built randomness states with equal seeds and nonce
/// draw element-wise equal values, for any count.
pub proof fn lemma_derivation_deterministic(a: ProvablyFairRng, b: ProvablyFairRng, count: nat)
    requires
        a.server_seed@ == b.server_seed@,
        a.client_seed@ == b.client_seed@,
        a.nonce == b.nonce,
    ensures
        a.words(count) == b.words(count),
        forall|k: nat| a.word(k) == b.word(k),
{
}

/// Commitment stability: the commitment is a pure function of the server
/// seed, so it is the same on every derivation from the same seed. (That
/// distinct seeds yield distinct commitments is collision resistance of
/// the hash, not a consequence of this specification.)
pub proof fn lemma_commitment_stable(s1: Seq<char>, s2: Seq<char>)
    requires
        s1 == s2,
    ensures
        spec_commitment(s1) == spec_commitment(s2),
{
}

/// The lowercase hex digest of the SHA-256 hash of `input`.
pub fn derive_hash_hex(input: &[u8]) -> (r: String)
    ensures
        r@ == spec_hex(spec_sha256(input@)@),
{
    let digest = sha256_digest(input);
    hex_encode(digest.as_slice())
}

/// Reads the big-endian 32-bit value at offset `i` of `b`.
fn be_word_at(b: &[u8], i: usize) -> (r: u32)
    requires
        i + 4 <= b@.len(),
    ensures
        r == spec_be_word(b@, i as int),
{
    (b[i] as u32) * 0x1000000 + (b[i + 1] as u32) * 0x10000 + (b[i + 2] as u32) * 0x100 + (b[i
        + 3] as u32)
}

/// The first `count` values of the unbounded deterministic stream drawn
/// from `input`: consecutive big-endian four-byte chunks, the buffer being
/// replaced by its SHA-256 digest whenever too few bytes remain.
pub fn derive_words(input: &[u8], count: usize) -> (r: Vec<u32>)
    ensures
        r@ == spec_words(input@, count as nat),
{
    let mut out: Vec<u32> = Vec::new();
    let mut i: usize = 0;
    while out.len() < count && input.len() - i >= 4
        invariant
            i == 4 * out@.len(),
            i <= input@.len(),
            out@.len() <= count,
            forall|k: int| 0 <= k < out@.len() ==> out@[k] == spec_word_stream(input@, k as nat),
        decreases count - out@.len(),
    {
        let w = be_word_at(input, i);
        proof {
            assert(out@.len() + 1 <= input@.len() / 4) by (nonlinear_arith)
                requires
                    4 * out@.len() + 4 <= input@.len(),
            ;
        }
        out.push(w);
        i = i + 4;
    }
    if out.len() == count {
        proof {
            assert(out@ =~= spec_words(input@, count as nat));
        }
        return out;
    }
    proof {
        assert(out@.len() == input@.len() / 4) by (nonlinear_arith)
            requires
                4 * out@.len() <= input@.len() < 4 * out@.len() + 4,
        ;
    }
    let ghost c0: nat = out@.len() as nat;
    let ghost h0: [u8; 32] = spec_sha256(input@);
    let mut buf: [u8; 32] = sha256_digest(input);
    let ghost mut j: nat = 0;
    let mut w: usize = 0;
    while out.len() < count
        invariant
            c0 == input@.len() / 4,
            c0 <= out@.len() <= count,
            w < 8,
            out@.len() == c0 + 8 * j + w,
            h0 == spec_sha256(input@),
            buf == spec_chained(h0, j),
            forall|k: int| 0 <= k < out@.len() ==> out@[k] == spec_word_stream(input@, k as nat),
        decreases count - out@.len(),
    {
        let idx = 4 * w;
        let v = be_word_at(buf.as_slice(), idx);
        proof {
            let k = out@.len() as nat;
            assert((8 * j + w) / 8 == j && (8 * j + w) % 8 == w) by (nonlinear_arith)
                requires
                    0 <= w < 8,
                    0 <= j,
            ;
            assert(spec_word_stream(input@, k) == spec_chain_word(h0, (8 * j + w) as nat));
            assert(v == spec_word_stream(input@, k));
        }
        out.push(v);
        w = w + 1;
        if w == 8 {
            buf = sha256_digest(buf.as_slice());
            proof {
                j = j + 1;
            }
            w = 0;
        }
    }
    proof {
        assert(out@ =~= spec_words(input@, count as nat));
    }
    out
}

/// Appends the decimal digits of `n` to `out`, most significant first.
fn push_decimal(n: u64, out: &mut Vec<u8>)
    ensures
        final(out)@ == old(out)@ + spec_decimal(n as nat),
    decreases n,
{
    if n < 10 {
        out.push(48 + n as u8);
        proof {
            assert(final(out)@ =~= old(out)@ + spec_decimal(n as nat));
        }
    } else {
        push_decimal(n / 10, out);
        out.push(48 + (n % 10) as u8);
        proof {
            assert(final(out)@ =~= old(out)@ + spec_decimal(n as nat));
        }
    }
}

/// Appends every byte of `src` to `dst`.
fn push_bytes(dst: &mut Vec<u8>, src: &[u8])
    ensures
        final(dst)@ == old(dst)@ + src@,
{
    let mut i: usize = 0;
    while i < src.len()
        invariant
            i <= src@.len(),
            dst@ == old(dst)@ + src@.take(i as int),
        decreases src@.len() - i,
    {
        dst.push(src[i]);
        proof {
            assert(old(dst)@ + src@.take(i as int) + seq![src@[i as int]] =~= old(dst)@
                + src@.take(i as int + 1));
        }
        i = i + 1;
    }
    proof {
        assert(src@.take(src@.len() as int) =~= src@);
    }
}

/// The randomness state of one spin: the secret operator seed, the seed
/// the player supplied, and the per-spin counter.
pub struct ProvablyFairRng {
    pub server_seed: String,
    pub client_seed: String,
    pub nonce: u64,
}

impl ProvablyFairRng {
    /// The 32-byte buffer this state's stream starts from.
    pub open spec fn buffer(&self) -> [u8; 32] {
        spec_spin_buffer(self.server_seed@, self.client_seed@, self.nonce)
    }

    /// Value `k` of this state's stream.
    pub open spec fn word(&self, k: nat) -> u32 {
        spec_word_stream(self.buffer()@, k)
    }

    /// The first `count` values of this state's stream.
    pub open spec fn words(&self, count: nat) -> Seq<u32> {
        spec_words(self.buffer()@, count)
    }

    /// A fresh randomness state for one spin.
    pub fn new(server_seed: &str, client_seed: &str, nonce: u64) -> (r: ProvablyFairRng)
        ensures
            r.server_seed@ == server_seed@,
            r.client_seed@ == client_seed@,
            r.nonce == nonce,
    {
        ProvablyFairRng {
            server_seed: server_seed.to_owned(),
            client_seed: client_seed.to_owned(),
            nonce,
        }
    }

    /// The published commitment of the live server seed: the only form of
    /// the seed safe to show before rotation.
    pub fn server_seed_hash_hex(&self) -> (r: String)
        ensures
            r@ == spec_commitment(self.server_seed@),
    {
        derive_hash_hex(self.server_seed.as_str().as_bytes())
    }

    /// The HMAC-SHA-256 tag this state's stream starts from.
    pub fn hmac_bytes(&self) -> (r: [u8; 32])
        ensures
            r == self.buffer(),
    {
        let mut msg: Vec<u8> = Vec::new();
        push_bytes(&mut msg, self.client_seed.as_str().as_bytes());
        msg.push(58);
        push_decimal(self.nonce, &mut msg);
        proof {
            assert(msg@ =~= spec_message(self.client_seed@, self.nonce));
        }
        hmac_sha256_tag(self.server_seed.as_str().as_bytes(), msg.as_slice())
    }

    /// The first `count` values of this state's stream.
    pub fn next_words(&self, count: usize) -> (r: Vec<u32>)
        ensures
            r@ == self.words(count as nat),
    {
        let bytes = self.hmac_bytes();
        derive_words(bytes.as_slice(), count)
    }
}

} // verus!
