//! Trusted bindings to the cryptographic primitives of the `sha2`, `hmac`
//! and `hex` crates, together with names for their results.

use hmac::Mac;
use sha2::Digest;
use vstd::prelude::*;

verus! {

/// The SHA-256 digest of a byte sequence: a pure function of the input
/// bytes alone. Its value is not modelled here; it is only named.
pub uninterp spec fn spec_sha256(input: Seq<u8>) -> [u8; 32];

/// The HMAC-SHA-256 tag of a message under a key: a pure function of the
/// key and message bytes alone. Its value is not modelled here.
pub uninterp spec fn spec_hmac_sha256(key: Seq<u8>, msg: Seq<u8>) -> [u8; 32];

/// Relies on `sha2::Sha256` (via `sha2::Digest::digest`): the digest is 32
/// bytes and depends on the input bytes alone.
#[verifier::external_body]
pub(crate) fn sha256_digest(input: &[u8]) -> (r: [u8; 32])
    ensures
        r == spec_sha256(input@),
{
    sha2::Sha256::digest(input).into()
}

/// Relies on `hmac::Hmac<sha2::Sha256>`: the tag is 32 bytes and depends on
/// the key and message bytes alone. `Mac::new_from_slice` accepts a key of
/// any length for this construction (a long key is first hashed), so the
/// expectation cannot fail.
#[verifier::external_body]
pub(crate) fn hmac_sha256_tag(key: &[u8], msg: &[u8]) -> (r: [u8; 32])
    ensures
        r == spec_hmac_sha256(key@, msg@),
{
    let mut mac = hmac::Hmac::<sha2::Sha256>::new_from_slice(key)
        .expect("HMAC accepts keys of any length");
    mac.update(msg);
    mac.finalize().into_bytes().into()
}

/// The lowercase hexadecimal digit for a nibble value.
pub open spec fn spec_hex_digit(n: u8) -> char {
    if n == 0 {
        '0'
    } else if n == 1 {
        '1'
    } else if n == 2 {
        '2'
    } else if n == 3 {
        '3'
    } else if n == 4 {
        '4'
    } else if n == 5 {
        '5'
    } else if n == 6 {
        '6'
    } else if n == 7 {
        '7'
    } else if n == 8 {
        '8'
    } else if n == 9 {
        '9'
    } else if n == 10 {
        'a'
    } else if n == 11 {
        'b'
    } else if n == 12 {
        'c'
    } else if n == 13 {
        'd'
    } else if n == 14 {
        'e'
    } else {
        'f'
    }
}

/// The lowercase hexadecimal encoding of a byte sequence: two digits per
/// byte, high nibble first.
pub open spec fn spec_hex(bytes: Seq<u8>) -> Seq<char>
    decreases bytes.len(),
{
    if bytes.len() == 0 {
        Seq::empty()
    } else {
        seq![spec_hex_digit(bytes.first() / 16), spec_hex_digit(bytes.first() % 16)]
            + spec_hex(bytes.drop_first())
    }
}

/// Relies on `hex::encode`: each input byte becomes two lowercase
/// hexadecimal digits, high nibble first.
#[verifier::external_body]
pub(crate) fn hex_encode(bytes: &[u8]) -> (r: String)
    ensures
        r@ == spec_hex(bytes@),
{
    hex::encode(bytes)
}

} // verus!
