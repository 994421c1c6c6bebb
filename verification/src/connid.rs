//! Connection IDs: random ones, and those that a server derives from the
//! destination connection ID of a first packet.

use vstd::prelude::*;
use crate::admission::MAX_CONN_ID_LEN;

verus! {

/// The length of the secret from which a server derives connection IDs.
pub const CONN_ID_SEED_LEN: usize = 32;

/// The length of a stateless reset token.
pub const RESET_TOKEN_LEN: usize = 16;

/// The length of an HMAC-SHA-256 tag.
pub const HMAC_TAG_LEN: usize = 32;

/// The most bytes that can be signed at once, and the longest secret to
/// sign with: a SHA-256 digest takes at most 2^61 - 1 bytes, of which the
/// padded key takes 64.
pub const MAX_SIGNED_LEN: u64 = 0x1fff_ffff_ffff_ffbf;

/// The most random bytes that are asked for at once.
pub const MAX_RANDOM_LEN: usize = 64;

/// `ring::error::Unspecified`: an error that tells nothing of its cause.
#[verifier::external_type_specification]
#[verifier::external_body]
pub struct ExUnspecified(ring::error::Unspecified);

/// The HMAC-SHA-256 tag of `data` under `key`, as `ring::hmac::sign`
/// computes it for a key made by `ring::hmac::Key::new`.
pub uninterp spec fn spec_hmac_sha256(key: Seq<u8>, data: Seq<u8>) -> Seq<u8>;

/// `ring::hmac::sign` with a key that `ring::hmac::Key::new` makes of `key`
/// for `ring::hmac::HMAC_SHA256`: the tag of `data` under `key`, which is as
/// long as a SHA-256 digest. Both calls give up on an input whose length
/// in bits does not fit in 64 bits; such inputs are left out.
#[verifier::external_body]
fn hmac_sha256(key: &[u8], data: &[u8]) -> (tag: Vec<u8>)
    requires
        key@.len() <= MAX_SIGNED_LEN,
        data@.len() <= MAX_SIGNED_LEN,
    ensures
        tag@ == spec_hmac_sha256(key@, data@),
        tag@.len() == HMAC_TAG_LEN,
{
    let key = ring::hmac::Key::new(ring::hmac::HMAC_SHA256, key);
    ring::hmac::sign(&key, data).as_ref().to_vec()
}

/// `ring::rand::SecureRandom::fill` on a `ring::rand::SystemRandom`: `len`
/// bytes from the system's random number generator, or its error.
#[verifier::external_body]
fn fill_random(len: usize) -> (r: Result<Vec<u8>, ring::error::Unspecified>)
    requires
        len <= MAX_RANDOM_LEN,
    ensures
        r matches Ok(bytes) ==> bytes@.len() == len,
{
    let mut bytes = vec![0u8; len];
    ring::rand::SecureRandom::fill(&ring::rand::SystemRandom::new(), &mut bytes)?;
    Ok(bytes)
}

/// The connection ID that a tag stands for: its first twenty bytes.
pub open spec fn spec_conn_id_from_tag(tag: Seq<u8>) -> Seq<u8> {
    tag.take(MAX_CONN_ID_LEN as int)
}

/// Cuts a connection ID out of a tag.
pub fn conn_id_from_tag(tag: &[u8]) -> (r: Vec<u8>)
    requires
        tag@.len() >= MAX_CONN_ID_LEN,
    ensures
        r@ == spec_conn_id_from_tag(tag@),
{
    let (head, _) = tag.split_at(MAX_CONN_ID_LEN);
    let r = crate::admission::copy_bytes(head);
    assert(r@ =~= tag@.take(MAX_CONN_ID_LEN as int));
    r
}

/// The connection ID that a server with the secret `seed` derives from the
/// destination connection ID `dcid`.
pub open spec fn spec_derive_conn_id(seed: Seq<u8>, dcid: Seq<u8>) -> Seq<u8> {
    spec_conn_id_from_tag(spec_hmac_sha256(seed, dcid))
}

/// Derives the connection ID under which a server with the secret `seed`
/// knows the connection that a packet for `dcid` opens.
pub fn derive_conn_id(seed: &[u8], dcid: &[u8]) -> (r: Vec<u8>)
    requires
        seed@.len() <= MAX_SIGNED_LEN,
        dcid@.len() <= MAX_SIGNED_LEN,
    ensures
        r@ == spec_derive_conn_id(seed@, dcid@),
        r@.len() == MAX_CONN_ID_LEN,
{
    let tag: Vec<u8> = hmac_sha256(seed, dcid);
    conn_id_from_tag(tag.as_slice())
}

/// Derives a connection ID like `derive_conn_id`; `None` for a secret or a
/// destination connection ID that is too long to be one.
pub fn try_derive_conn_id(seed: &[u8], dcid: &[u8]) -> (r: Option<Vec<u8>>)
    ensures
        r is Some <==> seed@.len() <= MAX_SIGNED_LEN && dcid@.len() <= MAX_SIGNED_LEN,
        r matches Some(id) ==> id@ == spec_derive_conn_id(seed@, dcid@) && id@.len()
            == MAX_CONN_ID_LEN,
{
    if seed.len() as u64 <= MAX_SIGNED_LEN && dcid.len() as u64 <= MAX_SIGNED_LEN {
        Some(derive_conn_id(seed, dcid))
    } else {
        None
    }
}

/// The number that `bytes` spell, most significant byte first.
pub open spec fn spec_be_u128(bytes: Seq<u8>) -> u128
    decreases bytes.len(),
{
    if bytes.len() == 0 {
        0
    } else {
        (spec_be_u128(bytes.drop_last()) << 8) | (bytes.last() as u128)
    }
}

/// Reads a stateless reset token off its sixteen bytes, most significant
/// byte first.
pub fn reset_token_from_bytes(bytes: &[u8]) -> (r: u128)
    requires
        bytes@.len() == RESET_TOKEN_LEN,
    ensures
        r == spec_be_u128(bytes@),
{
    let mut value: u128 = 0;
    let mut i: usize = 0;
    while i < bytes.len()
        invariant
            i <= bytes@.len(),
            value == spec_be_u128(bytes@.take(i as int)),
        decreases bytes@.len() - i,
    {
        assert(bytes@.take(i + 1).drop_last() =~= bytes@.take(i as int));
        assert(bytes@.take(i + 1).last() == bytes@[i as int]);
        value = (value << 8) | (bytes[i] as u128);
        i = i + 1;
    }
    assert(bytes@.take(i as int) =~= bytes@);
    value
}

/// What a request for random bytes comes to: the bytes that the generator
/// handed out, or nothing if it failed.
pub fn filled(outcome: Result<Vec<u8>, ring::error::Unspecified>) -> (r: Option<Vec<u8>>)
    ensures
        outcome matches Ok(bytes) ==> r == Some(bytes),
        outcome is Err ==> r is None,
{
    match outcome {
        Ok(bytes) => Some(bytes),
        Err(_) => None,
    }
}

/// The connection ID `scid` with the stateless reset token that the random
/// bytes of `outcome` spell, most significant byte first; nothing if the
/// generator failed or handed out other than sixteen bytes.
pub fn with_reset_token(scid: Vec<u8>, outcome: Result<Vec<u8>, ring::error::Unspecified>) -> (r:
    Option<(Vec<u8>, u128)>)
    ensures
        outcome matches Ok(bytes) ==> r == if bytes@.len() == RESET_TOKEN_LEN {
            Some((scid, spec_be_u128(bytes@)))
        } else {
            None
        },
        outcome is Err ==> r is None,
{
    match outcome {
        Ok(bytes) => {
            if bytes.len() == RESET_TOKEN_LEN {
                Some((scid, reset_token_from_bytes(bytes.as_slice())))
            } else {
                None
            }
        },
        Err(_) => None,
    }
}

/// A random source connection ID of twenty bytes, or `None` when the
/// system's random number generator fails.
pub fn gen_scid() -> (r: Option<Vec<u8>>)
    ensures
        r matches Some(scid) ==> scid@.len() == MAX_CONN_ID_LEN,
{
    filled(fill_random(MAX_CONN_ID_LEN))
}

/// A random secret for the derivation of connection IDs, or `None` when
/// the system's random number generator fails.
pub fn gen_conn_id_seed() -> (r: Option<Vec<u8>>)
    ensures
        r matches Some(seed) ==> seed@.len() == CONN_ID_SEED_LEN,
{
    filled(fill_random(CONN_ID_SEED_LEN))
}

/// A new random source connection ID with its stateless reset token, or
/// `None` when the system's random number generator fails.
pub fn generate_cid_and_reset_token() -> (r: Option<(Vec<u8>, u128)>)
    ensures
        r matches Some(pair) ==> pair.0@.len() == MAX_CONN_ID_LEN,
{
    match filled(fill_random(MAX_CONN_ID_LEN)) {
        Some(scid) => with_reset_token(scid, fill_random(RESET_TOKEN_LEN)),
        None => None,
    }
}

} // verus!
