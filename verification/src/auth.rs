//! Challenge-response authentication of the control channel.
//!
//! The relay issues a random 128-bit nonce; the client proves knowledge of
//! the shared secret by returning a keyed message-authentication code over
//! the nonce, with the secret as key. Both sides compute the proof the same
//! way; the relay checks it in constant time.

use vstd::prelude::*;
use vstd::bytes::*;
use hmac::Mac;

verus! {

/// The keyed message-authentication code over `msg` with key `key`, as the
/// hmac crate computes it. Its value is a pure function of the two arguments;
/// stating it in full is the business of the hmac and sha2 crates, so the
/// library only names it.
pub uninterp spec fn hmac_of(key: Seq<u8>, msg: Seq<u8>) -> Seq<u8>;

/// The proof a client owes for a challenge: the code over the nonce's
/// little-endian bytes, keyed with the shared secret.
pub open spec fn proof_tag(secret: Seq<u8>, nonce: u128) -> Seq<u8> {
    hmac_of(secret, spec_u128_to_le_bytes(nonce))
}

/// Relies on the hmac crate's `Hmac<Sha256>` (`Mac::new_from_slice`,
/// `update`, `finalize`): the tag is a function of key and message alone,
/// and `new_from_slice` accepts a key of any length, so it never fails.
#[verifier::external_body]
fn hmac_sha256(key: &[u8], msg: &[u8]) -> (r: Vec<u8>)
    ensures
        r@ == hmac_of(key@, msg@),
{
    let mut mac = hmac::Hmac::<sha2::Sha256>::new_from_slice(key).unwrap();
    mac.update(msg);
    mac.finalize().into_bytes().to_vec()
}

/// Relies on the hmac crate's `Mac::verify_slice`: it accepts exactly the
/// tags equal to the computed code, comparing in constant time.
#[verifier::external_body]
fn hmac_sha256_verify(key: &[u8], msg: &[u8], tag: &[u8]) -> (r: bool)
    ensures
        r == (tag@ == hmac_of(key@, msg@)),
{
    let mut mac = hmac::Hmac::<sha2::Sha256>::new_from_slice(key).unwrap();
    mac.update(msg);
    mac.verify_slice(tag).is_ok()
}

/// Relies on rand's `random`: a fresh pseudorandom value. Nothing is assumed
/// about which value comes back.
pub assume_specification<T>[ rand::random::<T> ]() -> (r: T)
    where rand::distributions::Standard: rand::distributions::Distribution<T>,
;

/// Draws a fresh 128-bit random value, used for challenge nonces, connection
/// identifiers and random port picks. Nothing is promised of its value: every
/// caller must be correct whatever comes back.
pub fn random_u128() -> (r: u128) {
    rand::random::<u128>()
}

/// Computes the proof for a challenge from the shared secret.
pub fn answer(secret: &Vec<u8>, nonce: u128) -> (tag: Vec<u8>)
    ensures
        tag@ == proof_tag(secret@, nonce),
{
    let msg = u128_to_le_bytes(nonce);
    hmac_sha256(secret.as_slice(), msg.as_slice())
}

/// Checks a presented proof against the challenge it answers. Accepts exactly
/// the tag that `answer` computes from the same secret and nonce.
pub fn validate(secret: &Vec<u8>, nonce: u128, tag: &[u8]) -> (ok: bool)
    ensures
        ok == (tag@ == proof_tag(secret@, nonce)),
{
    let msg = u128_to_le_bytes(nonce);
    hmac_sha256_verify(secret.as_slice(), msg.as_slice(), tag)
}

} // verus!
