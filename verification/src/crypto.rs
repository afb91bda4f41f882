//! Cryptographic primitives of the engine, supplied by `casper_types`.
//!
//! The engine treats keys, signatures and digests as plain byte strings; the
//! outside crate does the actual hashing, signing and verification.  Each
//! result that is a pure function of its byte-string arguments is given a
//! name here, and the rest of the library is verified against those names.

use vstd::prelude::*;

verus! {

/// The 32-byte BLAKE2b digest that `casper_types::Digest::hash` returns.
pub uninterp spec fn hash_of(data: Seq<u8>) -> Seq<u8>;

/// Whether `casper_types::crypto::verify` accepts the signature, after the
/// public key and the signature are decoded from their `bytesrepr` form.
pub uninterp spec fn sig_valid(pk: Seq<u8>, msg: Seq<u8>, sig: Seq<u8>) -> bool;

/// The `bytesrepr` serialization of the Ed25519 public key derived from a
/// 32-byte seed by `casper_types::PublicKey::from(&SecretKey)`.
pub uninterp spec fn pk_bytes_of(seed: Seq<u8>) -> Seq<u8>;

/// The `bytesrepr` serialization of the Ed25519 signature that
/// `casper_types::crypto::sign` produces from the seed's key over a message.
pub uninterp spec fn sig_bytes_of(seed: Seq<u8>, msg: Seq<u8>) -> Seq<u8>;

/// Relies on `casper_types::Digest::hash`: a 32-byte BLAKE2b digest,
/// a function of the input bytes alone.
#[verifier::external_body]
pub fn hash_bytes(data: &Vec<u8>) -> (r: Vec<u8>)
    ensures
        r@ == hash_of(data@),
        r@.len() == 32,
{
    casper_types::Digest::hash(data.as_slice()).value().to_vec()
}

/// Relies on `casper_types::SecretKey::ed25519_from_bytes` (succeeds exactly
/// on 32-byte seeds), `PublicKey::from(&SecretKey)` and `bytesrepr::ToBytes`:
/// the serialized public key is a function of the seed alone.
#[verifier::external_body]
pub fn ed25519_public_key(seed: &Vec<u8>) -> (r: Option<Vec<u8>>)
    ensures
        r is Some <==> seed@.len() == 32,
        r is Some ==> r.unwrap()@ == pk_bytes_of(seed@),
{
    let sk = match casper_types::SecretKey::ed25519_from_bytes(seed.as_slice()) {
        Ok(sk) => sk,
        Err(_) => return None,
    };
    let pk = casper_types::PublicKey::from(&sk);
    casper_types::bytesrepr::ToBytes::to_bytes(&pk).ok()
}

/// Relies on `casper_types::crypto::sign` with an Ed25519 key pair rebuilt
/// from the seed: Ed25519 signing is deterministic in seed and message, and
/// `casper_types::crypto::verify` accepts the signature it produced under
/// the key pair's own public key.
#[verifier::external_body]
pub fn ed25519_sign(seed: &Vec<u8>, msg: &Vec<u8>) -> (r: Option<Vec<u8>>)
    ensures
        r is Some <==> seed@.len() == 32,
        r is Some ==> r.unwrap()@ == sig_bytes_of(seed@, msg@),
        r is Some ==> sig_valid(pk_bytes_of(seed@), msg@, sig_bytes_of(seed@, msg@)),
{
    let sk = match casper_types::SecretKey::ed25519_from_bytes(seed.as_slice()) {
        Ok(sk) => sk,
        Err(_) => return None,
    };
    let pk = casper_types::PublicKey::from(&sk);
    let sig = casper_types::crypto::sign(msg.as_slice(), &sk, &pk);
    casper_types::bytesrepr::ToBytes::to_bytes(&sig).ok()
}

/// Relies on `casper_types::crypto::verify` and `bytesrepr::deserialize`:
/// deterministic in the three byte strings alone; undecodable key or
/// signature bytes never verify.
#[verifier::external_body]
pub fn verify_sig(pk: &Vec<u8>, msg: &Vec<u8>, sig: &Vec<u8>) -> (r: bool)
    ensures
        r == sig_valid(pk@, msg@, sig@),
{
    let pk: casper_types::PublicKey = match casper_types::bytesrepr::deserialize(pk.clone()) {
        Ok(k) => k,
        Err(_) => return false,
    };
    let sig: casper_types::Signature = match casper_types::bytesrepr::deserialize(sig.clone()) {
        Ok(s) => s,
        Err(_) => return false,
    };
    casper_types::crypto::verify(msg.as_slice(), &sig, &pk).is_ok()
}

} // verus!
