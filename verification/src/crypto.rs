//! Key material and signatures, through the signature backend.

use vstd::prelude::*;
use crate::errors::ClientError;

verus! {

#[verifier::external_type_specification]
#[verifier::external_body]
pub struct ExPublicKey(secp256k1_zkp::PublicKey);

#[verifier::external_type_specification]
#[verifier::external_body]
pub struct ExSecretKey(secp256k1_zkp::SecretKey);

#[verifier::external_type_specification]
#[verifier::external_body]
pub struct ExKeypair(secp256k1_zkp::Keypair);

#[verifier::external_type_specification]
#[verifier::external_body]
pub struct ExSecpError(secp256k1_zkp::UpstreamError);

/// Relies on rand::thread_rng and Rng::gen: 32 bytes of fresh entropy.
/// Nothing can be promised of their values.
#[verifier::external_body]
pub fn random_secret_bytes() -> (r: Vec<u8>)
    ensures
        r@.len() == 32,
{
    let bytes: [u8; 32] = rand::Rng::gen(&mut rand::thread_rng());
    bytes.to_vec()
}

/// Relies on secp256k1_zkp::SecretKey::from_slice: parses exactly 32 bytes
/// encoding a valid scalar, and errors on any other slice.
#[verifier::external_body]
pub fn secret_key_from_bytes(bytes: &Vec<u8>) -> (r: Result<
    secp256k1_zkp::SecretKey,
    secp256k1_zkp::UpstreamError,
>) {
    secp256k1_zkp::SecretKey::from_slice(bytes.as_slice())
}

/// Relies on secp256k1_zkp::PublicKey::from_secret_key: the public key
/// derived from a valid secret key; the context is created for the call.
#[verifier::external_body]
pub fn public_key_from_secret(sk: &secp256k1_zkp::SecretKey) -> (r: secp256k1_zkp::PublicKey) {
    let secp = secp256k1_zkp::Secp256k1::new();
    secp256k1_zkp::PublicKey::from_secret_key(&secp, sk)
}

/// Relies on secp256k1_zkp::Keypair::from_seckey_slice: accepts exactly 32
/// bytes encoding a valid scalar, and errors on anything else. The context
/// is created for the call.
#[verifier::external_body]
pub fn keypair_from_seckey_bytes(bytes: &Vec<u8>) -> (r: Result<
    secp256k1_zkp::Keypair,
    secp256k1_zkp::UpstreamError,
>) {
    let secp = secp256k1_zkp::Secp256k1::new();
    secp256k1_zkp::Keypair::from_seckey_slice(&secp, bytes.as_slice())
}

/// Relies on Secp256k1::sign_schnorr_no_aux_rand: a 64-byte BIP-340
/// signature over the 32-byte digest, deterministic in key and digest.
#[verifier::external_body]
pub fn schnorr_sign_digest(kp: &secp256k1_zkp::Keypair, digest: &Vec<u8>) -> (r: Vec<u8>)
    requires
        digest@.len() == 32,
    ensures
        r@.len() == 64,
{
    let mut d = [0u8; 32];
    d.copy_from_slice(digest.as_slice());
    let secp = secp256k1_zkp::Secp256k1::new();
    let msg = secp256k1_zkp::Message::from_digest(d);
    secp.sign_schnorr_no_aux_rand(&msg, kp).serialize().to_vec()
}

} // verus!
