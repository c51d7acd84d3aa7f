//! Authenticated encryption of payloads with AES-128-GCM, and the source of
//! fresh nonces.
use vstd::prelude::*;
use aes_gcm::aead::rand_core::RngCore;
use aes_gcm::aead::{Aead, KeyInit, OsRng};
use aes_gcm::{Aes128Gcm, Key, Nonce};

verus! {

/// Size of an AES-128 key.
pub const KEY_SIZE: usize = 16;

/// Size of an AES-GCM nonce.
pub const NONCE_SIZE: usize = 12;

/// Size of the tag that AES-GCM appends to the ciphertext.
pub const TAG_SIZE: usize = 16;

/// Longest plaintext that AES-GCM accepts (2^36 bytes).
pub const MAX_AEAD_PLAINTEXT: u64 = 68719476736;

/// The AES-128-GCM encryption of `plaintext` under `key` and `nonce`, with no
/// associated data: the ciphertext followed by the tag.
pub uninterp spec fn aes128_gcm_seal(key: Seq<u8>, nonce: Seq<u8>, plaintext: Seq<u8>) -> Seq<u8>;

/// Relies on `Aead::encrypt` of `aes_gcm::Aes128Gcm`: it fails exactly for a
/// plaintext longer than 2^36 bytes, and otherwise returns the ciphertext,
/// as long as the plaintext, followed by a 16-byte tag.
#[verifier::external_body]
pub(crate) fn aead_seal(key: &[u8; 16], nonce: &[u8], plaintext: &[u8]) -> (r: Option<Vec<u8>>)
    requires
        nonce@.len() == NONCE_SIZE,
    ensures
        plaintext@.len() <= MAX_AEAD_PLAINTEXT ==> r is Some,
        plaintext@.len() > MAX_AEAD_PLAINTEXT ==> r is None,
        r is Some ==> r->0@ == aes128_gcm_seal(key@, nonce@, plaintext@),
        r is Some ==> r->0@.len() == plaintext@.len() + TAG_SIZE,
{
    let cipher = Aes128Gcm::new(Key::<Aes128Gcm>::from_slice(key));
    cipher.encrypt(Nonce::from_slice(nonce), plaintext).ok()
}

/// Relies on `Aead::decrypt` of `aes_gcm::Aes128Gcm`: it recomputes the tag
/// over the ciphertext and succeeds exactly when it matches, in which case
/// it returns the plaintext, 16 bytes shorter than the input, whose
/// encryption under the same key and nonce is the input. Inputs longer than
/// 2^36 + 16 bytes are left out, as the primitive accepts a few of them whose
/// plaintext would exceed what encryption accepts.
#[verifier::external_body]
pub(crate) fn aead_open(key: &[u8; 16], nonce: &[u8], ciphertext: &[u8]) -> (r: Option<Vec<u8>>)
    requires
        nonce@.len() == NONCE_SIZE,
        ciphertext@.len() <= MAX_AEAD_PLAINTEXT + TAG_SIZE,
    ensures
        r is Some ==> aes128_gcm_seal(key@, nonce@, r->0@) == ciphertext@,
        r is Some ==> r->0@.len() + TAG_SIZE == ciphertext@.len(),
        forall|p: Seq<u8>|
            p.len() <= MAX_AEAD_PLAINTEXT && #[trigger] aes128_gcm_seal(key@, nonce@, p)
                == ciphertext@ ==> r is Some && r->0@ == p,
{
    let cipher = Aes128Gcm::new(Key::<Aes128Gcm>::from_slice(key));
    cipher.decrypt(Nonce::from_slice(nonce), ciphertext).ok()
}

/// Relies on `RngCore::try_fill_bytes` of the operating system's random
/// source (`OsRng`): twelve bytes of which nothing else is known, or `None`
/// when the source reports a failure.
#[verifier::external_body]
pub(crate) fn random_nonce() -> (r: Option<Vec<u8>>)
    ensures
        r is Some ==> r->0@.len() == NONCE_SIZE,
{
    let mut nonce = [0u8; 12];
    match OsRng.try_fill_bytes(&mut nonce) {
        Ok(()) => Some(nonce.to_vec()),
        Err(_) => None,
    }
}

} // verus!
