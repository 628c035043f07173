//! AES-256-GCM with a 96-bit nonce and no associated data, as the `aes-gcm`
//! crate computes it.
//!
//! Nothing in this module is proved: the contracts below describe the outside
//! crate and are taken on trust by everything built on them.

use aes_gcm::aead::{Aead, AeadCore, KeyInit, OsRng};
use aes_gcm::{Aes256Gcm, Key, Nonce};
use vstd::prelude::*;

verus! {

/// Length of an AES-256 key in bytes.
pub const KEY_LEN: usize = 32;

/// Length of the nonce in bytes.
pub const NONCE_LEN: usize = 12;

/// Length of the authentication tag that ends every ciphertext, in bytes.
pub const TAG_LEN: usize = 16;

/// The longest plaintext that the cipher accepts, in bytes.
pub const MAX_PLAINTEXT_LEN: u64 = 68_719_476_736;

/// The error of the `aead` traits: it carries nothing, so that a failure
/// does not tell why it happened.
#[verifier::external_type_specification]
#[verifier::external_body]
pub struct ExAeadError(aes_gcm::Error);

/// The ciphertext, tag included, that AES-256-GCM gives for `plaintext`
/// under `key` and `nonce`.
pub uninterp spec fn aes_gcm_seal(key: Seq<u8>, nonce: Seq<u8>, plaintext: Seq<u8>) -> Seq<u8>;

/// The plaintext that AES-256-GCM recovers from `ciphertext` under `key` and
/// `nonce`, or `None` where it rejects the ciphertext.
pub uninterp spec fn aes_gcm_open(key: Seq<u8>, nonce: Seq<u8>, ciphertext: Seq<u8>) -> Option<
    Seq<u8>,
>;

/// `Aead::encrypt` of `Aes256Gcm`, called on the cipher that `KeyInit::new`
/// makes of `key`, with no associated data.
///
/// Trusted: the call fails exactly on a plaintext longer than
/// `MAX_PLAINTEXT_LEN`; otherwise it returns the encrypted plaintext followed
/// by the tag, a value fixed by key, nonce and plaintext, which
/// `Aead::decrypt` under the same key and nonce turns back into the
/// plaintext.
#[verifier::external_body]
pub(crate) fn aead_encrypt(key: &[u8; 32], nonce: &[u8; 12], plaintext: &[u8]) -> (res: Result<
    Vec<u8>,
    aes_gcm::Error,
>)
    ensures
        res is Ok <==> plaintext@.len() <= MAX_PLAINTEXT_LEN,
        res matches Ok(c) ==> c@ == aes_gcm_seal(key@, nonce@, plaintext@),
        res matches Ok(c) ==> c@.len() == plaintext@.len() + TAG_LEN,
        res matches Ok(c) ==> aes_gcm_open(key@, nonce@, c@) == Some(plaintext@),
{
    let cipher = Aes256Gcm::new(Key::<Aes256Gcm>::from_slice(key));
    cipher.encrypt(Nonce::from_slice(nonce), plaintext)
}

/// `Aead::decrypt` of `Aes256Gcm`, called on the cipher that `KeyInit::new`
/// makes of `key`, with no associated data.
///
/// Trusted: the outcome is fixed by key, nonce and ciphertext; a ciphertext
/// shorter than the tag is rejected, and a recovered plaintext is shorter
/// than the ciphertext by the tag. Nothing is claimed of which longer
/// ciphertexts are rejected.
#[verifier::external_body]
pub(crate) fn aead_decrypt(key: &[u8; 32], nonce: &[u8; 12], ciphertext: &[u8]) -> (res: Result<
    Vec<u8>,
    aes_gcm::Error,
>)
    ensures
        res matches Ok(p) ==> aes_gcm_open(key@, nonce@, ciphertext@) == Some(p@),
        res is Err ==> aes_gcm_open(key@, nonce@, ciphertext@) is None,
        res matches Ok(p) ==> p@.len() + TAG_LEN == ciphertext@.len(),
        ciphertext@.len() < TAG_LEN ==> res is Err,
{
    let cipher = Aes256Gcm::new(Key::<Aes256Gcm>::from_slice(key));
    cipher.decrypt(Nonce::from_slice(nonce), ciphertext)
}

/// `KeyInit::generate_key` of `Aes256Gcm`, fed by the operating system's
/// random generator. Nothing is known of the bytes that come back.
#[verifier::external_body]
pub(crate) fn fresh_key() -> (key: [u8; 32]) {
    Aes256Gcm::generate_key(OsRng).into()
}

/// `AeadCore::generate_nonce` of `Aes256Gcm`, fed by the operating system's
/// random generator. Nothing is known of the bytes that come back.
#[verifier::external_body]
pub(crate) fn fresh_nonce() -> (nonce: [u8; 12]) {
    Aes256Gcm::generate_nonce(&mut OsRng).into()
}

} // verus!
