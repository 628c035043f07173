//! The cipher of a vault: one key and one nonce, made once and used for
//! every entry.

use crate::cipher::{
    aead_decrypt, aead_encrypt, aes_gcm_open, aes_gcm_seal, fresh_key, fresh_nonce, KEY_LEN,
    MAX_PLAINTEXT_LEN, NONCE_LEN, TAG_LEN,
};
use vstd::prelude::*;

verus! {

/// The one failure of the cipher. It tells neither a rejected tag from a bad
/// length nor a wrong key from a changed ciphertext.
#[derive(Debug, Clone, Copy, PartialEq, Eq, Hash, Structural)]
pub struct CryptoError;

/// What an [`EncryptionManager`] is to a contract: its key and its nonce.
pub struct CipherView {
    pub key: Seq<u8>,
    pub nonce: Seq<u8>,
}

impl CipherView {
    /// Key and nonce have the lengths that AES-256-GCM asks for.
    pub open spec fn wf(self) -> bool {
        &&& self.key.len() == KEY_LEN
        &&& self.nonce.len() == NONCE_LEN
    }

    /// The outcome of encrypting `plaintext`.
    pub open spec fn encrypt(self, plaintext: Seq<u8>) -> Result<Seq<u8>, CryptoError> {
        if plaintext.len() <= MAX_PLAINTEXT_LEN {
            Ok(aes_gcm_seal(self.key, self.nonce, plaintext))
        } else {
            Err(CryptoError)
        }
    }

    /// The outcome of decrypting `ciphertext`.
    pub open spec fn decrypt(self, ciphertext: Seq<u8>) -> Result<Seq<u8>, CryptoError> {
        match aes_gcm_open(self.key, self.nonce, ciphertext) {
            Some(plaintext) => Ok(plaintext),
            None => Err(CryptoError),
        }
    }
}

/// The view of what [`EncryptionManager::encrypt`] and
/// [`EncryptionManager::decrypt`] return.
pub open spec fn bytes_result_view(res: Result<Vec<u8>, CryptoError>) -> Result<
    Seq<u8>,
    CryptoError,
> {
    match res {
        Ok(bytes) => Ok(bytes@),
        Err(error) => Err(error),
    }
}

/// Encrypts and decrypts byte strings under a key and a nonce that stay the
/// same for as long as the value lives.
pub struct EncryptionManager {
    key: [u8; 32],
    nonce: [u8; 12],
}

impl View for EncryptionManager {
    type V = CipherView;

    closed spec fn view(&self) -> CipherView {
        CipherView { key: self.key@, nonce: self.nonce@ }
    }
}

impl EncryptionManager {
    /// A manager with a key and a nonce drawn from the operating system's
    /// random generator.
    pub fn new() -> (manager: Self)
        ensures
            manager@.wf(),
    {
        Self::from_key_and_nonce(fresh_key(), fresh_nonce())
    }

    /// A manager with the given key and nonce.
    pub fn from_key_and_nonce(key: [u8; 32], nonce: [u8; 12]) -> (manager: Self)
        ensures
            manager@ == (CipherView { key: key@, nonce: nonce@ }),
            manager@.wf(),
    {
        EncryptionManager { key, nonce }
    }

    /// Encrypts `plaintext`; the ciphertext ends with the authentication tag.
    ///
    /// Only a plaintext longer than `MAX_PLAINTEXT_LEN` is refused. What
    /// comes back decrypts, under this same manager, to `plaintext`.
    pub fn encrypt(&self, plaintext: &[u8]) -> (res: Result<Vec<u8>, CryptoError>)
        ensures
            bytes_result_view(res) == self@.encrypt(plaintext@),
            res matches Ok(ciphertext) ==> {
                &&& ciphertext@.len() == plaintext@.len() + TAG_LEN
                &&& self@.decrypt(ciphertext@) == Ok::<Seq<u8>, CryptoError>(plaintext@)
            },
    {
        match aead_encrypt(&self.key, &self.nonce, plaintext) {
            Ok(ciphertext) => Ok(ciphertext),
            Err(_) => Err(CryptoError),
        }
    }

    /// Decrypts `ciphertext` and checks its tag.
    ///
    /// Fails on a ciphertext that the cipher does not accept under this
    /// manager's key and nonce, among them every one shorter than the tag.
    pub fn decrypt(&self, ciphertext: &Vec<u8>) -> (res: Result<Vec<u8>, CryptoError>)
        ensures
            bytes_result_view(res) == self@.decrypt(ciphertext@),
            res matches Ok(plaintext) ==> plaintext@.len() + TAG_LEN == ciphertext@.len(),
            ciphertext@.len() < TAG_LEN ==> res is Err,
    {
        match aead_decrypt(&self.key, &self.nonce, ciphertext.as_slice()) {
            Ok(plaintext) => Ok(plaintext),
            Err(_) => Err(CryptoError),
        }
    }
}

} // verus!
