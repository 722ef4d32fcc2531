//! AES-256-GCM sealing (the default `Sealer`), with nonces drawn from the OS RNG.
use aes_gcm::aead::{Aead, AeadCore, KeyInit, OsRng, Payload};
use aes_gcm::{Aes256Gcm, Nonce};
use vstd::prelude::*;

use super::b64::{b64_decode, b64_encode, base64_decode_spec, base64_encode_spec};
use super::{SealError, Sealer};

verus! {

#[verifier::external_type_specification]
#[verifier::external_body]
pub struct ExAeadError(aes_gcm::Error);

/// The largest plaintext (and AAD) length AES-GCM accepts: 2^36 bytes.
pub open spec fn aead_max_len() -> int {
    0x10_0000_0000
}

/// What AES-256-GCM encryption returns (ciphertext with the 16-byte tag appended).
pub uninterp spec fn aead_seal_spec(key: Seq<u8>, nonce: Seq<u8>, plaintext: Seq<u8>, aad: Seq<u8>) -> Seq<u8>;

/// What AES-256-GCM decryption returns (`None` when the tag does not verify).
pub uninterp spec fn aead_open_spec(key: Seq<u8>, nonce: Seq<u8>, ciphertext: Seq<u8>, aad: Seq<u8>) -> Option<Seq<u8>>;

/// Calls `Aes256Gcm::new` and `Aead::encrypt`. Claims: it fails exactly when the
/// plaintext or the AAD is longer than 2^36 bytes (the length checks in the crate's
/// source); the ciphertext is the named encryption; and decrypting it with the same
/// key, nonce and AAD gives the plaintext back (AEAD correctness).
#[verifier::external_body]
fn aes256gcm_encrypt(key: &[u8; 32], nonce: &[u8], plaintext: &[u8], aad: &[u8]) -> (r: Result<Vec<u8>, aes_gcm::Error>)
    requires
        nonce@.len() == 12,
    ensures
        r is Ok <==> (plaintext@.len() <= aead_max_len() && aad@.len() <= aead_max_len()),
        r matches Ok(c) ==> c@ == aead_seal_spec(key@, nonce@, plaintext@, aad@)
            && aead_open_spec(key@, nonce@, c@, aad@) == Some(plaintext@),
{
    Aes256Gcm::new(key.into()).encrypt(Nonce::from_slice(nonce), Payload { msg: plaintext, aad })
}

/// Calls `Aes256Gcm::new` and `Aead::decrypt`. Claims that the result is the named
/// decryption (`Err` exactly when it is `None`).
#[verifier::external_body]
fn aes256gcm_decrypt(key: &[u8; 32], nonce: &[u8], ciphertext: &[u8], aad: &[u8]) -> (r: Result<Vec<u8>, aes_gcm::Error>)
    requires
        nonce@.len() == 12,
    ensures
        match r {
            Ok(p) => aead_open_spec(key@, nonce@, ciphertext@, aad@) == Some(p@),
            Err(_) => aead_open_spec(key@, nonce@, ciphertext@, aad@) is None,
        },
{
    Aes256Gcm::new(key.into()).decrypt(Nonce::from_slice(nonce), Payload { msg: ciphertext, aad })
}

/// Calls `Aes256Gcm::generate_nonce` with `OsRng`. The nonce is random: only its
/// length (12 bytes) is claimed.
#[verifier::external_body]
fn random_nonce() -> (r: Vec<u8>)
    ensures
        r@.len() == 12,
{
    Aes256Gcm::generate_nonce(&mut OsRng).to_vec()
}

/// What `decrypt` returns, given the texts it receives.
pub open spec fn decrypt_spec(key: Seq<u8>, nonce_b64: Seq<char>, ct_b64: Seq<char>, aad: Seq<u8>) -> Result<Seq<u8>, SealError> {
    match base64_decode_spec(nonce_b64) {
        None => Err(SealError::Base64),
        Some(nonce) => if nonce.len() != 12 {
            Err(SealError::NonceLength)
        } else {
            match base64_decode_spec(ct_b64) {
                None => Err(SealError::Base64),
                Some(ct) => match aead_open_spec(key, nonce, ct, aad) {
                    None => Err(SealError::DecryptFailed),
                    Some(p) => Ok(p),
                },
            }
        },
    }
}

/// AES-256-GCM sealer (stateless).
pub struct AesGcmSealer;

impl AesGcmSealer {
    /// Seals under a given 12-byte nonce: returns the base64 nonce and the base64
    /// ciphertext. Fails (`EncryptFailed`) exactly when the plaintext or the AAD
    /// exceeds the AES-GCM limit; what it returns always decrypts back to the plaintext.
    pub fn seal_with_nonce(&self, key: &[u8; 32], nonce: &[u8], plaintext: &[u8], aad: &[u8]) -> (r: Result<(String, String), SealError>)
        requires
            nonce@.len() == 12,
        ensures
            r is Err <==> !(plaintext@.len() <= aead_max_len() && aad@.len() <= aead_max_len()),
            r matches Err(e) ==> e == SealError::EncryptFailed,
            r matches Ok((n, c)) ==> n@ == base64_encode_spec(nonce@)
                && c@ == base64_encode_spec(aead_seal_spec(key@, nonce@, plaintext@, aad@))
                && decrypt_spec(key@, n@, c@, aad@) == Ok::<Seq<u8>, SealError>(plaintext@),
    {
        match aes256gcm_encrypt(key, nonce, plaintext, aad) {
            Ok(ct) => {
                let n = b64_encode(nonce);
                let c = b64_encode(ct.as_slice());
                Ok((n, c))
            },
            Err(_) => Err(SealError::EncryptFailed),
        }
    }
}

impl Sealer for AesGcmSealer {
    /// Encrypts under a fresh random nonce. What it returns always decrypts back
    /// (`decrypt` with the same key and AAD gives `plaintext`).
    fn encrypt(&self, key: &[u8; 32], plaintext: &[u8], aad: &[u8]) -> (r: Result<(String, String), SealError>)
        ensures
            r is Err <==> !(plaintext@.len() <= aead_max_len() && aad@.len() <= aead_max_len()),
            r matches Err(e) ==> e == SealError::EncryptFailed,
            r matches Ok((n, c)) ==> exists|nonce: Seq<u8>|
                nonce.len() == 12 && #[trigger] base64_encode_spec(nonce) == n@
                && c@ == base64_encode_spec(aead_seal_spec(key@, nonce, plaintext@, aad@)),
            r matches Ok((n, c)) ==> decrypt_spec(key@, n@, c@, aad@) == Ok::<Seq<u8>, SealError>(plaintext@),
    {
        let nonce = random_nonce();
        self.seal_with_nonce(key, nonce.as_slice(), plaintext, aad)
    }

    /// Decrypts: decodes the base64 nonce (must be 12 bytes) and ciphertext, then
    /// opens the ciphertext with the key and AAD.
    fn decrypt(&self, key: &[u8; 32], nonce_b64: &str, ct_b64: &str, aad: &[u8]) -> (r: Result<Vec<u8>, SealError>)
        ensures
            match r {
                Ok(p) => decrypt_spec(key@, nonce_b64@, ct_b64@, aad@) == Ok::<Seq<u8>, SealError>(p@),
                Err(e) => decrypt_spec(key@, nonce_b64@, ct_b64@, aad@) == Err::<Seq<u8>, SealError>(e),
            },
    {
        let nonce = match b64_decode(nonce_b64) {
            Ok(n) => n,
            Err(_) => return Err(SealError::Base64),
        };
        if nonce.len() != 12 {
            return Err(SealError::NonceLength);
        }
        let ct = match b64_decode(ct_b64) {
            Ok(c) => c,
            Err(_) => return Err(SealError::Base64),
        };
        match aes256gcm_decrypt(key, nonce.as_slice(), ct.as_slice(), aad) {
            Ok(p) => Ok(p),
            Err(_) => Err(SealError::DecryptFailed),
        }
    }
}

} // verus!
