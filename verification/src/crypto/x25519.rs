//! X25519 key agreement followed by HKDF-SHA256 (the default `KeyExchange`).
//! Public keys are carried as their 32 raw bytes.
use hkdf::Hkdf;
use sha2::Sha256;
use vstd::prelude::*;
use zeroize::Zeroize;

use super::b64::{b64_decode, b64_encode, base64_decode_spec, base64_encode_spec};
use super::{KeyExchange, KeyExchangeError};

verus! {

#[verifier::external_type_specification]
#[verifier::external_body]
pub struct ExInvalidLength(hkdf::InvalidLength);

/// The HKDF salt, the bytes of `"sync-copy-v2-salt"`.
pub open spec fn hkdf_salt() -> Seq<u8> {
    seq![115u8, 121, 110, 99, 45, 99, 111, 112, 121, 45, 118, 50, 45, 115, 97, 108, 116]
}

/// The HKDF info, the bytes of `"sync-copy-v2:aes-256-gcm"`.
pub open spec fn hkdf_info() -> Seq<u8> {
    seq![115u8, 121, 110, 99, 45, 99, 111, 112, 121, 45, 118, 50, 58, 97, 101, 115, 45, 50, 53, 54, 45, 103, 99, 109]
}

/// Returns the HKDF salt `b"sync-copy-v2-salt"`.
pub fn hkdf_salt_bytes() -> (r: Vec<u8>)
    ensures
        r@ == hkdf_salt(),
{
    let r: Vec<u8> = vec![115u8, 121, 110, 99, 45, 99, 111, 112, 121, 45, 118, 50, 45, 115, 97, 108, 116];
    assert(r@ =~= hkdf_salt());
    r
}

/// Returns the HKDF info `b"sync-copy-v2:aes-256-gcm"`.
pub fn hkdf_info_bytes() -> (r: Vec<u8>)
    ensures
        r@ == hkdf_info(),
{
    let r: Vec<u8> = vec![115u8, 121, 110, 99, 45, 99, 111, 112, 121, 45, 118, 50, 58, 97, 101, 115, 45, 50, 53, 54, 45, 103, 99, 109];
    assert(r@ =~= hkdf_info());
    r
}

/// What HKDF-SHA256 (extract with `salt`, expand with `info`) yields as 32 bytes of
/// output key material.
pub uninterp spec fn hkdf_sha256_okm(salt: Seq<u8>, ikm: Seq<u8>, info: Seq<u8>) -> Seq<u8>;

/// Calls `Hkdf::<Sha256>::new(Some(salt), ikm)` and `Hkdf::expand` into a 32-byte
/// buffer. Claims success (the crate fails only when more than 255 * 32 bytes are
/// asked for) and that the key is the named HKDF output.
#[verifier::external_body]
fn hkdf_sha256_32(salt: &[u8], ikm: &[u8], info: &[u8]) -> (r: Result<[u8; 32], hkdf::InvalidLength>)
    ensures
        r is Ok,
        r matches Ok(k) ==> k@ == hkdf_sha256_okm(salt@, ikm@, info@),
{
    let mut okm = [0u8; 32];
    Hkdf::<Sha256>::new(Some(salt), ikm).expand(info, &mut okm).map(|_| okm)
}

/// Fills 32 bytes from `rand::thread_rng()` (what `EphemeralSecret::random_from_rng`
/// does). The bytes are random: nothing is claimed of them.
#[verifier::external_body]
fn random_secret_bytes() -> [u8; 32] {
    let mut bytes = [0u8; 32];
    rand::RngCore::fill_bytes(&mut rand::thread_rng(), &mut bytes);
    bytes
}

/// The u-coordinate of the X25519 base point: 9, in 32 little-endian bytes.
pub open spec fn x25519_basepoint() -> Seq<u8> {
    seq![9u8] + Seq::new(31, |i: int| 0u8)
}

/// The base point's bytes.
fn basepoint_bytes() -> (r: [u8; 32])
    ensures
        r@ == x25519_basepoint(),
{
    let r: [u8; 32] = [9u8, 0, 0, 0, 0, 0, 0, 0, 0, 0, 0, 0, 0, 0, 0, 0, 0, 0, 0, 0, 0, 0, 0, 0, 0, 0, 0, 0, 0, 0, 0, 0];
    assert(r@ =~= x25519_basepoint());
    r
}

/// What `x25519_dalek::x25519(k, u)` returns: the u-coordinate of the curve
/// point with u-coordinate `u` multiplied by the clamped scalar `k`.
pub uninterp spec fn x25519_spec(k: Seq<u8>, u: Seq<u8>) -> Seq<u8>;

/// The public value of secret `s`: `s` applied to the base point.
pub open spec fn public_of(s: Seq<u8>) -> Seq<u8> {
    x25519_spec(s, x25519_basepoint())
}

/// Calls `x25519_dalek::x25519`. Claims that the result is the named function
/// of the two arrays, and the Diffie-Hellman agreement the crate documents for
/// it (`x25519(a, x25519(b, G)) == x25519(b, x25519(a, G))`): applied to the
/// public value of a 32-byte secret `b`, `k` gives what `b` gives applied to
/// the public value of `k`.
#[verifier::external_body]
fn x25519_bytes(k: &[u8; 32], u: &[u8; 32]) -> (r: [u8; 32])
    ensures
        r@ == x25519_spec(k@, u@),
        forall|b: Seq<u8>|
            b.len() == 32 && u@ == #[trigger] public_of(b) ==> r@ == x25519_spec(b, public_of(k@)),
{
    x25519_dalek::x25519(*k, *u)
}

/// Calls `zeroize::Zeroize::zeroize` on a 32-byte array. Claims that every byte is
/// zero afterwards.
#[verifier::external_body]
pub(crate) fn wipe_key(k: &mut [u8; 32])
    ensures
        final(k)@ == Seq::new(32, |i: int| 0u8),
{
    k.zeroize();
}

/// The AES key that secret `s` and public value `their` agree on: HKDF-SHA256
/// (fixed salt and info) of their X25519 shared secret.
pub open spec fn agreed_key(s: Seq<u8>, their: Seq<u8>) -> Seq<u8> {
    hkdf_sha256_okm(hkdf_salt(), x25519_spec(s, their), hkdf_info())
}

/// An ephemeral X25519 secret: 32 random bytes, used for one agreement and
/// wiped afterwards.
pub struct X25519Secret {
    bytes: [u8; 32],
}

impl View for X25519Secret {
    type V = Seq<u8>;

    closed spec fn view(&self) -> Seq<u8> {
        self.bytes@
    }
}

impl X25519Secret {
    /// A secret holding the given bytes (for fixed test vectors).
    pub fn from_bytes(bytes: [u8; 32]) -> (r: Self)
        ensures
            r@ == bytes@,
    {
        X25519Secret { bytes }
    }

    /// A secret is 32 bytes.
    pub proof fn lemma_len(&self)
        ensures
            self@.len() == 32,
    {
    }

    /// The public value of this secret (the secret applied to the base point).
    pub fn public_key(&self) -> (r: [u8; 32])
        ensures
            r@ == public_of(self@),
    {
        let g = basepoint_bytes();
        x25519_bytes(&self.bytes, &g)
    }

    /// Drops a secret that will not be used, wiping its bytes.
    pub fn discard(self) {
        let mut bytes = self.bytes;
        wipe_key(&mut bytes);
    }
}

/// What `pubkey_from_b64` returns for the given text.
pub open spec fn pubkey_from_b64_spec(s: Seq<char>) -> Result<Seq<u8>, KeyExchangeError> {
    match base64_decode_spec(s) {
        None => Err(KeyExchangeError::Base64),
        Some(b) => if b.len() != 32 { Err(KeyExchangeError::Length) } else { Ok(b) },
    }
}

/// X25519 + HKDF-SHA256 key agreement (stateless).
pub struct X25519KeyExchange;

impl X25519KeyExchange {
    /// HKDF-SHA256 over a shared secret with the fixed salt and info: the AES key that
    /// both sides of an exchange derive.
    pub fn derive_key_from_shared(shared: &[u8; 32]) -> (r: Result<[u8; 32], KeyExchangeError>)
        ensures
            r is Ok,
            r matches Ok(k) ==> k@ == hkdf_sha256_okm(hkdf_salt(), shared@, hkdf_info()),
    {
        let salt = hkdf_salt_bytes();
        let info = hkdf_info_bytes();
        match hkdf_sha256_32(salt.as_slice(), shared, info.as_slice()) {
            Ok(k) => Ok(k),
            Err(_) => Err(KeyExchangeError::Hkdf),
        }
    }
}

impl KeyExchange for X25519KeyExchange {
    type Secret = X25519Secret;
    type PublicKey = [u8; 32];

    /// A fresh random secret and its public key (the secret applied to the
    /// base point).
    fn new_ephemeral() -> (r: (X25519Secret, [u8; 32]))
        ensures
            r.0@.len() == 32,
            r.1@ == public_of(r.0@),
    {
        let secret = X25519Secret { bytes: random_secret_bytes() };
        let public = secret.public_key();
        (secret, public)
    }

    /// Standard base64 of the 32 key bytes; decoding it gives the key back.
    fn pubkey_to_b64(pk: &[u8; 32]) -> (r: String)
        ensures
            r@ == base64_encode_spec(pk@),
            pubkey_from_b64_spec(r@) == Ok::<Seq<u8>, KeyExchangeError>(pk@),
    {
        b64_encode(pk)
    }

    /// Decodes standard base64; the result must be exactly 32 bytes.
    fn pubkey_from_b64(s: &str) -> (r: Result<[u8; 32], KeyExchangeError>)
        ensures
            match r {
                Ok(k) => pubkey_from_b64_spec(s@) == Ok::<Seq<u8>, KeyExchangeError>(k@),
                Err(e) => pubkey_from_b64_spec(s@) == Err::<Seq<u8>, KeyExchangeError>(e),
            },
    {
        let bytes = match b64_decode(s) {
            Ok(b) => b,
            Err(_) => return Err(KeyExchangeError::Base64),
        };
        if bytes.len() != 32 {
            return Err(KeyExchangeError::Length);
        }
        let mut arr = [0u8; 32];
        let mut i: usize = 0;
        while i < 32
            invariant
                bytes@.len() == 32,
                i <= 32,
                forall|j: int| 0 <= j < i ==> arr@[j] == bytes@[j],
            decreases 32 - i,
        {
            arr[i] = bytes[i];
            i = i + 1;
        }
        assert(arr@ =~= bytes@);
        Ok(arr)
    }

    /// ECDH with the peer key, then HKDF-SHA256 to 32 bytes; the secret and the
    /// shared secret are wiped before returning. Never fails. When the peer key
    /// is the public value of a secret `b`, the key is the one `b` agrees on with
    /// this secret's public value: both ends derive the same key.
    fn derive_aes_key(secret: X25519Secret, their: &[u8; 32]) -> (r: Result<[u8; 32], KeyExchangeError>)
        ensures
            r is Ok,
            r matches Ok(k) ==> k@ == agreed_key(secret@, their@),
            r matches Ok(k) ==> forall|b: Seq<u8>|
                b.len() == 32 && their@ == #[trigger] public_of(b) ==> k@ == agreed_key(b, public_of(secret@)),
    {
        let mut bytes = secret.bytes;
        let mut shared = x25519_bytes(&bytes, their);
        wipe_key(&mut bytes);
        let r = Self::derive_key_from_shared(&shared);
        wipe_key(&mut shared);
        r
    }
}

/// Both ends of a handshake hold the same key. The dialler, with secret `a`,
/// sends the public value of `a` (`req_pub`); the answerer stores a key that
/// `answered_key` describes and replies `resp_pub`; the dialler stores a key
/// that `dialled_key` describes. The two keys are equal.
pub proof fn lemma_both_ends_agree(
    a: Seq<u8>,
    req_pub: Seq<char>,
    resp_pub: Seq<char>,
    answerer_key: Seq<u8>,
    dialler_key: Seq<u8>,
)
    requires
        a.len() == 32,
        pubkey_from_b64_spec(req_pub) == Ok::<Seq<u8>, KeyExchangeError>(public_of(a)),
        answered_key(answerer_key, req_pub, resp_pub),
        dialled_key(dialler_key, a, resp_pub),
    ensures
        dialler_key == answerer_key,
{
    let b = choose|b: Seq<u8>|
        b.len() == 32 && pubkey_from_b64_spec(resp_pub) == Ok::<Seq<u8>, KeyExchangeError>(public_of(b))
            && answerer_key == agreed_key(b, pubkey_from_b64_spec(req_pub)->Ok_0);
    assert(pubkey_from_b64_spec(resp_pub)->Ok_0 == public_of(b));
}

/// What an answered handshake stores: for some fresh 32-byte secret `b`, the
/// reply's public key (`resp_pub`) is the public value of `b`, and the key is
/// the one `b` agrees on with the requester's public key (`req_pub`).
pub open spec fn answered_key(key: Seq<u8>, req_pub: Seq<char>, resp_pub: Seq<char>) -> bool {
    exists|b: Seq<u8>|
        b.len() == 32 && pubkey_from_b64_spec(resp_pub) == Ok::<Seq<u8>, KeyExchangeError>(#[trigger] public_of(b))
            && key == agreed_key(b, pubkey_from_b64_spec(req_pub)->Ok_0)
}

/// What a completed dial with secret `a` stores: the key `a` agrees on with
/// the reply's public key, which, when that key is the public value of a
/// secret `b`, is the key `b` agrees on with the public value of `a`.
pub open spec fn dialled_key(key: Seq<u8>, a: Seq<u8>, resp_pub: Seq<char>) -> bool {
    let their = pubkey_from_b64_spec(resp_pub)->Ok_0;
    &&& key == agreed_key(a, their)
    &&& forall|b: Seq<u8>| b.len() == 32 && their == #[trigger] public_of(b) ==> key == agreed_key(b, public_of(a))
}

} // verus!
