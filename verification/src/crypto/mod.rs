//! Crypto traits, AAD framing and the error types of the encryption layer.
//!
//! AAD layout: `magic || kind || origin_device_id (UTF-8) || seq (8 bytes big-endian)`.
use vstd::prelude::*;
use vstd::utf8::encode_utf8;

pub mod aes_gcm;
pub mod b64;
pub mod x25519;

pub use aes_gcm::AesGcmSealer;
pub use x25519::X25519KeyExchange;

verus! {

/// The AAD magic prefix, the bytes of `"sync-copy-v2"`.
pub open spec fn aad_magic() -> Seq<u8> {
    seq![115u8, 121, 110, 99, 45, 99, 111, 112, 121, 45, 118, 50]
}

/// Returns the AAD magic prefix, `b"sync-copy-v2"`.
pub fn aad_magic_bytes() -> (r: Vec<u8>)
    ensures
        r@ == aad_magic(),
{
    let r: Vec<u8> = vec![115u8, 121, 110, 99, 45, 99, 111, 112, 121, 45, 118, 50];
    assert(r@ =~= aad_magic());
    r
}

/// Key agreement (ephemeral X25519 + HKDF-SHA256 in the default implementation).
pub trait KeyExchange {
    /// The ephemeral secret, consumed by `derive_aes_key`.
    type Secret;
    /// The public key representation.
    type PublicKey;

    /// Generates a fresh ephemeral key pair.
    fn new_ephemeral() -> (Self::Secret, Self::PublicKey);

    /// Encodes a public key as standard base64.
    fn pubkey_to_b64(pk: &Self::PublicKey) -> String;

    /// Decodes a public key from standard base64.
    fn pubkey_from_b64(s: &str) -> Result<Self::PublicKey, KeyExchangeError>;

    /// Consumes the secret: ECDH with the peer key, then HKDF-SHA256 to a 32-byte AES key.
    fn derive_aes_key(secret: Self::Secret, their: &Self::PublicKey) -> Result<[u8; 32], KeyExchangeError>;
}

/// Symmetric authenticated encryption (AES-256-GCM in the default implementation).
pub trait Sealer {
    /// Encrypts `plaintext` under `key` with a fresh random nonce; returns
    /// `(nonce_b64, ciphertext_b64)`.
    fn encrypt(&self, key: &[u8; 32], plaintext: &[u8], aad: &[u8]) -> Result<(String, String), SealError>;

    /// Decrypts; the `aad` must equal the one used for encryption.
    fn decrypt(&self, key: &[u8; 32], nonce_b64: &str, ct_b64: &str, aad: &[u8]) -> Result<Vec<u8>, SealError>;
}

/// Key agreement errors.
#[derive(Debug, Clone, Copy, PartialEq, Eq, Structural)]
pub enum KeyExchangeError {
    /// The public key is not valid base64.
    Base64,
    /// The public key is not 32 bytes long.
    Length,
    /// HKDF expansion failed.
    Hkdf,
}

/// The description of a key agreement error.
pub open spec fn key_exchange_message(e: KeyExchangeError) -> Seq<char> {
    match e {
        KeyExchangeError::Base64 => "pubkey base64 decode failed"@,
        KeyExchangeError::Length => "pubkey must be 32 bytes"@,
        KeyExchangeError::Hkdf => "hkdf expand failed"@,
    }
}

impl KeyExchangeError {
    /// The human-readable description of the error.
    pub fn message(&self) -> (r: &'static str)
        ensures
            r@ == key_exchange_message(*self),
    {
        match self {
            KeyExchangeError::Base64 => "pubkey base64 decode failed",
            KeyExchangeError::Length => "pubkey must be 32 bytes",
            KeyExchangeError::Hkdf => "hkdf expand failed",
        }
    }
}

/// Encryption / decryption errors.
#[derive(Debug, Clone, Copy, PartialEq, Eq, Structural)]
pub enum SealError {
    /// The nonce or the ciphertext is not valid base64.
    Base64,
    /// The nonce is not 12 bytes long.
    NonceLength,
    /// AEAD encryption failed.
    EncryptFailed,
    /// AEAD decryption failed (wrong key, wrong AAD or tampered ciphertext).
    DecryptFailed,
}

/// The description of an encryption or decryption error.
pub open spec fn seal_message(e: SealError) -> Seq<char> {
    match e {
        SealError::Base64 => "nonce/ciphertext base64 decode failed"@,
        SealError::NonceLength => "nonce must be 12 bytes"@,
        SealError::EncryptFailed => "aead encrypt failed"@,
        SealError::DecryptFailed => "aead decrypt failed (key mismatch / aad mismatch / tampered)"@,
    }
}

impl SealError {
    /// The human-readable description of the error.
    pub fn message(&self) -> (r: &'static str)
        ensures
            r@ == seal_message(*self),
    {
        match self {
            SealError::Base64 => "nonce/ciphertext base64 decode failed",
            SealError::NonceLength => "nonce must be 12 bytes",
            SealError::EncryptFailed => "aead encrypt failed",
            SealError::DecryptFailed => "aead decrypt failed (key mismatch / aad mismatch / tampered)",
        }
    }
}

/// The kind of a framed message; each kind has a distinct ASCII label in the AAD.
#[derive(Clone, Copy, Debug, PartialEq, Eq, Structural)]
pub enum AadKind {
    Text,
    ImagePng,
    File,
    Trust,
    Ban,
    Leave,
    DeleteHistory,
    ClearHistory,
    Approval,
}

/// The ASCII label of each kind (`text`, `image_png`, `file`, `trust`, `ban`,
/// `leave`, `delete_history`, `clear_history`, `approval`).
pub open spec fn kind_bytes(kind: AadKind) -> Seq<u8> {
    match kind {
        AadKind::Text => seq![116u8, 101, 120, 116],
        AadKind::ImagePng => seq![105u8, 109, 97, 103, 101, 95, 112, 110, 103],
        AadKind::File => seq![102u8, 105, 108, 101],
        AadKind::Trust => seq![116u8, 114, 117, 115, 116],
        AadKind::Ban => seq![98u8, 97, 110],
        AadKind::Leave => seq![108u8, 101, 97, 118, 101],
        AadKind::DeleteHistory => seq![100u8, 101, 108, 101, 116, 101, 95, 104, 105, 115, 116, 111, 114, 121],
        AadKind::ClearHistory => seq![99u8, 108, 101, 97, 114, 95, 104, 105, 115, 116, 111, 114, 121],
        AadKind::Approval => seq![97u8, 112, 112, 114, 111, 118, 97, 108],
    }
}

/// The position of a kind in declaration order.
pub open spec fn kind_index(kind: AadKind) -> int {
    match kind {
        AadKind::Text => 0,
        AadKind::ImagePng => 1,
        AadKind::File => 2,
        AadKind::Trust => 3,
        AadKind::Ban => 4,
        AadKind::Leave => 5,
        AadKind::DeleteHistory => 6,
        AadKind::ClearHistory => 7,
        AadKind::Approval => 8,
    }
}

impl AadKind {
    /// The ASCII label of the kind, as bytes.
    pub fn as_bytes(self) -> (r: Vec<u8>)
        ensures
            r@ == kind_bytes(self),
    {
        let r: Vec<u8> = match self {
            AadKind::Text => vec![116u8, 101, 120, 116],
            AadKind::ImagePng => vec![105u8, 109, 97, 103, 101, 95, 112, 110, 103],
            AadKind::File => vec![102u8, 105, 108, 101],
            AadKind::Trust => vec![116u8, 114, 117, 115, 116],
            AadKind::Ban => vec![98u8, 97, 110],
            AadKind::Leave => vec![108u8, 101, 97, 118, 101],
            AadKind::DeleteHistory => vec![100u8, 101, 108, 101, 116, 101, 95, 104, 105, 115, 116, 111, 114, 121],
            AadKind::ClearHistory => vec![99u8, 108, 101, 97, 114, 95, 104, 105, 115, 116, 111, 114, 121],
            AadKind::Approval => vec![97u8, 112, 112, 114, 111, 118, 97, 108],
        };
        assert(r@ =~= kind_bytes(self));
        r
    }

    /// The position of the kind in declaration order (0..9).
    pub fn index(self) -> (r: usize)
        ensures
            r == kind_index(self),
            r < 9,
    {
        match self {
            AadKind::Text => 0,
            AadKind::ImagePng => 1,
            AadKind::File => 2,
            AadKind::Trust => 3,
            AadKind::Ban => 4,
            AadKind::Leave => 5,
            AadKind::DeleteHistory => 6,
            AadKind::ClearHistory => 7,
            AadKind::Approval => 8,
        }
    }
}

/// The big-endian bytes of a `u64`.
pub open spec fn be_bytes(x: u64) -> Seq<u8> {
    seq![
        (x >> 56u64) as u8,
        (x >> 48u64) as u8,
        (x >> 40u64) as u8,
        (x >> 32u64) as u8,
        (x >> 24u64) as u8,
        (x >> 16u64) as u8,
        (x >> 8u64) as u8,
        x as u8,
    ]
}

/// The AAD of a message: magic, kind label, UTF-8 origin id, big-endian seq.
pub open spec fn aad_spec(kind: AadKind, origin: Seq<char>, seq: u64) -> Seq<u8> {
    aad_magic() + kind_bytes(kind) + encode_utf8(origin) + be_bytes(seq)
}

fn append_bytes(buf: &mut Vec<u8>, src: &[u8])
    ensures
        final(buf)@ == old(buf)@ + src@,
{
    let n = src.len();
    let mut i: usize = 0;
    while i < n
        invariant
            n == src@.len(),
            i <= n,
            buf@ == old(buf)@ + src@.subrange(0, i as int),
        decreases n - i,
    {
        buf.push(src[i]);
        i = i + 1;
        assert(buf@ =~= old(buf)@ + src@.subrange(0, i as int));
    }
    assert(src@.subrange(0, n as int) =~= src@);
}

/// Builds the AAD `magic || kind || origin_device_id || seq_be8`.
pub fn build_aad(kind: AadKind, origin_device_id: &str, seq: u64) -> (r: Vec<u8>)
    ensures
        r@ == aad_spec(kind, origin_device_id@, seq),
{
    let mut buf: Vec<u8> = aad_magic_bytes();
    let kind_b = kind.as_bytes();
    append_bytes(&mut buf, kind_b.as_slice());
    append_bytes(&mut buf, origin_device_id.as_bytes());
    buf.push((seq >> 56u64) as u8);
    buf.push((seq >> 48u64) as u8);
    buf.push((seq >> 40u64) as u8);
    buf.push((seq >> 32u64) as u8);
    buf.push((seq >> 24u64) as u8);
    buf.push((seq >> 16u64) as u8);
    buf.push((seq >> 8u64) as u8);
    buf.push(seq as u8);
    assert(buf@ =~= aad_spec(kind, origin_device_id@, seq));
    buf
}

/// The first two bytes of a kind label tell the kinds apart.
proof fn lemma_kind_bytes_prefix_free(a: AadKind, b: AadKind)
    requires
        a != b,
    ensures
        kind_bytes(a).len() >= 3,
        kind_bytes(b).len() >= 3,
        kind_bytes(a)[0] != kind_bytes(b)[0] || kind_bytes(a)[1] != kind_bytes(b)[1],
{
    match a {
        AadKind::Text => {},
        AadKind::ImagePng => {},
        AadKind::File => {},
        AadKind::Trust => {},
        AadKind::Ban => {},
        AadKind::Leave => {},
        AadKind::DeleteHistory => {},
        AadKind::ClearHistory => {},
        AadKind::Approval => {},
    }
}

/// Eight big-endian bytes determine the number.
proof fn lemma_be_bytes_injective(x: u64, y: u64)
    requires
        be_bytes(x) == be_bytes(y),
    ensures
        x == y,
{
    let bx = be_bytes(x);
    let by = be_bytes(y);
    assert(bx[0] == by[0] && bx[1] == by[1] && bx[2] == by[2] && bx[3] == by[3]);
    assert(bx[4] == by[4] && bx[5] == by[5] && bx[6] == by[6] && bx[7] == by[7]);
    assert(x == y) by (bit_vector)
        requires
            (x >> 56u64) as u8 == (y >> 56u64) as u8,
            (x >> 48u64) as u8 == (y >> 48u64) as u8,
            (x >> 40u64) as u8 == (y >> 40u64) as u8,
            (x >> 32u64) as u8 == (y >> 32u64) as u8,
            (x >> 24u64) as u8 == (y >> 24u64) as u8,
            (x >> 16u64) as u8 == (y >> 16u64) as u8,
            (x >> 8u64) as u8 == (y >> 8u64) as u8,
            x as u8 == y as u8,
    ;
}

/// The AAD binds its three parts: two AADs are equal only when the kind, the
/// origin id and the sequence number are all equal. A message sealed for one
/// (kind, origin, seq) therefore never carries the AAD of another.
pub proof fn lemma_aad_injective(k1: AadKind, o1: Seq<char>, s1: u64, k2: AadKind, o2: Seq<char>, s2: u64)
    requires
        aad_spec(k1, o1, s1) == aad_spec(k2, o2, s2),
    ensures
        k1 == k2,
        o1 == o2,
        s1 == s2,
{
    broadcast use vstd::utf8::encode_utf8_decode_utf8;
    let x = aad_spec(k1, o1, s1);
    let y = aad_spec(k2, o2, s2);
    let m = aad_magic();
    if k1 != k2 {
        lemma_kind_bytes_prefix_free(k1, k2);
        assert(x[12] == kind_bytes(k1)[0] && y[12] == kind_bytes(k2)[0]);
        assert(x[13] == kind_bytes(k1)[1] && y[13] == kind_bytes(k2)[1]);
        assert(false);
    }
    let p = m + kind_bytes(k1);
    let e1 = encode_utf8(o1);
    let e2 = encode_utf8(o2);
    let b1 = be_bytes(s1);
    let b2 = be_bytes(s2);
    assert(x == p + e1 + b1);
    assert(y == p + e2 + b2);
    assert(b1.len() == 8 && b2.len() == 8);
    assert(x.len() == p.len() + e1.len() + 8);
    assert(y.len() == p.len() + e2.len() + 8);
    assert(e1.len() == e2.len());
    assert(e1 =~= x.subrange(p.len() as int, (p.len() + e1.len()) as int));
    assert(e2 =~= y.subrange(p.len() as int, (p.len() + e2.len()) as int));
    assert(b1 =~= x.subrange((p.len() + e1.len()) as int, x.len() as int));
    assert(b2 =~= y.subrange((p.len() + e2.len()) as int, y.len() as int));
    assert(vstd::utf8::decode_utf8(e1) == o1);
    assert(vstd::utf8::decode_utf8(e2) == o2);
    lemma_be_bytes_injective(s1, s2);
}

} // verus!
