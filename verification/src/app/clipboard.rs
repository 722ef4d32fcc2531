//! Decisions of the clipboard watcher: which polled texts are broadcast, how
//! a text written from a peer is kept from echoing back, and the content
//! hashes used for both and for the history.
//!
//! The watcher thread itself (the OS clipboard, its polling loop and the
//! channels) belongs to the program's runtime.
use vstd::prelude::*;
use crate::text::{hex_char, hex_digit};
use vstd::string::*;

verus! {

/// Largest text (in UTF-8 bytes) that is broadcast.
pub const MAX_TEXT_BYTES: usize = 1_000_000;

/// A command for the clipboard thread.
pub enum ClipboardCmd {
    /// Leave the polling loop.
    Shutdown,
    /// Write this text to the OS clipboard without broadcasting it back.
    SetTextSuppress(String),
}

/// A change seen by the clipboard thread.
#[derive(Debug)]
pub enum ClipboardEvent {
    /// The clipboard now holds this text (at most 1 MB).
    TextChanged(String),
}

/// What SHA-256 returns for a byte string.
pub uninterp spec fn sha256_digest(data: Seq<u8>) -> Seq<u8>;

/// Calls `sha2::Sha256::digest` and copies the 32-byte digest out. Claims
/// that the result is `sha256_digest(data)`.
#[verifier::external_body]
fn sha256_bytes(data: &[u8]) -> (r: [u8; 32])
    ensures
        r@ == sha256_digest(data@),
{
    let d = <sha2::Sha256 as sha2::Digest>::digest(data);
    let mut out = [0u8; 32];
    out.copy_from_slice(&d);
    out
}

/// The SHA-256 of a text's UTF-8 bytes.
pub open spec fn text_hash(text: Seq<char>) -> Seq<u8> {
    sha256_digest(vstd::utf8::encode_utf8(text))
}

/// The SHA-256 of a text's UTF-8 bytes.
pub fn sha256_text(text: &str) -> (r: [u8; 32])
    ensures
        r@ == text_hash(text@),
{
    sha256_bytes(text.as_bytes())
}
/// Lower-case hex of a byte string, two digits per byte.
pub open spec fn hex_lower(b: Seq<u8>) -> Seq<char>
    decreases b.len(),
{
    if b.len() == 0 {
        Seq::empty()
    } else {
        hex_lower(b.drop_last()) + seq![hex_digit(b.last() as int / 16), hex_digit(b.last() as int % 16)]
    }
}

/// Hex output is twice as long as its input.
proof fn lemma_hex_len(b: Seq<u8>)
    ensures
        hex_lower(b).len() == 2 * b.len(),
    decreases b.len(),
{
    if b.len() > 0 {
        lemma_hex_len(b.drop_last());
    }
}
/// The SHA-256 of a text as 64 lower-case hex digits (the content hash of
/// history entries).
pub fn sha256_hex(text: &str) -> (r: String)
    ensures
        r@ == hex_lower(text_hash(text@)),
        r@.len() == 64,
{
    let h = sha256_text(text);
    let mut out: Vec<char> = Vec::new();
    let mut i: usize = 0;
    while i < 32
        invariant
            i <= 32,
            h@.len() == 32,
            out@ == hex_lower(h@.take(i as int)),
        decreases 32 - i,
    {
        let b = h[i];
        out.push(hex_char(b / 16));
        out.push(hex_char(b % 16));
        proof {
            assert(h@.take(i + 1).drop_last() =~= h@.take(i as int));
            assert(h@.take(i + 1).last() == b);
        }
        i = i + 1;
    }
    proof {
        assert(h@.take(32) =~= h@);
        lemma_hex_len(h@);
    }
    crate::text::string_from_chars(out.as_slice())
}

/// Whether the clipboard holds an image to send (images are not handled yet:
/// always `false`).
pub fn try_handle_image() -> (r: bool)
    ensures
        !r,
{
    false
}

/// Is `last` the hash of `text`?
pub open spec fn hash_seen(last: Option<[u8; 32]>, text: Seq<char>) -> bool {
    match last {
        Some(h) => h@ == text_hash(text),
        None => false,
    }
}

/// The watcher's decision on a polled text: `true` (broadcast it) when it is
/// non-empty, at most 1 MB, and its hash differs from the last one seen, in
/// which case that hash becomes the last one seen; otherwise nothing changes.
pub fn poll_decision(text: &str, last_hash: &mut Option<[u8; 32]>) -> (r: bool)
    ensures
        r == (text@.len() > 0 && text.len() <= MAX_TEXT_BYTES && !hash_seen(*old(last_hash), text@)),
        r ==> (*final(last_hash) matches Some(h) && h@ == text_hash(text@)),
        !r ==> *final(last_hash) == *old(last_hash),
{
    if text.is_empty() {
        return false;
    }
    if text.len() > MAX_TEXT_BYTES {
        return false;
    }
    let hash = sha256_text(text);
    let cur: Option<[u8; 32]> = *last_hash;
    let same = match cur {
        Some(h) => bytes32_eq(&h, &hash),
        None => false,
    };
    if same {
        return false;
    }
    *last_hash = Some(hash);
    true
}

/// A text from a peer was written to the OS clipboard: its hash becomes the
/// last one seen, so the next poll does not broadcast it back.
pub fn note_applied_text(text: &str, last_hash: &mut Option<[u8; 32]>)
    ensures
        *final(last_hash) matches Some(h) && h@ == text_hash(text@),
{
    *last_hash = Some(sha256_text(text));
}

/// Are two 32-byte arrays equal?
fn bytes32_eq(a: &[u8; 32], b: &[u8; 32]) -> (r: bool)
    ensures
        r == (a@ == b@),
{
    let mut i: usize = 0;
    while i < 32
        invariant
            i <= 32,
            a@.len() == 32,
            b@.len() == 32,
            forall|j: int| 0 <= j < i ==> a@[j] == b@[j],
        decreases 32 - i,
    {
        if a[i] != b[i] {
            return false;
        }
        i = i + 1;
    }
    assert(a@ =~= b@);
    true
}


/// A text written from a peer is not sent back: after `note_applied_text`
/// records its hash, polling the same text finds the hash already seen, so
/// `poll_decision` answers `false`.
pub proof fn lemma_applied_text_not_echoed(last_hash: Option<[u8; 32]>, text: Seq<char>)
    requires
        last_hash matches Some(h) && h@ == text_hash(text),
    ensures
        hash_seen(last_hash, text),
{
}

} // verus!
