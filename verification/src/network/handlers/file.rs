//! POST /file: an encrypted file from a peer. The checks are in place; the
//! decryption and saving are not implemented yet, and an accepted request is
//! answered 503.
use vstd::prelude::*;
use crate::crypto::AadKind;
use crate::crypto::b64::{b64_decode, base64_decode_spec};
use crate::network::error::NetworkError;
use crate::network::protocol::FileReq;
use crate::peer::sanitize::sanitize_filename;
use crate::peer::{record_seq, same_registry, seq_is_new, PeerRegistry};

verus! {

/// Largest file accepted, in bytes (5 MiB).
pub const MAX_FILE_SIZE: u64 = 5 * 1024 * 1024;

/// Largest decoded ciphertext accepted, in bytes (7 MiB: a 5 MiB file in
/// base64 plus the tag, aligned with the body limit).
pub const MAX_CIPHERTEXT_BYTES: usize = 7 * 1024 * 1024;

/// Answers a file request: 403 for an unknown origin and 200 for a replay
/// (nothing recorded); otherwise the number is recorded, and the answer is
/// 413 for a declared size over 5 MiB, 400 for ciphertext that is not
/// base64, 413 for decoded ciphertext over 7 MiB (checked before any
/// decryption), else 503.
pub fn handle_file(registry: &mut PeerRegistry, req: &FileReq) -> (r: Result<u16, NetworkError>)
    requires
        old(registry).wf(),
    ensures
        final(registry).wf(),
        ({
            let id = req.origin_device_id@;
            let before = *old(registry);
            let after = *final(registry);
            let accepted = before.peers().contains_key(id) && seq_is_new(before.peers()[id], AadKind::File, req.seq);
            let decoded = base64_decode_spec(req.ciphertext_b64@);
            &&& !before.peers().contains_key(id) ==> r == Err::<u16, NetworkError>(NetworkError::NotInPeers)
                && same_registry(before, after)
            &&& before.peers().contains_key(id) && !seq_is_new(before.peers()[id], AadKind::File, req.seq)
                ==> r == Ok::<u16, NetworkError>(200) && same_registry(before, after)
            &&& accepted ==> after.peers() == record_seq(before.peers(), id, AadKind::File, req.seq)
                && after.approved_ids() == before.approved_ids() && after.banned_ids() == before.banned_ids()
                && after.pool() == before.pool()
            &&& accepted && req.size > MAX_FILE_SIZE ==> r == Err::<u16, NetworkError>(NetworkError::PayloadTooLarge)
            &&& accepted && req.size <= MAX_FILE_SIZE && decoded is None ==> (r matches Err(e) && e is BadRequest)
            &&& accepted && req.size <= MAX_FILE_SIZE && decoded is Some ==> r == (if decoded->0.len()
                > MAX_CIPHERTEXT_BYTES {
                Err::<u16, NetworkError>(NetworkError::PayloadTooLarge)
            } else {
                Ok::<u16, NetworkError>(503)
            })
        }),
{
    if !registry.is_known(&req.origin_device_id) {
        return Err(NetworkError::NotInPeers);
    }
    let _safe_filename = sanitize_filename(&req.filename);
    if !registry.seen_seq_and_update(&req.origin_device_id, AadKind::File, req.seq) {
        return Ok(200);
    }
    if req.size > MAX_FILE_SIZE {
        return Err(NetworkError::PayloadTooLarge);
    }
    let ct_len = match b64_decode(&req.ciphertext_b64) {
        Ok(bytes) => bytes.len(),
        Err(_) => {
            return Err(NetworkError::BadRequest("ciphertext base64 decode failed".to_owned()));
        },
    };
    if ct_len > MAX_CIPHERTEXT_BYTES {
        return Err(NetworkError::PayloadTooLarge);
    }
    Ok(503)
}

} // verus!
