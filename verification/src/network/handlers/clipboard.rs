//! POST /clipboard: an encrypted clipboard item from a peer.
use vstd::prelude::*;
use vstd::utf8::{decode_utf8, valid_utf8};
use crate::app::clipboard::{hex_lower, sha256_hex, text_hash};
use crate::app::history::{hash_of, make_text_history_entry, push_spec, HistoryEntry, HistoryPayload, HistorySource, HistoryStore};
use crate::crypto::aes_gcm::decrypt_spec;
use crate::crypto::{aad_spec, build_aad, AadKind, AesGcmSealer, Sealer};
use crate::network::error::NetworkError;
use crate::network::protocol::ClipboardReq;
use crate::peer::{record_seq, same_registry, seq_is_new, PeerRegistry};
use crate::text::utf8_to_string;

verus! {

/// What an accepted clipboard message carries.
#[derive(Debug, Clone)]
pub enum ClipboardOutcome {
    /// A replay: dropped (answered 200).
    Duplicate,
    /// Text to put on the OS clipboard (answered 200).
    Text(String),
    /// PNG bytes (answered 200; images are not applied yet).
    Image(Vec<u8>),
}

/// The message kind named by the `kind` field: `image_png`, else text.
pub open spec fn clipboard_kind(kind: Seq<char>) -> AadKind {
    if kind == "image_png"@ {
        AadKind::ImagePng
    } else {
        AadKind::Text
    }
}

/// The kind named by the `kind` field.
fn parse_kind(kind: &String) -> (r: AadKind)
    ensures
        r == clipboard_kind(kind@),
{
    let image = "image_png".to_owned();
    if *kind == image {
        AadKind::ImagePng
    } else {
        AadKind::Text
    }
}

/// Answers a clipboard message. 403 for an unknown origin; a replay is
/// dropped (answered 200, nothing recorded). Otherwise the number is
/// recorded and the message decrypted with the origin's key under the AAD of
/// (kind, origin, seq): a failure is 422. Decrypted text that is not UTF-8 is
/// 422 too; valid text goes to the top of the history (from the origin's
/// name, with its SHA-256 hex as content hash) and is returned for the OS
/// clipboard. Image bytes are returned as they are.
pub fn handle_clipboard(registry: &mut PeerRegistry, history: &mut HistoryStore, req: &ClipboardReq) -> (r:
    Result<ClipboardOutcome, NetworkError>)
    requires
        old(registry).wf(),
        old(history).wf(),
    ensures
        final(registry).wf(),
        final(history).wf(),
        ({
            let id = req.origin_device_id@;
            let kind = clipboard_kind(req.kind@);
            let before = *old(registry);
            let after = *final(registry);
            let accepted = before.peers().contains_key(id) && seq_is_new(before.peers()[id], kind, req.seq);
            let d = decrypt_spec(
                before.peers()[id].aes_key@,
                req.nonce_b64@,
                req.ciphertext_b64@,
                aad_spec(kind, id, req.seq),
            );
            &&& !before.peers().contains_key(id) ==> r == Err::<ClipboardOutcome, NetworkError>(
                NetworkError::NotInPeers,
            ) && same_registry(before, after)
            &&& before.peers().contains_key(id) && !seq_is_new(before.peers()[id], kind, req.seq) ==> r == Ok::<
                ClipboardOutcome,
                NetworkError,
            >(ClipboardOutcome::Duplicate) && same_registry(before, after)
            &&& !accepted ==> final(history).entries() == old(history).entries()
            &&& accepted ==> after.peers() == record_seq(before.peers(), id, kind, req.seq) && after.approved_ids()
                == before.approved_ids() && after.banned_ids() == before.banned_ids() && after.pool() == before.pool()
            &&& accepted && d is Err ==> r == Err::<ClipboardOutcome, NetworkError>(NetworkError::DecryptFailed)
                && final(history).entries() == old(history).entries()
            &&& accepted && d is Ok && kind == AadKind::ImagePng ==> (r matches Ok(ClipboardOutcome::Image(b))
                && b@ == d->Ok_0) && final(history).entries() == old(history).entries()
            &&& accepted && d is Ok && kind == AadKind::Text && !valid_utf8(d->Ok_0) ==> r == Err::<
                ClipboardOutcome,
                NetworkError,
            >(NetworkError::DecryptFailed) && final(history).entries() == old(history).entries()
            &&& accepted && d is Ok && kind == AadKind::Text && valid_utf8(d->Ok_0) ==> (r matches Ok(
                ClipboardOutcome::Text(t),
            ) && t@ == decode_utf8(d->Ok_0) && exists|e: HistoryEntry|
                e.source == (HistorySource::Remote { device_name: before.peers()[id].device_name })
                    && #[trigger] hash_of(e) == Some(hex_lower(text_hash(t@))) && e.payload == (
                HistoryPayload::Text { text: t }) && final(history).entries() == push_spec(
                    old(history).entries(),
                    e,
                ))
        }),
{
    if !registry.is_known(&req.origin_device_id) {
        return Err(NetworkError::NotInPeers);
    }
    let kind = parse_kind(&req.kind);
    if !registry.seen_seq_and_update(&req.origin_device_id, kind, req.seq) {
        return Ok(ClipboardOutcome::Duplicate);
    }
    let peer = match registry.get(&req.origin_device_id) {
        Some(p) => p,
        None => return Err(NetworkError::NotInPeers),
    };
    let aad = build_aad(kind, &req.origin_device_id, req.seq);
    let sealer = AesGcmSealer;
    let plaintext = match sealer.decrypt(&peer.aes_key, &req.nonce_b64, &req.ciphertext_b64, aad.as_slice()) {
        Ok(p) => p,
        Err(_) => return Err(NetworkError::DecryptFailed),
    };
    match kind {
        AadKind::ImagePng => Ok(ClipboardOutcome::Image(plaintext)),
        _ => {
            let text = match utf8_to_string(plaintext) {
                Some(t) => t,
                None => return Err(NetworkError::DecryptFailed),
            };
            let hash = sha256_hex(text.as_str());
            let entry = make_text_history_entry(
                text.clone(),
                HistorySource::Remote { device_name: peer.device_name },
                hash,
            );
            history.push(entry);
            Ok(ClipboardOutcome::Text(text))
        },
    }
}

} // verus!
