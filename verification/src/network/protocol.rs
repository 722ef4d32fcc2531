//! Request and response bodies of the LAN protocol.
//!
//! Each broadcast request carries its origin device id and a per-kind
//! sequence number; receivers drop replays by that number.
use vstd::prelude::*;
use crate::addr::SocketAddress;

verus! {

/// POST /handshake: a device asks to join.
#[derive(Debug, Clone)]
pub struct HandshakeReq {
    pub device_id: String,
    /// Display name (sanitised by the receiver).
    pub device_name: String,
    /// X25519 public key, base64.
    pub pubkey_b64: String,
    /// Where the sender listens.
    pub listen_port: u16,
}

/// A peer named in a handshake reply, for the new device to dial.
#[derive(Debug, Clone)]
pub struct PeerStub {
    pub device_id: String,
    pub addr: SocketAddress,
}

/// The handshake reply.
#[derive(Debug, Clone)]
pub struct HandshakeResp {
    /// The replying device's id.
    pub device_id: String,
    /// Its X25519 public key, base64.
    pub pubkey_b64: String,
    /// The requester's name as the replying device stored it (omitted when
    /// absent).
    pub device_name: Option<String>,
    /// The replying device's other approved peers.
    pub peers: Vec<PeerStub>,
}

/// POST /clipboard: an encrypted clipboard item.
#[derive(Debug, Clone)]
pub struct ClipboardReq {
    pub origin_device_id: String,
    pub seq: u64,
    /// `text` or `image_png`.
    pub kind: String,
    pub nonce_b64: String,
    pub ciphertext_b64: String,
    /// A snapshot sent on (re)connection (defaults to false).
    pub is_snapshot: bool,
}

/// POST /file: an encrypted file.
#[derive(Debug, Clone)]
pub struct FileReq {
    pub origin_device_id: String,
    pub seq: u64,
    /// Sanitised by the receiver.
    pub filename: String,
    /// Declared size in bytes (not trusted).
    pub size: u64,
    pub nonce_b64: String,
    pub ciphertext_b64: String,
}

/// POST /heartbeat.
#[derive(Debug, Clone)]
pub struct HeartbeatReq {
    pub origin_device_id: String,
    pub seq: u64,
}

/// POST /peers/leave: the sender is going offline.
#[derive(Debug, Clone)]
pub struct LeaveReq {
    pub origin_device_id: String,
    pub seq: u64,
}

/// POST /peers/trust and /peers/ban: trust or ban a third device.
#[derive(Debug, Clone)]
pub struct TrustReq {
    pub origin_device_id: String,
    pub seq: u64,
    pub subject_device_id: String,
}

/// POST /peers/approval/forward.
#[derive(Debug, Clone)]
pub struct ApprovalForwardReq {
    pub origin_device_id: String,
    pub seq: u64,
    pub newcomer_device_id: String,
    /// Sanitised by the receiver.
    pub newcomer_name: String,
    pub newcomer_pubkey_b64: String,
}

/// POST /peers/approval/decide.
#[derive(Debug, Clone)]
pub struct ApprovalDecideReq {
    pub origin_device_id: String,
    pub seq: u64,
    pub newcomer_device_id: String,
    pub approved: bool,
}

/// POST /peers/approval/dismiss.
#[derive(Debug, Clone)]
pub struct ApprovalDismissReq {
    pub origin_device_id: String,
    pub seq: u64,
    pub newcomer_device_id: String,
}

/// POST /history/clear.
#[derive(Debug, Clone)]
pub struct ClearHistoryReq {
    pub origin_device_id: String,
    pub seq: u64,
}

/// POST /delete_history.
#[derive(Debug, Clone)]
pub struct DeleteHistoryReq {
    pub origin_device_id: String,
    pub seq: u64,
    /// Content hash of the entry to delete.
    pub content_hash: String,
}

/// POST /peers/announce: a peer tells its peers about a new member.
#[derive(Debug, Clone)]
pub struct GossipAnnouncePayload {
    /// The new member.
    pub device_id: String,
    /// Where it listens.
    pub addr: SocketAddress,
    /// Who announces it.
    pub origin_device_id: String,
}

} // verus!
