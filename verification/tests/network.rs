use base64::Engine;
use sync_copy::addr::{IpAddress, SocketAddress};
use sync_copy::app::history::{HistoryPayload, HistorySource, HistoryStore};
use sync_copy::app::clipboard::sha256_hex;
use sync_copy::crypto::{AadKind, KeyExchange, X25519KeyExchange};
use sync_copy::network::client::{
    accept_dialed_peer, begin_dial, complete_dial, complete_gossip_dial, gossip_precheck, ping_request,
    prepare_announce, prepare_clipboard_broadcast, prepare_leave, record_delivery, DialError,
};
use sync_copy::network::error::NetworkError;
use sync_copy::network::handlers::clipboard::{handle_clipboard, ClipboardOutcome};
use sync_copy::network::handlers::file::{handle_file, MAX_CIPHERTEXT_BYTES, MAX_FILE_SIZE};
use sync_copy::network::handlers::handshake::{accept_handshake, gossip_stubs, handle_handshake};
use sync_copy::network::handlers::heartbeat::handle_heartbeat;
use sync_copy::network::handlers::history::{handle_clear_history, handle_delete_history};
use sync_copy::network::handlers::leave::handle_leave;
use sync_copy::network::handlers::peers::{
    handle_approval_decide, handle_approval_dismiss, handle_approval_forward, handle_ban, handle_peers_announce,
    handle_trust, AnnounceOutcome,
};
use sync_copy::network::protocol::{
    ApprovalDecideReq, ApprovalDismissReq, ApprovalForwardReq, ClearHistoryReq, ClipboardReq, DeleteHistoryReq,
    FileReq, GossipAnnouncePayload, HandshakeReq, HandshakeResp, HeartbeatReq, LeaveReq, PeerStub, TrustReq,
};
use sync_copy::peer::rate_limit::RateLimiter;
use sync_copy::peer::{PeerRegistry, PeerState, SeenSeqs, TrustState};

const B64: base64::engine::GeneralPurpose = base64::engine::general_purpose::STANDARD;

fn v4(a: u8, b: u8, c: u8, d: u8) -> IpAddress {
    IpAddress::V4(u32::from_be_bytes([a, b, c, d]))
}

fn make_peer(id: &str, trust: TrustState) -> PeerState {
    PeerState {
        device_id: id.to_string(),
        device_name: format!("device-{id}"),
        addr: SocketAddress::new(v4(127, 0, 0, 1), 9999),
        pubkey_b64: "test_pubkey".to_string(),
        aes_key: [0u8; 32],
        last_successful_sync_at: None,
        last_heartbeat_at: None,
        consecutive_heartbeat_failures: 0,
        consecutive_send_failures: 0,
        trust_state: trust,
        last_seen_seq_by_kind: SeenSeqs::new(),
    }
}

fn approved_registry(ids: &[&str]) -> PeerRegistry {
    let mut r = PeerRegistry::new_for_test();
    for id in ids {
        r.insert(make_peer(id, TrustState::Approved));
        r.approve(id);
    }
    r
}

fn make_announce(device_id: &str, origin_device_id: &str) -> GossipAnnouncePayload {
    GossipAnnouncePayload {
        device_id: device_id.to_string(),
        addr: SocketAddress::new(v4(192, 168, 1, 99), 5858),
        origin_device_id: origin_device_id.to_string(),
    }
}

// ---- error mapping ----

#[test]
fn device_id_conflict_returns_403_forbidden() {
    assert_eq!(NetworkError::DeviceIdConflict.status_code(), 403);
    assert_eq!(NetworkError::DeviceIdConflict.body(), "forbidden", "DeviceIdConflict must return 'forbidden' body");
}

#[test]
fn banned_returns_same_403_as_conflict() {
    assert_eq!(NetworkError::Banned.status_code(), 403);
    assert_eq!(NetworkError::Banned.body(), "forbidden", "Banned must return same 'forbidden' body as DeviceIdConflict");
}

#[test]
fn not_in_peers_returns_403_forbidden() {
    assert_eq!(NetworkError::NotInPeers.status_code(), 403);
    assert_eq!(NetworkError::NotInPeers.body(), "forbidden");
}

#[test]
fn decrypt_failed_and_size_mismatch_same_422_body() {
    assert_eq!(NetworkError::DecryptFailed.status_code(), 422);
    assert_eq!(NetworkError::SizeMismatch.status_code(), 422);
    let b1 = NetworkError::DecryptFailed.body();
    let b2 = NetworkError::SizeMismatch.body();
    assert_eq!(b1, "unprocessable");
    assert_eq!(b2, "unprocessable");
    assert_eq!(b1, b2, "DecryptFailed and SizeMismatch must have identical body");
}

#[test]
fn rate_limited_returns_429() {
    assert_eq!(NetworkError::RateLimited.status_code(), 429);
    assert_eq!(NetworkError::RateLimited.body(), "too many requests");
}

#[test]
fn internal_error_body_does_not_expose_reason() {
    let e = NetworkError::Internal("secret db path /home/user".to_string());
    assert_eq!(e.status_code(), 500);
    let body = e.body();
    assert_eq!(body, "internal error");
    assert!(!body.contains("secret"), "500 body must not expose internal reason");
    let log = e.log();
    assert!(log.is_error);
    assert_eq!(log.target, "network::error");
    assert_eq!(log.kind, "internal");
    assert_eq!(log.reason.as_deref(), Some("secret db path /home/user"));
}

#[test]
fn other_statuses_and_log_kinds() {
    assert_eq!(NetworkError::BadRequest("x".into()).status_code(), 400);
    assert_eq!(NetworkError::BadRequest("x".into()).body(), "invalid request");
    assert_eq!(NetworkError::UserRejected.status_code(), 403);
    assert_eq!(NetworkError::ApprovalTimeout.status_code(), 408);
    assert_eq!(NetworkError::PayloadTooLarge.status_code(), 413);
    assert_eq!(NetworkError::DecryptFailed.log().kind, "decrypt_or_size_mismatch");
    assert_eq!(NetworkError::SizeMismatch.log().kind, "decrypt_or_size_mismatch");
    assert!(!NetworkError::Banned.log().is_error);
    assert_eq!(NetworkError::Banned.log().reason, None);
}

// ---- file ----

#[test]
fn max_file_size_is_5mb() {
    assert_eq!(MAX_FILE_SIZE, 5 * 1024 * 1024);
}

#[test]
fn max_ciphertext_greater_than_max_file() {
    assert!(MAX_CIPHERTEXT_BYTES as u64 > MAX_FILE_SIZE, "MAX_CIPHERTEXT_BYTES must be > MAX_FILE_SIZE to allow legitimate files");
}

#[test]
fn oversized_ciphertext_exceeds_limit() {
    let mut registry = approved_registry(&["o"]);
    let oversized = vec![0u8; MAX_CIPHERTEXT_BYTES + 1];
    assert!(oversized.len() > MAX_CIPHERTEXT_BYTES, "oversized bytes must exceed MAX_CIPHERTEXT_BYTES");
    let req = FileReq {
        origin_device_id: "o".into(),
        seq: 1,
        filename: "f".into(),
        size: 10,
        nonce_b64: String::new(),
        ciphertext_b64: B64.encode(&oversized),
    };
    assert_eq!(handle_file(&mut registry, &req), Err(NetworkError::PayloadTooLarge));
}

#[test]
fn file_request_outcomes() {
    let mut registry = approved_registry(&["o"]);
    let mut req = FileReq {
        origin_device_id: "nobody".into(),
        seq: 1,
        filename: "f".into(),
        size: 10,
        nonce_b64: String::new(),
        ciphertext_b64: B64.encode([1u8, 2, 3]),
    };
    assert_eq!(handle_file(&mut registry, &req), Err(NetworkError::NotInPeers));
    req.origin_device_id = "o".into();
    assert_eq!(handle_file(&mut registry, &req), Ok(503));
    assert_eq!(handle_file(&mut registry, &req), Ok(200), "a replay is dropped");
    req.seq = 2;
    req.size = MAX_FILE_SIZE + 1;
    assert_eq!(handle_file(&mut registry, &req), Err(NetworkError::PayloadTooLarge));
    req.seq = 3;
    req.size = 1;
    req.ciphertext_b64 = "!!".into();
    assert!(matches!(handle_file(&mut registry, &req), Err(NetworkError::BadRequest(_))));
}

// ---- handshake ----

#[test]
fn handshake_derives_correct_aes_key_and_symmetric() {
    let (alice_sec, alice_pub) = X25519KeyExchange::new_ephemeral();
    let (bob_sec, bob_pub) = X25519KeyExchange::new_ephemeral();
    let key_a = X25519KeyExchange::derive_aes_key(alice_sec, &bob_pub).expect("Alice derive_aes_key should not fail");
    let key_b = X25519KeyExchange::derive_aes_key(bob_sec, &alice_pub).expect("Bob derive_aes_key should not fail");
    assert_eq!(key_a, key_b, "ECDH must produce symmetric key on both sides");
    assert_eq!(key_a.len(), 32, "AES key must be 32 bytes");
}

#[test]
fn handshake_inserts_peer_after_key_exchange() {
    let mut registry = PeerRegistry::new_for_test();
    let mut rl = RateLimiter::new();
    let (_secret, req) = begin_dial("peer-handshake-test", "Bob's PC", 5858);
    let resp = handle_handshake("me", &mut rl, &mut registry, v4(192, 168, 1, 10), &req, 1_000).expect("accepted");
    assert_eq!(resp.device_id, "me");
    assert_eq!(resp.device_name.as_deref(), Some("Bob's PC"));
    let peer_id = "peer-handshake-test";
    assert!(registry.is_known(peer_id), "peer must be in registry after handshake");
    assert!(registry.is_approved(peer_id), "peer must be approved after handshake");
    assert!(!registry.is_banned(peer_id), "peer must not be banned after handshake");
    let got = registry.get(peer_id).expect("peer must be gettable");
    assert_eq!(got.aes_key.len(), 32, "aes_key must be 32 bytes after handshake");
    assert_eq!(got.addr, SocketAddress::new(v4(192, 168, 1, 10), 5858));
    assert!(registry.client_pool().contains(peer_id));
}

#[test]
fn handshake_response_includes_approved_peers() {
    let mut registry = PeerRegistry::new_for_test();
    let mut peer_a = make_peer("peer-a", TrustState::Approved);
    peer_a.addr = SocketAddress::new(v4(192, 168, 1, 10), 5858);
    let mut peer_b = make_peer("peer-b", TrustState::Approved);
    peer_b.addr = SocketAddress::new(v4(192, 168, 1, 11), 5858);
    registry.insert(peer_a);
    registry.approve("peer-a");
    registry.insert(peer_b);
    registry.approve("peer-b");
    let requester_id = "requester-id".to_string();
    let gossip_peers: Vec<PeerStub> = gossip_stubs(&registry, Some(&requester_id));
    assert_eq!(gossip_peers.len(), 2, "gossip_peers must include all 2 Approved peers when requester is unknown");
    assert!(gossip_peers.iter().all(|s| s.device_id != requester_id), "gossip_peers must not contain the requester's device_id");
}

#[test]
fn handshake_response_excludes_banned_peers_and_requester() {
    let mut registry = PeerRegistry::new_for_test();
    registry.insert(make_peer("peer-good", TrustState::Approved));
    registry.approve("peer-good");
    registry.insert(make_peer("peer-pending", TrustState::Pending));
    let requester_id = "requester-new".to_string();
    let gossip_peers = gossip_stubs(&registry, Some(&requester_id));
    assert_eq!(gossip_peers.len(), 1, "gossip_peers must only contain the 1 Approved peer (Pending filtered out)");
    assert_eq!(gossip_peers[0].device_id, "peer-good", "the only gossip peer should be 'peer-good'");
    assert!(gossip_peers.iter().all(|s| s.device_id != "peer-pending"), "gossip_peers must not contain Pending peers");
    let registry2 = approved_registry(&["peer-self"]);
    let self_id = "peer-self".to_string();
    let gossip_for_self_req = gossip_stubs(&registry2, Some(&self_id));
    assert!(gossip_for_self_req.is_empty(), "when requester is the only Approved peer, gossip_peers must be empty");
}

#[test]
fn self_dial_returns_403() {
    let mut registry = PeerRegistry::new_for_test();
    let mut rl = RateLimiter::new();
    let (_s, req) = begin_dial("same-id", "x", 1);
    let err = match handle_handshake("same-id", &mut rl, &mut registry, v4(10, 0, 0, 1), &req, 0) {
        Err(e) => e,
        Ok(_) => panic!("self-dial must be refused"),
    };
    assert_eq!(err, NetworkError::DeviceIdConflict);
    assert_eq!(err.status_code(), 403, "self-dial must return 403 Forbidden");
    assert_eq!(registry.count(), 0);
}

#[test]
fn resp_uses_real_my_device_id() {
    let my_device_id = uuid::Uuid::new_v4().to_string();
    assert_ne!(my_device_id.as_str(), "placeholder-my-device-id", "my_device_id must not be the placeholder literal");
    let parsed = uuid::Uuid::parse_str(&my_device_id);
    assert!(parsed.is_ok(), "my_device_id must be a valid UUID v4 string, got: {my_device_id}");
    let mut registry = PeerRegistry::new_for_test();
    let mut rl = RateLimiter::new();
    let (_s, req) = begin_dial("other", "TestDevice", 1);
    let resp: HandshakeResp = handle_handshake(&my_device_id, &mut rl, &mut registry, v4(10, 0, 0, 2), &req, 0).unwrap();
    assert_eq!(resp.device_id, my_device_id, "HandshakeResp.device_id must match my_device_id (not placeholder)");
    assert_ne!(resp.device_id.as_str(), "placeholder-my-device-id", "HandshakeResp.device_id must never be the placeholder literal");
    assert!(resp.peers.is_empty());
}

#[test]
fn handshake_refusals() {
    let mut registry = PeerRegistry::new_for_test();
    registry.ban("bad");
    let mut rl = RateLimiter::new();
    let (_s, req) = begin_dial("bad", "x", 1);
    assert!(matches!(handle_handshake("me", &mut rl, &mut registry, v4(10, 0, 0, 3), &req, 0), Err(NetworkError::Banned)));
    let bad_key = HandshakeReq { device_id: "k".into(), device_name: "n".into(), pubkey_b64: "short".into(), listen_port: 1 };
    assert!(matches!(handle_handshake("me", &mut rl, &mut registry, v4(10, 0, 0, 4), &bad_key, 0), Err(NetworkError::BadRequest(_))));
    let (_s2, ok) = begin_dial("rl", "x", 1);
    for _ in 0..3 {
        assert!(handle_handshake("me", &mut rl, &mut registry, v4(10, 0, 0, 5), &ok, 0).is_ok());
    }
    assert!(matches!(handle_handshake("me", &mut rl, &mut registry, v4(10, 0, 0, 5), &ok, 0), Err(NetworkError::RateLimited)));
}

#[test]
fn dial_and_answer_agree_on_key_and_gossip() {
    // B already knows C; A dials B.
    let mut reg_b = approved_registry(&["C"]);
    let mut reg_a = PeerRegistry::new_for_test();
    let mut rl = RateLimiter::new();
    let (secret, req) = begin_dial("A", "Device A", 6000);
    let resp = handle_handshake("B", &mut rl, &mut reg_b, v4(192, 168, 1, 2), &req, 5).unwrap();
    assert_eq!(resp.peers.len(), 1);
    assert_eq!(resp.peers[0].device_id, "C");
    let b_addr = SocketAddress::new(v4(192, 168, 1, 3), 5858);
    let next = complete_dial(&mut reg_a, "A", b_addr, secret, &resp).expect("dial completes");
    assert_eq!(next.len(), 1, "C is unknown to A and is dialled next");
    let a_at_b = reg_b.get("A").unwrap();
    let b_at_a = reg_a.get("B").unwrap();
    assert_eq!(a_at_b.aes_key, b_at_a.aes_key, "both sides derive the same key");
    assert!(reg_a.is_approved("B"));
    assert_eq!(b_at_a.addr, b_addr);
    assert!(gossip_precheck(&reg_a, "C"));
    assert!(!gossip_precheck(&reg_a, "B"));
}

#[test]
fn gossip_dial_refuses_self_banned_and_known() {
    let mut reg = approved_registry(&["known"]);
    reg.ban("evil");
    for (id, err) in [("me", DialError::SelfDial), ("evil", DialError::Banned), ("known", DialError::AlreadyKnown)] {
        let (secret, _req) = begin_dial("me", "x", 1);
        let (_s, other) = begin_dial(id, "y", 1);
        let resp = HandshakeResp { device_id: id.into(), pubkey_b64: other.pubkey_b64.clone(), device_name: None, peers: vec![] };
        assert_eq!(complete_gossip_dial(&mut reg, "me", SocketAddress::new(v4(1, 2, 3, 4), 1), secret, &resp), Err(err));
    }
    assert_eq!(DialError::SelfDial.message(), "peer returned our own device_id");
}

// ---- heartbeat / leave ----

#[test]
fn heartbeat_updates_last_heartbeat_not_last_sync() {
    let mut registry = PeerRegistry::new_for_test();
    let peer_id = "heartbeat-test-peer";
    registry.insert(make_peer(peer_id, TrustState::Approved));
    let s = registry.get(peer_id).expect("peer must exist");
    assert!(s.last_heartbeat_at.is_none(), "initial last_heartbeat_at must be None");
    assert!(s.last_successful_sync_at.is_none(), "initial last_successful_sync_at must be None");
    let req = HeartbeatReq { origin_device_id: peer_id.into(), seq: 0 };
    assert_eq!(handle_heartbeat(&mut registry, &req), Ok(200));
    let s = registry.get(peer_id).expect("peer must still exist");
    assert!(s.last_heartbeat_at.is_some(), "record_heartbeat_ok must update last_heartbeat_at");
    assert!(s.last_successful_sync_at.is_none(), "record_heartbeat_ok must NOT update last_successful_sync_at");
    assert_eq!(s.consecutive_heartbeat_failures, 0, "record_heartbeat_ok must reset consecutive_heartbeat_failures to 0");
    let unknown = HeartbeatReq { origin_device_id: "ghost".into(), seq: 0 };
    assert_eq!(handle_heartbeat(&mut registry, &unknown), Err(NetworkError::NotInPeers));
    assert_eq!(ping_request("me").origin_device_id, "me");
}

#[test]
fn leave_atomic_remove_inner_and_pool() {
    let mut registry = PeerRegistry::new_for_test();
    let peer_id = "leave-test-peer";
    registry.insert(make_peer(peer_id, TrustState::Approved));
    registry.approve(peer_id);
    let client = reqwest::Client::builder().no_proxy().build().expect("test client build");
    registry.insert_client(peer_id, client);
    assert!(registry.is_known(peer_id), "peer must be in inner before leave");
    assert!(registry.is_approved(peer_id), "peer must be approved before leave");
    assert!(registry.client_pool().get(peer_id).is_some(), "client must be in pool before leave");
    let req = LeaveReq { origin_device_id: peer_id.into(), seq: 1 };
    assert_eq!(handle_leave(&mut registry, &req), Ok(200));
    assert!(!registry.is_known(peer_id), "inner must not contain peer after remove");
    assert!(!registry.is_approved(peer_id), "approved must not contain peer after remove");
    assert!(!registry.is_banned(peer_id), "banned must not contain peer after remove");
    assert!(registry.client_pool().get(peer_id).is_none());
}

#[test]
fn leave_rejects_unknown_peer_logic() {
    let mut registry = PeerRegistry::new_for_test();
    assert!(!registry.is_known("ghost-peer"), "is_known must return false for unknown peer");
    let req = LeaveReq { origin_device_id: "ghost-peer".into(), seq: 1 };
    assert_eq!(handle_leave(&mut registry, &req), Err(NetworkError::NotInPeers));
}

#[test]
fn leave_replay_keeps_peer() {
    let mut registry = approved_registry(&["p"]);
    assert!(registry.seen_seq_and_update("p", AadKind::Leave, 5));
    let req = LeaveReq { origin_device_id: "p".into(), seq: 5 };
    assert_eq!(handle_leave(&mut registry, &req), Ok(200));
    assert!(registry.is_known("p"), "a replayed leave removes nothing");
}

// ---- peers ----

#[test]
fn trust_ban_mutual_exclusion_via_registry() {
    let mut registry = PeerRegistry::new_for_test();
    registry.insert(make_peer("origin-peer", TrustState::Pending));
    registry.approve("origin-peer");
    registry.insert(make_peer("subject-peer", TrustState::Pending));
    let trust = TrustReq { origin_device_id: "origin-peer".into(), seq: 1, subject_device_id: "subject-peer".into() };
    assert_eq!(handle_trust(&mut registry, &trust), Ok(200));
    assert!(registry.is_approved("subject-peer"), "after trust: subject must be approved");
    assert!(!registry.is_banned("subject-peer"), "after trust: subject must not be banned");
    let ban = TrustReq { origin_device_id: "origin-peer".into(), seq: 1, subject_device_id: "subject-peer".into() };
    assert_eq!(handle_ban(&mut registry, &ban), Ok(200));
    assert!(!registry.is_approved("subject-peer"), "after ban: subject must not be approved");
    assert!(registry.is_banned("subject-peer"), "after ban: subject must be banned");
    let mut registry2 = PeerRegistry::new_for_test();
    registry2.insert(make_peer("sub2", TrustState::Pending));
    registry2.ban("sub2");
    registry2.approve("sub2");
    assert!(registry2.is_approved("sub2"), "trust must override ban (approved ∩ banned = ∅ invariant)");
    assert!(!registry2.is_banned("sub2"), "after trust overrides ban: banned must be empty");
}

#[test]
fn trust_and_ban_refusals_and_replays() {
    let mut registry = approved_registry(&["o"]);
    let req = TrustReq { origin_device_id: "ghost".into(), seq: 1, subject_device_id: "s".into() };
    assert_eq!(handle_trust(&mut registry, &req), Err(NetworkError::NotInPeers));
    let req = TrustReq { origin_device_id: "o".into(), seq: 4, subject_device_id: "s".into() };
    assert_eq!(handle_trust(&mut registry, &req), Ok(200));
    let replay = TrustReq { origin_device_id: "o".into(), seq: 4, subject_device_id: "t".into() };
    assert_eq!(handle_trust(&mut registry, &replay), Ok(200));
    assert!(!registry.is_approved("t"), "a replayed trust changes nothing");
}

#[test]
fn announce_from_unapproved_origin_rejected() {
    let registry = PeerRegistry::new_for_test();
    let req = make_announce("new-peer-id", "unknown-origin");
    assert!(!registry.is_approved(&req.origin_device_id), "unapproved origin must be rejected (handler step 2)");
    assert!(matches!(handle_peers_announce(&registry, "me", &req), Err(NetworkError::NotInPeers)));
}

#[test]
fn announce_self_rejected() {
    let my_device_id = "my-own-device-id";
    let registry = approved_registry(&["approved-origin"]);
    let req = make_announce(my_device_id, "approved-origin");
    assert_eq!(req.device_id, my_device_id, "self-announce must be caught by device_id == my_device_id check");
    assert!(matches!(handle_peers_announce(&registry, my_device_id, &req), Err(NetworkError::DeviceIdConflict)));
}

#[test]
fn announce_already_known_dedupe() {
    let registry = approved_registry(&["known-peer", "approved-origin"]);
    let req = make_announce("known-peer", "approved-origin");
    assert!(registry.is_approved(&req.origin_device_id), "origin must be approved");
    assert!(registry.is_known(&req.device_id), "known peer must trigger dedupe (200, no dial)");
    assert!(matches!(handle_peers_announce(&registry, "me", &req), Ok(AnnounceOutcome::AlreadyKnown)));
}

#[test]
fn announce_banned_device_rejected() {
    let mut registry = approved_registry(&["approved-origin"]);
    registry.ban("banned-peer");
    let req = make_announce("banned-peer", "approved-origin");
    assert!(registry.is_banned(&req.device_id), "banned peer must be rejected (handler step 4)");
    assert!(matches!(handle_peers_announce(&registry, "me", &req), Err(NetworkError::Banned)));
}

#[test]
fn announce_unknown_device_is_dialled() {
    let registry = approved_registry(&["approved-origin"]);
    let req = make_announce("fresh", "approved-origin");
    match handle_peers_announce(&registry, "me", &req) {
        Ok(AnnounceOutcome::Dial { device_id, addr }) => {
            assert_eq!(device_id, "fresh");
            assert_eq!(addr, SocketAddress::new(v4(192, 168, 1, 99), 5858));
        },
        other => panic!("expected a dial, got {other:?}"),
    }
}

#[test]
fn approval_endpoints() {
    let mut registry = approved_registry(&["o"]);
    let fwd = ApprovalForwardReq {
        origin_device_id: "o".into(),
        seq: 1,
        newcomer_device_id: "n".into(),
        newcomer_name: "N".into(),
        newcomer_pubkey_b64: String::new(),
    };
    assert_eq!(handle_approval_forward(&mut registry, &fwd), Ok(503));
    assert_eq!(handle_approval_forward(&mut registry, &fwd), Ok(200));
    let dec = ApprovalDecideReq { origin_device_id: "x".into(), seq: 1, newcomer_device_id: "n".into(), approved: true };
    assert_eq!(handle_approval_decide(&registry, &dec), Err(NetworkError::NotInPeers));
    let dis = ApprovalDismissReq { origin_device_id: "o".into(), seq: 1, newcomer_device_id: "n".into() };
    assert_eq!(handle_approval_dismiss(&registry, &dis), Ok(503));
}

// ---- history sync ----

#[test]
fn history_sync_endpoints() {
    let mut registry = approved_registry(&["o"]);
    let del = DeleteHistoryReq { origin_device_id: "o".into(), seq: 1, content_hash: "h".into() };
    assert_eq!(handle_delete_history(&mut registry, &del), Ok(503));
    assert_eq!(handle_delete_history(&mut registry, &del), Ok(200));
    let clr = ClearHistoryReq { origin_device_id: "nobody".into(), seq: 1 };
    assert_eq!(handle_clear_history(&mut registry, &clr), Err(NetworkError::NotInPeers));
}

// ---- clipboard end to end ----

#[test]
fn clipboard_broadcast_reaches_peer_and_history() {
    let key = [0x5Au8; 32];
    // Sender S knows receiver R; R knows S; both hold the same key.
    let mut sender = PeerRegistry::new_for_test();
    let mut r_at_s = make_peer("R", TrustState::Approved);
    r_at_s.aes_key = key;
    sender.insert(r_at_s);
    sender.approve("R");
    sender.insert(make_peer("P", TrustState::Pending));
    let out = prepare_clipboard_broadcast(&mut sender, AadKind::Text, "hello".as_bytes(), 7, "S");
    assert_eq!(out.len(), 1, "only approved peers are sent to");
    assert_eq!(out[0].peer_id, "R");
    assert_eq!(out[0].body.kind, "text");
    let mut receiver = PeerRegistry::new_for_test();
    let mut s_at_r = make_peer("S", TrustState::Approved);
    s_at_r.aes_key = key;
    receiver.insert(s_at_r);
    let mut history = HistoryStore::new();
    match handle_clipboard(&mut receiver, &mut history, &out[0].body) {
        Ok(ClipboardOutcome::Text(t)) => assert_eq!(t, "hello"),
        other => panic!("text expected, got {other:?}"),
    }
    let entries = history.snapshot();
    assert_eq!(entries.len(), 1);
    assert_eq!(entries[0].content_hash.as_deref(), Some(sha256_hex("hello").as_str()));
    assert!(matches!(&entries[0].source, HistorySource::Remote { device_name } if device_name == "device-S"));
    assert!(matches!(&entries[0].payload, HistoryPayload::Text { text } if text == "hello"));
    assert!(matches!(handle_clipboard(&mut receiver, &mut history, &out[0].body), Ok(ClipboardOutcome::Duplicate)));
    assert_eq!(history.count(), 1);
}

#[test]
fn clipboard_with_wrong_aad_is_422() {
    let key = [0x11u8; 32];
    let mut sender = PeerRegistry::new_for_test();
    let mut r = make_peer("R", TrustState::Approved);
    r.aes_key = key;
    sender.insert(r);
    sender.approve("R");
    let out = prepare_clipboard_broadcast(&mut sender, AadKind::Text, b"x", 1, "S");
    let mut body: ClipboardReq = out[0].body.clone();
    body.seq = 2;
    let mut receiver = PeerRegistry::new_for_test();
    let mut s = make_peer("S", TrustState::Approved);
    s.aes_key = key;
    receiver.insert(s);
    let mut history = HistoryStore::new();
    let err = handle_clipboard(&mut receiver, &mut history, &body).unwrap_err();
    assert_eq!(err, NetworkError::DecryptFailed);
    assert_eq!(err.status_code(), 422);
    assert_eq!(history.count(), 0);
    let stranger = ClipboardReq { origin_device_id: "Z".into(), ..body };
    assert_eq!(handle_clipboard(&mut receiver, &mut history, &stranger).unwrap_err(), NetworkError::NotInPeers);
}

#[test]
fn leave_and_announce_targets() {
    let registry = approved_registry(&["a", "b"]);
    let (body, targets) = prepare_leave(&registry, "me", 9);
    assert_eq!(body.origin_device_id, "me");
    assert_eq!(body.seq, 9);
    assert_eq!(targets.len(), 2);
    let (ann, to) = prepare_announce(&registry, "a", SocketAddress::new(v4(1, 1, 1, 1), 2), "me");
    assert_eq!(ann.device_id, "a");
    assert_eq!(to.len(), 1);
    assert_eq!(to[0].device_id, "b");
}

fn failed_build() -> Result<reqwest::Client, reqwest::Error> {
    Err(reqwest::Client::new().get("not a url").build().unwrap_err())
}

fn built_client() -> Result<reqwest::Client, reqwest::Error> {
    reqwest::Client::builder().no_proxy().build()
}

#[test]
fn accept_handshake_stores_the_given_key_and_client() {
    let mut registry = approved_registry(&["C"]);
    let (_s, req) = begin_dial("R", " Room PC ", 7000);
    let resp = accept_handshake(&mut registry, "me", v4(10, 1, 1, 1), &req, "my-key".to_string(), [7u8; 32], built_client())
        .expect("client built");
    assert_eq!(resp.device_id, "me");
    assert_eq!(resp.pubkey_b64, "my-key");
    assert_eq!(resp.device_name.as_deref(), Some("Room PC"));
    assert_eq!(resp.peers.len(), 1);
    assert_eq!(resp.peers[0].device_id, "C");
    let got = registry.get("R").unwrap();
    assert_eq!(got.aes_key, [7u8; 32]);
    assert_eq!(got.device_name, "Room PC");
    assert_eq!(got.addr, SocketAddress::new(v4(10, 1, 1, 1), 7000));
    assert_eq!(got.trust_state, TrustState::Approved);
    assert!(registry.is_approved("R"));
    assert!(registry.client_pool().contains("R"));
}

#[test]
fn accept_handshake_build_failure_changes_nothing() {
    let mut registry = PeerRegistry::new_for_test();
    let (_s, req) = begin_dial("R", "x", 1);
    match accept_handshake(&mut registry, "me", v4(10, 1, 1, 1), &req, "k".to_string(), [1u8; 32], failed_build()) {
        Err(NetworkError::Internal(m)) => assert_eq!(m, "client build failed"),
        _ => panic!("a failed build must answer 500"),
    }
    assert_eq!(registry.count(), 0);
    assert!(registry.client_pool().is_empty());
    assert!(!registry.is_approved("R"));
}

#[test]
fn accept_dialed_peer_stores_the_given_key_or_changes_nothing() {
    let mut registry = PeerRegistry::new_for_test();
    let resp = HandshakeResp { device_id: "B".into(), pubkey_b64: "pk".into(), device_name: None, peers: vec![] };
    let addr = SocketAddress::new(v4(10, 2, 2, 2), 5858);
    assert_eq!(accept_dialed_peer(&mut registry, addr, &resp, [3u8; 32], failed_build()), Err(DialError::ClientBuild));
    assert_eq!(registry.count(), 0);
    assert_eq!(accept_dialed_peer(&mut registry, addr, &resp, [3u8; 32], built_client()), Ok(()));
    let got = registry.get("B").unwrap();
    assert_eq!(got.aes_key, [3u8; 32]);
    assert_eq!(got.device_name, "<unnamed>");
    assert_eq!(got.addr, addr);
    assert!(registry.is_approved("B"));
    assert!(registry.client_pool().contains("B"));
}

#[test]
fn dial_refusals_come_in_order() {
    let mut reg = approved_registry(&["known"]);
    let (secret, _req) = begin_dial("me", "x", 1);
    let resp = HandshakeResp { device_id: "known".into(), pubkey_b64: "bad".into(), device_name: None, peers: vec![] };
    assert_eq!(complete_dial(&mut reg, "me", SocketAddress::new(v4(1, 1, 1, 1), 1), secret, &resp).unwrap_err(), DialError::InvalidPubkey);
    assert_eq!(reg.count(), 1);
}

#[test]
fn record_delivery_counts_2xx_as_sync() {
    let mut registry = approved_registry(&["p"]);
    record_delivery(&mut registry, "p", Some(500));
    assert_eq!(registry.get("p").unwrap().consecutive_send_failures, 1);
    record_delivery(&mut registry, "p", None);
    assert_eq!(registry.get("p").unwrap().consecutive_send_failures, 2);
    record_delivery(&mut registry, "p", Some(204));
    let got = registry.get("p").unwrap();
    assert_eq!(got.consecutive_send_failures, 0);
    assert!(got.last_successful_sync_at.is_some());
    record_delivery(&mut registry, "missing", Some(200));
    assert_eq!(registry.count(), 1);
}
