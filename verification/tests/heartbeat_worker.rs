use sync_copy::app::heartbeat_worker::prepare_rebuild_with;
use sync_copy::addr::{IpAddress, SocketAddress};
use sync_copy::app::heartbeat_worker::{
    approved_peers, finish_rebuild, is_hidden_dead, is_stale, on_ping_result, prepare_rebuild, FORCE_REBUILD_LIMIT,
    HIDDEN_DEAD_HEARTBEAT_THRESHOLD_MS, HIDDEN_DEAD_SYNC_THRESHOLD_MS,
};
use sync_copy::app::lifecycle::Lifecycle;
use sync_copy::peer::{PeerRegistry, PeerState, SeenSeqs, TrustState};

fn make_approved_peer(id: &str, port: u16) -> PeerState {
    PeerState {
        device_id: id.to_string(),
        device_name: format!("device-{id}"),
        addr: SocketAddress::new(IpAddress::V4(0x7f00_0001), port),
        pubkey_b64: "test_pubkey".to_string(),
        aes_key: [0u8; 32],
        last_successful_sync_at: None,
        last_heartbeat_at: None,
        consecutive_heartbeat_failures: 0,
        consecutive_send_failures: 0,
        trust_state: TrustState::Approved,
        last_seen_seq_by_kind: SeenSeqs::new(),
    }
}

#[test]
fn worker_only_pings_approved_peers() {
    let mut registry = PeerRegistry::new_for_test();
    let approved = make_approved_peer("peer-approved", 9001);
    registry.insert(approved);
    registry.approve("peer-approved");
    registry.ban("peer-banned");
    let approved_list = approved_peers(&registry.snapshot());
    assert_eq!(approved_list.len(), 1, "only Approved peers should be pinged");
    assert_eq!(approved_list[0].device_id, "peer-approved");
}

#[test]
fn worker_increments_failure_count_on_ping_fail() {
    let mut registry = PeerRegistry::new_for_test();
    registry.insert(make_approved_peer("peer-fail", 9002));
    registry.approve("peer-fail");
    let c1 = registry.increment_heartbeat_failure("peer-fail");
    let c2 = registry.increment_heartbeat_failure("peer-fail");
    let c3 = registry.increment_heartbeat_failure("peer-fail");
    assert_eq!(c1, 1, "first failure should give count 1");
    assert_eq!(c2, 2, "second failure should give count 2");
    assert_eq!(c3, 3, "third failure should give count 3");
    registry.update_heartbeat_success("peer-fail");
    let after_success = registry.get_consecutive_heartbeat_failures("peer-fail");
    assert_eq!(after_success, 0, "success should reset failure count to 0");
}

#[test]
fn worker_force_rebuild_threshold_at_3_failures() {
    let mut registry = PeerRegistry::new_for_test();
    registry.insert(make_approved_peer("peer-rebuild", 9003));
    registry.approve("peer-rebuild");
    let r1 = on_ping_result(&mut registry, "peer-rebuild", false);
    let r2 = on_ping_result(&mut registry, "peer-rebuild", false);
    assert!(!r1, "2 failures should not reach limit");
    assert!(!r2, "2 failures should not reach limit");
    assert!(registry.get_consecutive_heartbeat_failures("peer-rebuild") < FORCE_REBUILD_LIMIT);
    let r3 = on_ping_result(&mut registry, "peer-rebuild", false);
    assert!(r3, "3rd failure must reach FORCE_REBUILD_LIMIT={FORCE_REBUILD_LIMIT}");
    assert!(!on_ping_result(&mut registry, "peer-rebuild", true));
    assert_eq!(registry.get_consecutive_heartbeat_failures("peer-rebuild"), 0);
}

#[test]
fn worker_skips_force_rebuild_during_shutting() {
    let mut lifecycle = Lifecycle::new();
    assert!(lifecycle.mark_running());
    assert!(lifecycle.begin_shutdown());
    let mut registry = PeerRegistry::new_for_test();
    registry.insert(make_approved_peer("peer-shutting", 9004));
    assert!(!prepare_rebuild(&lifecycle, &mut registry, "peer-shutting"));
    assert!(registry.client_pool().is_empty(), "client_pool must remain empty when lifecycle is Shutting");
}

#[test]
fn worker_skips_force_rebuild_for_banned_peer() {
    let mut lifecycle = Lifecycle::new();
    assert!(lifecycle.mark_running());
    let mut registry = PeerRegistry::new_for_test();
    registry.ban("peer-banned-rb");
    assert!(!prepare_rebuild(&lifecycle, &mut registry, "peer-banned-rb"));
    assert!(registry.client_pool().is_empty(), "client_pool must remain empty for banned peer");
}

#[test]
fn worker_rebuilds_known_peer_and_resets_count() {
    let mut lifecycle = Lifecycle::new();
    assert!(lifecycle.mark_running());
    let mut registry = PeerRegistry::new_for_test();
    registry.insert(make_approved_peer("p", 9010));
    registry.approve("p");
    for _ in 0..3 {
        on_ping_result(&mut registry, "p", false);
    }
    assert!(prepare_rebuild(&lifecycle, &mut registry, "p"));
    assert!(registry.client_pool().contains("p"));
    finish_rebuild(&mut registry, "p", true);
    assert_eq!(registry.get_consecutive_heartbeat_failures("p"), 0);
}

#[test]
fn hidden_dead_detection_triggers_when_both_stale() {
    let now: u64 = 1_000_000;
    let last_sync = now - 40_000;
    let last_hb = now - 20_000;
    let sync_stale = is_stale(last_sync, now, HIDDEN_DEAD_SYNC_THRESHOLD_MS);
    let hb_stale = is_stale(last_hb, now, HIDDEN_DEAD_HEARTBEAT_THRESHOLD_MS);
    assert!(sync_stale, "40s since last sync > 30s threshold: should be stale");
    assert!(hb_stale, "20s since last heartbeat > 15s threshold: should be stale");
    assert!(is_hidden_dead(Some(last_sync), Some(last_hb), now));
}

#[test]
fn hidden_dead_detection_no_trigger_when_hb_recent() {
    let now: u64 = 1_000_000;
    let last_sync = now - 40_000;
    let last_hb = now - 5_000;
    let sync_stale = is_stale(last_sync, now, HIDDEN_DEAD_SYNC_THRESHOLD_MS);
    let hb_stale = is_stale(last_hb, now, HIDDEN_DEAD_HEARTBEAT_THRESHOLD_MS);
    assert!(sync_stale, "40s since last sync should be stale");
    assert!(!hb_stale, "5s since heartbeat should NOT be stale (< 15s)");
    assert!(!is_hidden_dead(Some(last_sync), Some(last_hb), now));
}

#[test]
fn hidden_dead_edges() {
    assert!(!is_hidden_dead(None, None, 1_000_000), "never synced: not hidden-dead");
    assert!(is_hidden_dead(Some(0), None, 30_001));
    assert!(!is_hidden_dead(Some(0), None, 30_000), "exactly 30 s is not stale");
    assert!(!is_stale(10, 5, 0), "a time in the future is not stale");
}

#[test]
fn heartbeat_success_does_not_update_last_successful_sync_at() {
    let mut registry = PeerRegistry::new_for_test();
    registry.insert(make_approved_peer("peer-nosync", 9006));
    registry.approve("peer-nosync");
    let before = registry.get("peer-nosync").expect("peer must exist");
    assert!(before.last_successful_sync_at.is_none(), "initial last_successful_sync_at must be None");
    registry.update_heartbeat_success("peer-nosync");
    let after = registry.get("peer-nosync").expect("peer must still exist");
    assert!(
        after.last_successful_sync_at.is_none(),
        "update_heartbeat_success MUST NOT update last_successful_sync_at"
    );
    assert!(after.last_heartbeat_at.is_some(), "update_heartbeat_success must update last_heartbeat_at");
}

#[test]
fn update_aes_key_replaces_key() {
    let mut registry = PeerRegistry::new_for_test();
    let mut peer = make_approved_peer("peer-keyupdate", 9007);
    peer.aes_key = [0xAAu8; 32];
    registry.insert(peer);
    registry.approve("peer-keyupdate");
    registry.update_aes_key("peer-keyupdate", [0xBBu8; 32]);
    let updated = registry.get("peer-keyupdate").expect("peer must exist");
    assert_eq!(updated.aes_key, [0xBBu8; 32], "update_aes_key must replace the aes_key with the new value");
}

#[test]
fn prepare_rebuild_with_installs_only_when_allowed() {
    let client = || reqwest::Client::builder().no_proxy().build().expect("client");
    let mut lifecycle = Lifecycle::new();
    lifecycle.mark_running();
    let mut registry = PeerRegistry::new_for_test();
    registry.insert(make_approved_peer("p", 9020));
    assert!(!prepare_rebuild_with(&lifecycle, &mut registry, "ghost", Ok(client())));
    assert!(!registry.client_pool().contains("ghost"));
    assert!(prepare_rebuild_with(&lifecycle, &mut registry, "p", Ok(client())));
    assert!(registry.client_pool().contains("p"));
    lifecycle.begin_shutdown();
    registry.insert(make_approved_peer("q", 9021));
    assert!(!prepare_rebuild_with(&lifecycle, &mut registry, "q", Ok(client())));
    assert!(!registry.client_pool().contains("q"));
}

#[test]
fn successful_ping_resets_failures_and_stamps_heartbeat() {
    let mut registry = PeerRegistry::new_for_test();
    let mut p = make_approved_peer("peer-ok", 9010);
    p.consecutive_heartbeat_failures = 2;
    registry.insert(p);
    assert!(!on_ping_result(&mut registry, "peer-ok", true));
    let got = registry.get("peer-ok").unwrap();
    assert_eq!(got.consecutive_heartbeat_failures, 0);
    assert!(got.last_heartbeat_at.is_some());
    assert!(got.last_successful_sync_at.is_none());
    assert!(!on_ping_result(&mut registry, "missing", true));
    assert_eq!(registry.count(), 1);
}
