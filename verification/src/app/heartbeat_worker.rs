//! Decisions of the heartbeat worker: whom to ping, what a ping result does
//! to a peer's counters, when a connection is force-rebuilt, and when a peer
//! counts as silently dead.
//!
//! The worker's timer loop, the pings and the re-handshake belong to the
//! program's runtime, which asks these functions what to do.
use vstd::prelude::*;
use crate::app::client_pool::build_no_proxy_client;
use crate::app::lifecycle::{Lifecycle, Phase};
use crate::peer::{after_heartbeat_fail, after_heartbeat_ok, saturating_inc, PeerRegistry, PeerState, TrustState};

verus! {

/// Time between ping rounds, in milliseconds.
pub const PING_INTERVAL_MS: u64 = 5_000;

/// Heartbeat failures in a row after which the connection is rebuilt.
pub const FORCE_REBUILD_LIMIT: u32 = 3;

/// A peer synced successfully but not for this long (ms) may be silently dead.
pub const HIDDEN_DEAD_SYNC_THRESHOLD_MS: u64 = 30_000;

/// ... if it has also not answered a heartbeat for this long (ms).
pub const HIDDEN_DEAD_HEARTBEAT_THRESHOLD_MS: u64 = 15_000;

/// Time from `since` to `now`, 0 if the clock went backwards.
pub open spec fn elapsed_ms(since: u64, now: u64) -> int {
    if now >= since {
        now - since
    } else {
        0
    }
}

/// Has more than `threshold_ms` passed from `since` to `now`?
pub fn is_stale(since: u64, now: u64, threshold_ms: u64) -> (r: bool)
    ensures
        r == (elapsed_ms(since, now) > threshold_ms),
{
    now >= since && now - since > threshold_ms
}

/// A peer that has synced before, but not within 30 s, and has not answered
/// a heartbeat within 15 s (or never), counts as silently dead.
pub open spec fn hidden_dead_spec(last_sync: Option<u64>, last_heartbeat: Option<u64>, now: u64) -> bool {
    match last_sync {
        None => false,
        Some(s) => elapsed_ms(s, now) > HIDDEN_DEAD_SYNC_THRESHOLD_MS && match last_heartbeat {
            None => true,
            Some(h) => elapsed_ms(h, now) > HIDDEN_DEAD_HEARTBEAT_THRESHOLD_MS,
        },
    }
}

/// Is the peer silently dead at `now` (see `hidden_dead_spec`)?
pub fn is_hidden_dead(last_successful_sync_at: Option<u64>, last_heartbeat_at: Option<u64>, now: u64) -> (r: bool)
    ensures
        r == hidden_dead_spec(last_successful_sync_at, last_heartbeat_at, now),
{
    let sync_stale = match last_successful_sync_at {
        Some(t) => is_stale(t, now, HIDDEN_DEAD_SYNC_THRESHOLD_MS),
        None => false,
    };
    if !sync_stale {
        return false;
    }
    match last_heartbeat_at {
        Some(t) => is_stale(t, now, HIDDEN_DEAD_HEARTBEAT_THRESHOLD_MS),
        None => true,
    }
}

/// The approved peers among `peers`, in order: those the worker pings.
pub fn approved_peers(peers: &[PeerState]) -> (r: Vec<PeerState>)
    ensures
        r@ == peers@.filter(|p: PeerState| p.trust_state == TrustState::Approved),
{
    let ghost pred = |p: PeerState| p.trust_state == TrustState::Approved;
    let mut out: Vec<PeerState> = Vec::new();
    let n = peers.len();
    proof {
        reveal(Seq::filter);
        assert(peers@.take(0).filter(pred) =~= Seq::<PeerState>::empty());
    }
    let mut i: usize = 0;
    while i < n
        invariant
            n == peers@.len(),
            i <= n,
            out@ == peers@.take(i as int).filter(pred),
            pred == (|p: PeerState| p.trust_state == TrustState::Approved),
        decreases n - i,
    {
        proof {
            reveal(Seq::filter);
            assert(peers@.take(i + 1).drop_last() =~= peers@.take(i as int));
            assert(peers@.take(i + 1).last() == peers@[i as int]);
        }
        if peers[i].trust_state == TrustState::Approved {
            out.push(peers[i].duplicate());
        }
        i = i + 1;
    }
    assert(peers@.take(n as int) =~= peers@);
    out
}

/// What a ping result does: a success resets the peer's heartbeat failures
/// (and stamps the heartbeat time); a failure counts one more and returns
/// `true` once the count reaches `FORCE_REBUILD_LIMIT` (rebuild the
/// connection). Unknown peers are left alone.
pub fn on_ping_result(registry: &mut PeerRegistry, peer_id: &str, ping_ok: bool) -> (rebuild: bool)
    requires
        old(registry).wf(),
    ensures
        final(registry).wf(),
        final(registry).approved_ids() == old(registry).approved_ids(),
        final(registry).banned_ids() == old(registry).banned_ids(),
        final(registry).pool() == old(registry).pool(),
        ping_ok ==> !rebuild,
        !ping_ok ==> (rebuild <==> old(registry).peers().contains_key(peer_id@) && saturating_inc(
            old(registry).peers()[peer_id@].consecutive_heartbeat_failures,
        ) >= FORCE_REBUILD_LIMIT),
        !ping_ok && old(registry).peers().contains_key(peer_id@) ==> final(registry).peers()
            == old(registry).peers().insert(peer_id@, after_heartbeat_fail(old(registry).peers()[peer_id@])),
        ping_ok && old(registry).peers().contains_key(peer_id@) ==> exists|now: u64| final(registry).peers()
            == old(registry).peers().insert(peer_id@, #[trigger] after_heartbeat_ok(old(registry).peers()[peer_id@], now)),
        !old(registry).peers().contains_key(peer_id@) ==> final(registry).peers() == old(registry).peers(),
{
    if ping_ok {
        registry.update_heartbeat_success(peer_id);
        false
    } else {
        let count = registry.increment_heartbeat_failure(peer_id);
        count >= FORCE_REBUILD_LIMIT
    }
}

/// May a peer's connection be rebuilt? Not while shutting down, and not for
/// a peer that is gone or banned.
pub open spec fn rebuild_allowed(lifecycle: Lifecycle, registry: PeerRegistry, peer_id: Seq<char>) -> bool {
    lifecycle.current() != Phase::Shutting && registry.peers().contains_key(peer_id) && !registry.banned_ids().contains(
        peer_id,
    )
}

/// The pool work of a forced reconnect, given the outcome of building a
/// fresh client: when the rebuild is allowed and the client was built, it
/// replaces the peer's client and the answer is `true` (go on with the
/// re-handshake); otherwise nothing changes and the answer is `false`.
pub fn prepare_rebuild_with(
    lifecycle: &Lifecycle,
    registry: &mut PeerRegistry,
    peer_id: &str,
    built: Result<reqwest::Client, reqwest::Error>,
) -> (go: bool)
    requires
        old(registry).wf(),
    ensures
        final(registry).wf(),
        final(registry).peers() == old(registry).peers(),
        final(registry).approved_ids() == old(registry).approved_ids(),
        final(registry).banned_ids() == old(registry).banned_ids(),
        go == (rebuild_allowed(*lifecycle, *old(registry), peer_id@) && built is Ok),
        go ==> final(registry).pool() == old(registry).pool().insert(peer_id@, built->Ok_0),
        !go ==> final(registry).pool() == old(registry).pool(),
{
    if !lifecycle.allows_rebuild() {
        return false;
    }
    if !registry.is_known(peer_id) || registry.is_banned(peer_id) {
        return false;
    }
    match registry.replace_client_with(peer_id, built) {
        Ok(()) => true,
        Err(_) => false,
    }
}

/// The checks and pool work of a forced reconnect, before the re-handshake.
/// Nothing happens while shutting down, or for a peer that is gone or
/// banned. Otherwise a fresh client is built (whether that succeeds is the
/// HTTP library's) and installed by `prepare_rebuild_with`: `true` says to
/// go on with the re-handshake; if the build fails, `false`.
pub fn prepare_rebuild(lifecycle: &Lifecycle, registry: &mut PeerRegistry, peer_id: &str) -> (go: bool)
    requires
        old(registry).wf(),
    ensures
        final(registry).wf(),
        final(registry).peers() == old(registry).peers(),
        final(registry).approved_ids() == old(registry).approved_ids(),
        final(registry).banned_ids() == old(registry).banned_ids(),
        go ==> rebuild_allowed(*lifecycle, *old(registry), peer_id@),
        go ==> exists|c: reqwest::Client| final(registry).pool() == #[trigger] old(registry).pool().insert(peer_id@, c),
        !go ==> final(registry).pool() == old(registry).pool(),
{
    if !lifecycle.allows_rebuild() {
        return false;
    }
    if !registry.is_known(peer_id) || registry.is_banned(peer_id) {
        return false;
    }
    let built = build_no_proxy_client();
    prepare_rebuild_with(lifecycle, registry, peer_id, built)
}

/// After the re-handshake of a forced reconnect: on success the peer's
/// heartbeat failures are reset.
pub fn finish_rebuild(registry: &mut PeerRegistry, peer_id: &str, handshake_ok: bool)
    requires
        old(registry).wf(),
    ensures
        final(registry).wf(),
        final(registry).approved_ids() == old(registry).approved_ids(),
        final(registry).banned_ids() == old(registry).banned_ids(),
        final(registry).pool() == old(registry).pool(),
        handshake_ok && old(registry).peers().contains_key(peer_id@) ==> final(registry).peers()
            == old(registry).peers().insert(
            peer_id@,
            PeerState { consecutive_heartbeat_failures: 0, ..old(registry).peers()[peer_id@] },
        ),
        !(handshake_ok && old(registry).peers().contains_key(peer_id@)) ==> final(registry).peers()
            == old(registry).peers(),
{
    if handshake_ok {
        registry.reset_heartbeat_failures(peer_id);
    }
}

} // verus!
