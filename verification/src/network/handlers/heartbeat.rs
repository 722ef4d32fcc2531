//! POST /heartbeat: a peer says it is alive.
use vstd::prelude::*;
use crate::network::error::NetworkError;
use crate::network::protocol::HeartbeatReq;
use crate::peer::{after_heartbeat_ok, same_registry, PeerRegistry};

verus! {

/// Answers a heartbeat: 403 for an unknown or banned origin; otherwise the
/// origin's heartbeat failures are reset and its heartbeat time stamped (its
/// last successful sync is left alone), and the answer is 200.
pub fn handle_heartbeat(registry: &mut PeerRegistry, req: &HeartbeatReq) -> (r: Result<u16, NetworkError>)
    requires
        old(registry).wf(),
    ensures
        final(registry).wf(),
        ({
            let id = req.origin_device_id@;
            let before = *old(registry);
            let after = *final(registry);
            &&& !before.peers().contains_key(id) ==> r == Err::<u16, NetworkError>(NetworkError::NotInPeers)
                && same_registry(before, after)
            &&& before.peers().contains_key(id) && before.banned_ids().contains(id) ==> r == Err::<
                u16,
                NetworkError,
            >(NetworkError::Banned) && same_registry(before, after)
            &&& before.peers().contains_key(id) && !before.banned_ids().contains(id) ==> r == Ok::<
                u16,
                NetworkError,
            >(200) && after.approved_ids() == before.approved_ids() && after.banned_ids()
                == before.banned_ids() && after.pool() == before.pool() && exists|now: u64|
                after.peers() == before.peers().insert(id, #[trigger] after_heartbeat_ok(before.peers()[id], now))
        }),
{
    if !registry.is_known(&req.origin_device_id) {
        return Err(NetworkError::NotInPeers);
    }
    if registry.is_banned(&req.origin_device_id) {
        return Err(NetworkError::Banned);
    }
    registry.record_heartbeat_ok(&req.origin_device_id);
    Ok(200)
}

} // verus!
