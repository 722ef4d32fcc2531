//! POST /peers/leave: a peer goes offline.
use vstd::prelude::*;
use crate::crypto::AadKind;
use crate::network::error::NetworkError;
use crate::network::protocol::LeaveReq;
use crate::peer::{removed_everywhere, same_registry, seq_is_new, PeerRegistry};

verus! {

/// Answers a leave: 403 for an unknown origin; 200 and nothing else for a
/// replayed one; otherwise the origin is removed everywhere (record, trust
/// entries, client) and the answer is 200.
pub fn handle_leave(registry: &mut PeerRegistry, req: &LeaveReq) -> (r: Result<u16, NetworkError>)
    requires
        old(registry).wf(),
    ensures
        final(registry).wf(),
        ({
            let id = req.origin_device_id@;
            let before = *old(registry);
            let after = *final(registry);
            &&& !before.peers().contains_key(id) ==> r == Err::<u16, NetworkError>(NetworkError::NotInPeers)
                && same_registry(before, after)
            &&& before.peers().contains_key(id) ==> r == Ok::<u16, NetworkError>(200)
            &&& before.peers().contains_key(id) && !seq_is_new(before.peers()[id], AadKind::Leave, req.seq)
                ==> same_registry(before, after)
            &&& before.peers().contains_key(id) && seq_is_new(before.peers()[id], AadKind::Leave, req.seq)
                ==> removed_everywhere(before, after, id)
        }),
{
    if !registry.is_known(&req.origin_device_id) {
        return Err(NetworkError::NotInPeers);
    }
    if !registry.seen_seq_and_update(&req.origin_device_id, AadKind::Leave, req.seq) {
        return Ok(200);
    }
    let _ = registry.remove(&req.origin_device_id);
    assert(registry.peers() =~= old(registry).peers().remove(req.origin_device_id@));
    Ok(200)
}

} // verus!
