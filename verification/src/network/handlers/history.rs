//! POST /delete_history and POST /history/clear: history changes made on
//! another device. Only the checks are in place; the change itself is not
//! implemented yet, and such a request is answered 503.
use vstd::prelude::*;
use crate::crypto::AadKind;
use crate::network::error::NetworkError;
use crate::network::protocol::{ClearHistoryReq, DeleteHistoryReq};
use crate::peer::{record_seq, same_registry, seq_is_new, PeerRegistry};

verus! {

/// The outcome of the origin check of a broadcast request from `id` of
/// `kind` numbered `seq`: 403 for an unknown origin, 200 and nothing
/// recorded for a replay, otherwise `go_on` with the number recorded.
pub open spec fn origin_checked(
    before: PeerRegistry,
    after: PeerRegistry,
    id: Seq<char>,
    kind: AadKind,
    seq: u64,
    r: Result<u16, NetworkError>,
    go_on: Result<u16, NetworkError>,
) -> bool {
    &&& !before.peers().contains_key(id) ==> r == Err::<u16, NetworkError>(NetworkError::NotInPeers)
        && same_registry(before, after)
    &&& before.peers().contains_key(id) && !seq_is_new(before.peers()[id], kind, seq) ==> r == Ok::<
        u16,
        NetworkError,
    >(200) && same_registry(before, after)
    &&& before.peers().contains_key(id) && seq_is_new(before.peers()[id], kind, seq) ==> r == go_on
        && after.peers() == record_seq(before.peers(), id, kind, seq) && after.approved_ids()
        == before.approved_ids() && after.banned_ids() == before.banned_ids() && after.pool() == before.pool()
}

/// Checks the origin and drops replays; `None` says to go on.
fn check_origin(registry: &mut PeerRegistry, origin: &String, kind: AadKind, seq: u64) -> (r: Option<
    Result<u16, NetworkError>,
>)
    requires
        old(registry).wf(),
    ensures
        final(registry).wf(),
        r matches Some(x) ==> origin_checked(*old(registry), *final(registry), origin@, kind, seq, x, x),
        r is Some ==> !(old(registry).peers().contains_key(origin@) && seq_is_new(
            old(registry).peers()[origin@],
            kind,
            seq,
        )),
        r is None ==> old(registry).peers().contains_key(origin@) && seq_is_new(
            old(registry).peers()[origin@],
            kind,
            seq,
        ) && final(registry).peers() == record_seq(old(registry).peers(), origin@, kind, seq)
            && final(registry).approved_ids() == old(registry).approved_ids() && final(registry).banned_ids()
            == old(registry).banned_ids() && final(registry).pool() == old(registry).pool(),
{
    if !registry.is_known(origin) {
        return Some(Err(NetworkError::NotInPeers));
    }
    if !registry.seen_seq_and_update(origin, kind, seq) {
        return Some(Ok(200));
    }
    None
}

/// Answers a cross-device delete: 403 for an unknown origin, 200 for a
/// replay, otherwise the sequence number is recorded and the answer is 503.
pub fn handle_delete_history(registry: &mut PeerRegistry, req: &DeleteHistoryReq) -> (r: Result<
    u16,
    NetworkError,
>)
    requires
        old(registry).wf(),
    ensures
        final(registry).wf(),
        origin_checked(
            *old(registry),
            *final(registry),
            req.origin_device_id@,
            AadKind::DeleteHistory,
            req.seq,
            r,
            Ok::<u16, NetworkError>(503),
        ),
{
    match check_origin(registry, &req.origin_device_id, AadKind::DeleteHistory, req.seq) {
        Some(r) => r,
        None => Ok(503),
    }
}

/// Answers a cross-device clear: 403 for an unknown origin, 200 for a
/// replay, otherwise the sequence number is recorded and the answer is 503.
pub fn handle_clear_history(registry: &mut PeerRegistry, req: &ClearHistoryReq) -> (r: Result<u16, NetworkError>)
    requires
        old(registry).wf(),
    ensures
        final(registry).wf(),
        origin_checked(
            *old(registry),
            *final(registry),
            req.origin_device_id@,
            AadKind::ClearHistory,
            req.seq,
            r,
            Ok::<u16, NetworkError>(503),
        ),
{
    match check_origin(registry, &req.origin_device_id, AadKind::ClearHistory, req.seq) {
        Some(r) => r,
        None => Ok(503),
    }
}

} // verus!
