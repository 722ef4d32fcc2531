//! POST /peers/*: trust and ban gossip, approval messages, and announcements
//! of new group members.
use vstd::prelude::*;
use crate::addr::SocketAddress;
use crate::crypto::AadKind;
use crate::network::error::NetworkError;
use crate::network::protocol::{
    ApprovalDecideReq, ApprovalDismissReq, ApprovalForwardReq, GossipAnnouncePayload, TrustReq,
};
use crate::peer::sanitize::sanitize_device_name;
use crate::peer::{approve_peers, record_seq, same_registry, seq_is_new, PeerRegistry};

verus! {

/// What the gossip checks of a trust or ban message from `id` decide: 403
/// for an unknown or banned origin, 200 with nothing changed for a replay.
/// `None`: go on (the origin is known, not banned, and the number is new).
fn check_gossip_origin(registry: &mut PeerRegistry, origin: &String, kind: AadKind, seq: u64) -> (r: Option<
    Result<u16, NetworkError>,
>)
    requires
        old(registry).wf(),
    ensures
        final(registry).wf(),
        ({
            let id = origin@;
            let before = *old(registry);
            let after = *final(registry);
            &&& !before.peers().contains_key(id) ==> r == Some(Err::<u16, NetworkError>(NetworkError::NotInPeers))
                && same_registry(before, after)
            &&& before.peers().contains_key(id) && before.banned_ids().contains(id) ==> r == Some(
                Err::<u16, NetworkError>(NetworkError::Banned),
            ) && same_registry(before, after)
            &&& before.peers().contains_key(id) && !before.banned_ids().contains(id) && !seq_is_new(
                before.peers()[id],
                kind,
                seq,
            ) ==> r == Some(Ok::<u16, NetworkError>(200)) && same_registry(before, after)
            &&& before.peers().contains_key(id) && !before.banned_ids().contains(id) && seq_is_new(
                before.peers()[id],
                kind,
                seq,
            ) ==> r is None && after.peers() == record_seq(before.peers(), id, kind, seq) && after.approved_ids()
                == before.approved_ids() && after.banned_ids() == before.banned_ids() && after.pool()
                == before.pool()
        }),
{
    if !registry.is_known(origin) {
        return Some(Err(NetworkError::NotInPeers));
    }
    if registry.is_banned(origin) {
        return Some(Err(NetworkError::Banned));
    }
    if !registry.seen_seq_and_update(origin, kind, seq) {
        return Some(Ok(200));
    }
    None
}

/// Is a gossip message from `id` of `kind` numbered `seq` acted on: known
/// origin, not banned, new number?
pub open spec fn gossip_accepted(before: PeerRegistry, id: Seq<char>, kind: AadKind, seq: u64) -> bool {
    before.peers().contains_key(id) && !before.banned_ids().contains(id) && seq_is_new(before.peers()[id], kind, seq)
}

/// The answer to a gossip message that is not acted on.
pub open spec fn gossip_refusal(before: PeerRegistry, id: Seq<char>) -> Result<u16, NetworkError> {
    if !before.peers().contains_key(id) {
        Err(NetworkError::NotInPeers)
    } else if before.banned_ids().contains(id) {
        Err(NetworkError::Banned)
    } else {
        Ok(200)
    }
}

/// Answers trust gossip: an accepted message approves the subject (trust
/// overrides a ban); the answer is then 200.
pub fn handle_trust(registry: &mut PeerRegistry, req: &TrustReq) -> (r: Result<u16, NetworkError>)
    requires
        old(registry).wf(),
    ensures
        final(registry).wf(),
        ({
            let id = req.origin_device_id@;
            let subject = req.subject_device_id@;
            let before = *old(registry);
            let after = *final(registry);
            &&& !gossip_accepted(before, id, AadKind::Trust, req.seq) ==> r == gossip_refusal(before, id)
                && same_registry(before, after)
            &&& gossip_accepted(before, id, AadKind::Trust, req.seq) ==> r == Ok::<u16, NetworkError>(200)
                && after.peers() == approve_peers(record_seq(before.peers(), id, AadKind::Trust, req.seq), subject)
                && after.approved_ids() == before.approved_ids().insert(subject) && after.banned_ids()
                == before.banned_ids().remove(subject) && after.pool() == before.pool()
        }),
{
    match check_gossip_origin(registry, &req.origin_device_id, AadKind::Trust, req.seq) {
        Some(r) => r,
        None => {
            registry.approve(&req.subject_device_id);
            Ok(200)
        },
    }
}

/// Answers ban gossip: an accepted message bans the subject (a ban overrides
/// trust) and disconnects it if it is connected; the answer is then 200.
pub fn handle_ban(registry: &mut PeerRegistry, req: &TrustReq) -> (r: Result<u16, NetworkError>)
    requires
        old(registry).wf(),
    ensures
        final(registry).wf(),
        ({
            let id = req.origin_device_id@;
            let subject = req.subject_device_id@;
            let before = *old(registry);
            let after = *final(registry);
            &&& !gossip_accepted(before, id, AadKind::Ban, req.seq) ==> r == gossip_refusal(before, id)
                && same_registry(before, after)
            &&& gossip_accepted(before, id, AadKind::Ban, req.seq) ==> r == Ok::<u16, NetworkError>(200)
                && after.peers() == record_seq(before.peers(), id, AadKind::Ban, req.seq).remove(subject)
                && after.approved_ids() == before.approved_ids().remove(subject) && after.banned_ids()
                == before.banned_ids().insert(subject) && (before.peers().contains_key(subject) ==> after.pool()
                == before.pool().remove(subject)) && (!before.peers().contains_key(subject) ==> after.pool()
                == before.pool())
        }),
{
    match check_gossip_origin(registry, &req.origin_device_id, AadKind::Ban, req.seq) {
        Some(r) => r,
        None => {
            registry.ban(&req.subject_device_id);
            Ok(200)
        },
    }
}

/// Answers an approval forward: 403 for an unknown origin, 200 for a
/// replay; otherwise the number is recorded, the newcomer's name sanitised,
/// and the answer is 503 (approval prompts are not implemented yet).
pub fn handle_approval_forward(registry: &mut PeerRegistry, req: &ApprovalForwardReq) -> (r: Result<
    u16,
    NetworkError,
>)
    requires
        old(registry).wf(),
    ensures
        final(registry).wf(),
        ({
            let id = req.origin_device_id@;
            let before = *old(registry);
            let after = *final(registry);
            &&& !before.peers().contains_key(id) ==> r == Err::<u16, NetworkError>(NetworkError::NotInPeers)
                && same_registry(before, after)
            &&& before.peers().contains_key(id) && !seq_is_new(before.peers()[id], AadKind::Approval, req.seq)
                ==> r == Ok::<u16, NetworkError>(200) && same_registry(before, after)
            &&& before.peers().contains_key(id) && seq_is_new(before.peers()[id], AadKind::Approval, req.seq)
                ==> r == Ok::<u16, NetworkError>(503) && after.peers() == record_seq(
                before.peers(),
                id,
                AadKind::Approval,
                req.seq,
            ) && after.approved_ids() == before.approved_ids() && after.banned_ids() == before.banned_ids()
                && after.pool() == before.pool()
        }),
{
    if !registry.is_known(&req.origin_device_id) {
        return Err(NetworkError::NotInPeers);
    }
    if !registry.seen_seq_and_update(&req.origin_device_id, AadKind::Approval, req.seq) {
        return Ok(200);
    }
    let _safe_name = sanitize_device_name(&req.newcomer_name);
    Ok(503)
}

/// Answers an approval decision: 403 for an unknown origin, otherwise 503
/// (approval prompts are not implemented yet). Nothing changes.
pub fn handle_approval_decide(registry: &PeerRegistry, req: &ApprovalDecideReq) -> (r: Result<u16, NetworkError>)
    requires
        registry.wf(),
    ensures
        r == (if registry.peers().contains_key(req.origin_device_id@) {
            Ok::<u16, NetworkError>(503)
        } else {
            Err::<u16, NetworkError>(NetworkError::NotInPeers)
        }),
{
    if !registry.is_known(&req.origin_device_id) {
        return Err(NetworkError::NotInPeers);
    }
    Ok(503)
}

/// Answers an approval dismissal: 403 for an unknown origin, otherwise 503
/// (approval prompts are not implemented yet). Nothing changes.
pub fn handle_approval_dismiss(registry: &PeerRegistry, req: &ApprovalDismissReq) -> (r: Result<u16, NetworkError>)
    requires
        registry.wf(),
    ensures
        r == (if registry.peers().contains_key(req.origin_device_id@) {
            Ok::<u16, NetworkError>(503)
        } else {
            Err::<u16, NetworkError>(NetworkError::NotInPeers)
        }),
{
    if !registry.is_known(&req.origin_device_id) {
        return Err(NetworkError::NotInPeers);
    }
    Ok(503)
}

/// What an accepted announcement asks for (answered 200 either way).
#[derive(Debug, Clone)]
pub enum AnnounceOutcome {
    /// The new member is already connected: nothing to do.
    AlreadyKnown,
    /// Dial the new member (a handshake in the background).
    Dial { device_id: String, addr: SocketAddress },
}

/// Answers an announcement of a new group member: 403 unless the announcer
/// is approved, the member is not this device and not banned; a connected
/// member needs nothing, any other is to be dialled. Nothing changes here.
pub fn handle_peers_announce(registry: &PeerRegistry, my_device_id: &str, req: &GossipAnnouncePayload) -> (r:
    Result<AnnounceOutcome, NetworkError>)
    requires
        registry.wf(),
    ensures
        !registry.approved_ids().contains(req.origin_device_id@) ==> r == Err::<AnnounceOutcome, NetworkError>(
            NetworkError::NotInPeers,
        ),
        registry.approved_ids().contains(req.origin_device_id@) && req.device_id@ == my_device_id@ ==> r == Err::<
            AnnounceOutcome,
            NetworkError,
        >(NetworkError::DeviceIdConflict),
        registry.approved_ids().contains(req.origin_device_id@) && req.device_id@ != my_device_id@
            && registry.banned_ids().contains(req.device_id@) ==> r == Err::<AnnounceOutcome, NetworkError>(
            NetworkError::Banned,
        ),
        registry.approved_ids().contains(req.origin_device_id@) && req.device_id@ != my_device_id@
            && !registry.banned_ids().contains(req.device_id@) && registry.peers().contains_key(req.device_id@)
            ==> r == Ok::<AnnounceOutcome, NetworkError>(AnnounceOutcome::AlreadyKnown),
        registry.approved_ids().contains(req.origin_device_id@) && req.device_id@ != my_device_id@
            && !registry.banned_ids().contains(req.device_id@) && !registry.peers().contains_key(req.device_id@)
            ==> (r matches Ok(AnnounceOutcome::Dial { device_id, addr }) && device_id@ == req.device_id@ && addr
            == req.addr),
{
    if !registry.is_approved(&req.origin_device_id) {
        return Err(NetworkError::NotInPeers);
    }
    let mine = my_device_id.to_owned();
    if req.device_id == mine {
        return Err(NetworkError::DeviceIdConflict);
    }
    if registry.is_banned(&req.device_id) {
        return Err(NetworkError::Banned);
    }
    if registry.is_known(&req.device_id) {
        return Ok(AnnounceOutcome::AlreadyKnown);
    }
    Ok(AnnounceOutcome::Dial { device_id: req.device_id.clone(), addr: req.addr })
}

} // verus!
