//! The client side of the protocol: what is sent to whom, and what a reply
//! does to the registry. The requests themselves (HTTP, timeouts, tasks)
//! belong to the program's runtime.
use vstd::prelude::*;
use crate::addr::SocketAddress;
use crate::app::client_pool::build_no_proxy_client;
use crate::crypto::aes_gcm::{aead_max_len, decrypt_spec};
use crate::crypto::x25519::{dialled_key, public_of, pubkey_from_b64_spec, X25519Secret};
use crate::crypto::{aad_spec, build_aad, AadKind, AesGcmSealer, KeyExchange, Sealer, X25519KeyExchange};
use crate::keyed::{has_key, index_of_key, key_unique, keyed_map, lemma_keyed_empty, lemma_keyed_push};
use crate::network::handlers::handshake::{gossip_stubs, gossip_view, stubs_view, stub_key};
use crate::network::protocol::{ClipboardReq, GossipAnnouncePayload, HandshakeReq, HandshakeResp, HeartbeatReq, LeaveReq, PeerStub};
use crate::peer::sanitize::{device_name_spec, sanitize_device_name};
use crate::peer::{after_send_fail, after_send_ok, peer_key, pool_matches, same_registry, PeerRegistry, PeerState, SeenSeqs, TrustState};

verus! {

/// Time allowed for a handshake request (ms).
pub const HANDSHAKE_TIMEOUT_MS: u64 = 5000;

/// Time allowed per peer for a leave notice (ms).
pub const LEAVE_PER_PEER_TIMEOUT_MS: u64 = 1500;

/// Time allowed per peer for a clipboard broadcast (ms).
pub const BROADCAST_TIMEOUT_MS: u64 = 3000;

/// Most unknown peers dialled from one handshake reply.
pub const GOSSIP_MAX_CONCURRENT: usize = 3;

/// Time allowed for a handshake with a peer learnt from gossip (ms).
pub const GOSSIP_HANDSHAKE_TIMEOUT_MS: u64 = 5000;

/// Time allowed per peer for an announcement (ms).
pub const ANNOUNCE_PER_PEER_TIMEOUT_MS: u64 = 1500;

/// Time allowed for a heartbeat ping (ms).
pub const PING_TIMEOUT_MS: u64 = 2000;

/// The `kind` label of a clipboard message.
pub open spec fn kind_label(kind: AadKind) -> Seq<char> {
    if kind == AadKind::ImagePng {
        "image_png"@
    } else {
        "text"@
    }
}

/// One clipboard request to send.
#[derive(Debug, Clone)]
pub struct OutgoingClipboard {
    pub peer_id: String,
    pub addr: SocketAddress,
    pub body: ClipboardReq,
}

/// The key of an outgoing request: the peer it goes to.
pub open spec fn outgoing_key(o: OutgoingClipboard) -> Seq<char> {
    o.peer_id@
}

/// `o` is a correct clipboard request for peer state `p`: to its address, from
/// `my_id`, numbered `seq`, labelled with `kind`, and decrypting with `p`'s key
/// under the AAD of (kind, my_id, seq) to `plaintext`.
pub open spec fn outgoing_ok(o: OutgoingClipboard, p: PeerState, kind: AadKind, plaintext: Seq<u8>, seq: u64, my_id: Seq<char>) -> bool {
    &&& o.peer_id@ == p.device_id@
    &&& o.addr == p.addr
    &&& o.body.origin_device_id@ == my_id
    &&& o.body.seq == seq
    &&& o.body.kind@ == kind_label(kind)
    &&& !o.body.is_snapshot
    &&& decrypt_spec(p.aes_key@, o.body.nonce_b64@, o.body.ciphertext_b64@, aad_spec(kind, my_id, seq))
        == Ok::<Seq<u8>, crate::crypto::SealError>(plaintext)
}

/// The peer map `m` after one more send failure was counted for each of its
/// approved peers whose id is in `done`.
pub open spec fn sends_failed(m: Map<Seq<char>, PeerState>, done: Set<Seq<char>>) -> Map<Seq<char>, PeerState> {
    Map::new(
        |k: Seq<char>| m.contains_key(k),
        |k: Seq<char>|
            if done.contains(k) && m[k].trust_state == TrustState::Approved {
                after_send_fail(m[k])
            } else {
                m[k]
            },
    )
}

/// Encrypts `plaintext` for every approved peer. A peer for which encryption
/// fails (only possible past the AES-GCM size limit) gets a send failure
/// counted instead of a request. Within the limit every approved peer gets
/// exactly one request and the registry is unchanged; past it no request is
/// made and every approved peer has one more send failure.
pub fn prepare_clipboard_broadcast(
    registry: &mut PeerRegistry,
    kind: AadKind,
    plaintext: &[u8],
    seq: u64,
    my_device_id: &str,
) -> (r: Vec<OutgoingClipboard>)
    requires
        old(registry).wf(),
        kind == AadKind::Text || kind == AadKind::ImagePng,
    ensures
        final(registry).wf(),
        final(registry).approved_ids() == old(registry).approved_ids(),
        final(registry).banned_ids() == old(registry).banned_ids(),
        final(registry).pool() == old(registry).pool(),
        final(registry).peers().dom() == old(registry).peers().dom(),
        key_unique(r@, |o: OutgoingClipboard| outgoing_key(o)),
        forall|i: int| 0 <= i < r@.len() ==> old(registry).peers().contains_key(#[trigger] r@[i].peer_id@)
            && old(registry).peers()[r@[i].peer_id@].trust_state == TrustState::Approved && outgoing_ok(
            r@[i],
            old(registry).peers()[r@[i].peer_id@],
            kind,
            plaintext@,
            seq,
            my_device_id@,
        ),
        (plaintext@.len() <= aead_max_len() && aad_spec(kind, my_device_id@, seq).len() <= aead_max_len()) ==> (
        final(registry).peers() == old(registry).peers() && keyed_map(r@, |o: OutgoingClipboard| outgoing_key(o)).dom()
            == gossip_view(old(registry).peers(), None).dom()),
        !(plaintext@.len() <= aead_max_len() && aad_spec(kind, my_device_id@, seq).len() <= aead_max_len()) ==> (
        r@.len() == 0 && final(registry).peers() == sends_failed(old(registry).peers(), old(registry).peers().dom())),
{
    let snap = registry.snapshot();
    let ghost pk = |p: PeerState| peer_key(p);
    let ghost ok = |o: OutgoingClipboard| outgoing_key(o);
    let ghost all = snap@;
    let ghost m = old(registry).peers();
    let ghost fits = plaintext@.len() <= aead_max_len() && aad_spec(kind, my_device_id@, seq).len() <= aead_max_len();
    let n = snap.len();
    let mut out: Vec<OutgoingClipboard> = Vec::new();
    let sealer = AesGcmSealer;
    proof {
        lemma_keyed_empty(out@, ok);
        assert(keyed_map(out@, ok).dom() =~= gossip_view(keyed_map(all.take(0), pk), None).dom());
        lemma_keyed_empty(all.take(0), pk);
        assert(sends_failed(m, keyed_map(all.take(0), pk).dom()) =~= m);
    }
    let mut i: usize = 0;
    while i < n
        invariant
            n == all.len(),
            all == snap@,
            i <= n,
            key_unique(all, pk),
            keyed_map(all, pk) == m,
            pk == (|p: PeerState| peer_key(p)),
            ok == (|o: OutgoingClipboard| outgoing_key(o)),
            kind == AadKind::Text || kind == AadKind::ImagePng,
            registry.wf(),
            registry.approved_ids() == old(registry).approved_ids(),
            registry.banned_ids() == old(registry).banned_ids(),
            registry.pool() == old(registry).pool(),
            registry.peers().dom() == m.dom(),
            fits == (plaintext@.len() <= aead_max_len() && aad_spec(kind, my_device_id@, seq).len() <= aead_max_len()),
            fits ==> registry.peers() == m,
            !fits ==> out@.len() == 0 && registry.peers() == sends_failed(m, keyed_map(all.take(i as int), pk).dom()),
            fits ==> keyed_map(out@, ok).dom() == gossip_view(keyed_map(all.take(i as int), pk), None).dom(),
            key_unique(out@, ok),
            forall|j: int| 0 <= j < out@.len() ==> has_key(all.take(i as int), pk, #[trigger] out@[j].peer_id@),
            forall|j: int| 0 <= j < out@.len() ==> m.contains_key(#[trigger] out@[j].peer_id@)
                && m[out@[j].peer_id@].trust_state == TrustState::Approved && outgoing_ok(
                out@[j],
                m[out@[j].peer_id@],
                kind,
                plaintext@,
                seq,
                my_device_id@,
            ),
        decreases n - i,
    {
        let p = &snap[i];
        let ghost before = all.take(i as int);
        let ghost after = all.take(i + 1);
        proof {
            assert(after == before.push(all[i as int]));
            assert forall|a: int, b: int|
                0 <= a < before.len() && 0 <= b < before.len() && #[trigger] pk(before[a]) == #[trigger] pk(before[b])
                implies a == b by {
                assert(before[a] == all[a] && before[b] == all[b]);
            }
            if has_key(before, pk, pk(all[i as int])) {
                let j = index_of_key(before, pk, pk(all[i as int]));
                assert(before[j] == all[j]);
            }
            lemma_keyed_push(before, pk, all[i as int]);
            crate::keyed::lemma_keyed_index(all, pk, i as int);
        }
        if p.trust_state == TrustState::Approved {
            let aad = build_aad(kind, my_device_id, seq);
            match sealer.encrypt(&p.aes_key, plaintext, aad.as_slice()) {
                Ok((nonce_b64, ciphertext_b64)) => {
                    let label = if kind == AadKind::ImagePng {
                        "image_png".to_owned()
                    } else {
                        "text".to_owned()
                    };
                    let body = ClipboardReq {
                        origin_device_id: my_device_id.to_owned(),
                        seq,
                        kind: label,
                        nonce_b64,
                        ciphertext_b64,
                        is_snapshot: false,
                    };
                    let item = OutgoingClipboard { peer_id: p.device_id.clone(), addr: p.addr, body };
                    let ghost o0 = out@;
                    proof {
                        if has_key(out@, ok, item.peer_id@) {
                            let j = index_of_key(out@, ok, item.peer_id@);
                            assert(has_key(before, pk, out@[j].peer_id@));
                            let k = index_of_key(before, pk, out@[j].peer_id@);
                            assert(before[k] == all[k]);
                        }
                        lemma_keyed_push(out@, ok, item);
                    }
                    out.push(item);
                    proof {
                        if fits {
                            assert(keyed_map(out@, ok).dom() =~= gossip_view(keyed_map(after, pk), None).dom());
                        }
                        assert forall|j: int| 0 <= j < out@.len() implies has_key(after, pk, #[trigger] out@[j].peer_id@) by {
                            if j < o0.len() {
                                let k = index_of_key(before, pk, out@[j].peer_id@);
                                assert(after[k] == before[k]);
                            } else {
                                assert(after[i as int] == all[i as int]);
                            }
                        }
                    }
                },
                Err(_) => {
                    let ghost d = keyed_map(before, pk).dom();
                    let _ = registry.record_send_fail(&p.device_id);
                    proof {
                        assert(keyed_map(after, pk).dom() =~= d.insert(p.device_id@));
                        assert(registry.peers() =~= sends_failed(m, d.insert(p.device_id@)));
                        assert forall|j: int| 0 <= j < out@.len() implies has_key(after, pk, #[trigger] out@[j].peer_id@) by {
                            let k = index_of_key(before, pk, out@[j].peer_id@);
                            assert(after[k] == before[k]);
                        }
                    }
                },
            }
        } else {
            proof {
                if fits {
                    assert(keyed_map(out@, ok).dom() =~= gossip_view(keyed_map(after, pk), None).dom());
                } else {
                    let d = keyed_map(before, pk).dom();
                    assert(keyed_map(after, pk).dom() =~= d.insert(p.device_id@));
                    assert(sends_failed(m, d.insert(p.device_id@)) =~= sends_failed(m, d));
                }
                assert forall|j: int| 0 <= j < out@.len() implies has_key(after, pk, #[trigger] out@[j].peer_id@) by {
                    let k = index_of_key(before, pk, out@[j].peer_id@);
                    assert(after[k] == before[k]);
                }
            }
        }
        i = i + 1;
    }
    proof {
        assert(all.take(n as int) =~= all);
    }
    out
}

/// Whether a clipboard request reached its peer: it was answered with a 2xx
/// status (`None`: no client, no answer in time, or a transport error).
pub open spec fn delivered(status: Option<u16>) -> bool {
    status matches Some(code) && 200 <= code <= 299
}

/// Records the outcome of one clipboard request to `peer_id`: a delivered
/// request counts as a successful sync (failures reset, time stamped), any
/// other outcome as one more send failure. An unknown peer is left alone.
pub fn record_delivery(registry: &mut PeerRegistry, peer_id: &str, status: Option<u16>)
    requires
        old(registry).wf(),
    ensures
        final(registry).wf(),
        final(registry).approved_ids() == old(registry).approved_ids(),
        final(registry).banned_ids() == old(registry).banned_ids(),
        final(registry).pool() == old(registry).pool(),
        delivered(status) && old(registry).peers().contains_key(peer_id@) ==> exists|now: u64|
            final(registry).peers() == old(registry).peers().insert(
                peer_id@,
                #[trigger] after_send_ok(old(registry).peers()[peer_id@], now),
            ),
        !delivered(status) && old(registry).peers().contains_key(peer_id@) ==> final(registry).peers()
            == old(registry).peers().insert(peer_id@, after_send_fail(old(registry).peers()[peer_id@])),
        !old(registry).peers().contains_key(peer_id@) ==> final(registry).peers() == old(registry).peers(),
{
    let ok = match status {
        Some(code) => 200 <= code && code <= 299,
        None => false,
    };
    if ok {
        registry.record_send_ok(peer_id);
    } else {
        let _ = registry.record_send_fail(peer_id);
    }
}

/// The leave notice and the approved peers it goes to (best effort, on
/// shutdown).
pub fn prepare_leave(registry: &PeerRegistry, my_device_id: &str, seq: u64) -> (r: (LeaveReq, Vec<PeerStub>))
    requires
        registry.wf(),
    ensures
        r.0.origin_device_id@ == my_device_id@,
        r.0.seq == seq,
        key_unique(r.1@, |s: PeerStub| stub_key(s)),
        stubs_view(r.1@) == gossip_view(registry.peers(), None),
{
    let body = LeaveReq { origin_device_id: my_device_id.to_owned(), seq };
    let targets = gossip_stubs(registry, None);
    (body, targets)
}

/// The announcement of a new member and the approved peers it goes to (all
/// but the new member).
pub fn prepare_announce(
    registry: &PeerRegistry,
    new_peer_id: &str,
    new_peer_addr: SocketAddress,
    my_device_id: &str,
) -> (r: (GossipAnnouncePayload, Vec<PeerStub>))
    requires
        registry.wf(),
    ensures
        r.0.device_id@ == new_peer_id@,
        r.0.addr == new_peer_addr,
        r.0.origin_device_id@ == my_device_id@,
        key_unique(r.1@, |s: PeerStub| stub_key(s)),
        stubs_view(r.1@) == gossip_view(registry.peers(), Some(new_peer_id@)),
{
    let id = new_peer_id.to_owned();
    let targets = gossip_stubs(registry, Some(&id));
    let body = GossipAnnouncePayload {
        device_id: id,
        addr: new_peer_addr,
        origin_device_id: my_device_id.to_owned(),
    };
    (body, targets)
}

/// The heartbeat request (number 0: heartbeats are not deduplicated).
pub fn ping_request(my_device_id: &str) -> (r: HeartbeatReq)
    ensures
        r.origin_device_id@ == my_device_id@,
        r.seq == 0,
{
    HeartbeatReq { origin_device_id: my_device_id.to_owned(), seq: 0 }
}

/// Why dialling a peer did not end with it stored.
#[derive(Debug, Clone, Copy, PartialEq, Eq, Structural)]
pub enum DialError {
    /// The reply carries this device's own id.
    SelfDial,
    /// The peer is banned.
    Banned,
    /// The peer is already connected (gossip dials only).
    AlreadyKnown,
    /// The peer's public key is not 32 bytes of base64.
    InvalidPubkey,
    /// Key derivation failed.
    KeyDerivation,
    /// No HTTP client could be built.
    ClientBuild,
}

impl DialError {
    /// A message for the log.
    pub fn message(&self) -> (r: &'static str)
        ensures
            *self is SelfDial ==> r@ == "peer returned our own device_id"@,
            *self is Banned ==> r@ == "peer is banned"@,
            *self is AlreadyKnown ==> r@ == "peer already known"@,
            *self is InvalidPubkey ==> r@ == "invalid peer pubkey"@,
            *self is KeyDerivation ==> r@ == "key derivation failed"@,
            *self is ClientBuild ==> r@ == "client build failed"@,
    {
        match self {
            DialError::SelfDial => "peer returned our own device_id",
            DialError::Banned => "peer is banned",
            DialError::AlreadyKnown => "peer already known",
            DialError::InvalidPubkey => "invalid peer pubkey",
            DialError::KeyDerivation => "key derivation failed",
            DialError::ClientBuild => "client build failed",
        }
    }
}

/// A fresh key pair and the handshake request that carries its public key.
pub fn begin_dial(my_device_id: &str, my_device_name: &str, my_listen_port: u16) -> (r: (
    X25519Secret,
    HandshakeReq,
))
    ensures
        r.1.device_id@ == my_device_id@,
        r.1.device_name@ == my_device_name@,
        r.1.listen_port == my_listen_port,
        r.0@.len() == 32,
        pubkey_from_b64_spec(r.1.pubkey_b64@) == Ok::<Seq<u8>, crate::crypto::KeyExchangeError>(public_of(r.0@)),
{
    let (secret, pubkey) = X25519KeyExchange::new_ephemeral();
    let pubkey_b64 = X25519KeyExchange::pubkey_to_b64(&pubkey);
    let req = HandshakeReq {
        device_id: my_device_id.to_owned(),
        device_name: my_device_name.to_owned(),
        pubkey_b64,
        listen_port: my_listen_port,
    };
    (secret, req)
}

/// The state a successful dial stores for the replying peer, but for its key:
/// its id, its sanitised name (empty when it sent none), the dialled address,
/// its public key, Approved, and nothing counted or seen yet.
pub open spec fn dialed_state(st: PeerState, resp: HandshakeResp, target: SocketAddress) -> bool {
    &&& st.device_id@ == resp.device_id@
    &&& st.device_name@ == device_name_spec(
        match resp.device_name {
            Some(n) => n@,
            None => Seq::empty(),
        },
    )
    &&& st.addr == target
    &&& st.pubkey_b64@ == resp.pubkey_b64@
    &&& st.last_successful_sync_at is None
    &&& st.last_heartbeat_at is None
    &&& st.consecutive_heartbeat_failures == 0
    &&& st.consecutive_send_failures == 0
    &&& st.trust_state == TrustState::Approved
    &&& forall|k: AadKind| #[trigger] st.last_seen_seq_by_kind.last_seen(k) is None
}

/// The last step of a dial whose reply passed the checks, once `aes_key` was
/// derived: `built` is the outcome of building the peer's HTTP client. A
/// failed build is `ClientBuild` and changes nothing; otherwise the client
/// goes into the pool and the peer is stored with `aes_key` (see
/// `dialed_state`) and approved.
pub fn accept_dialed_peer(
    registry: &mut PeerRegistry,
    target_addr: SocketAddress,
    resp: &HandshakeResp,
    aes_key: [u8; 32],
    built: Result<reqwest::Client, reqwest::Error>,
) -> (r: Result<(), DialError>)
    requires
        old(registry).wf(),
    ensures
        final(registry).wf(),
        ({
            let id = resp.device_id@;
            let before = *old(registry);
            let after = *final(registry);
            &&& built is Err ==> r == Err::<(), DialError>(DialError::ClientBuild) && same_registry(before, after)
            &&& (built matches Ok(c) ==> {
                &&& r is Ok
                &&& after.peers().contains_key(id)
                &&& dialed_state(after.peers()[id], *resp, target_addr)
                &&& after.peers()[id].aes_key == aes_key
                &&& after.peers() == before.peers().insert(id, after.peers()[id])
                &&& after.approved_ids() == before.approved_ids().insert(id)
                &&& after.banned_ids() == before.banned_ids().remove(id)
                &&& after.pool() == before.pool().insert(id, c)
            })
        }),
{
    let pool_client = match built {
        Ok(c) => c,
        Err(_) => return Err(DialError::ClientBuild),
    };
    let name = match &resp.device_name {
        Some(n) => sanitize_device_name(n.as_str()),
        None => sanitize_device_name(""),
    };
    let peer_state = PeerState {
        device_id: resp.device_id.clone(),
        device_name: name,
        addr: target_addr,
        pubkey_b64: resp.pubkey_b64.clone(),
        aes_key,
        last_successful_sync_at: None,
        last_heartbeat_at: None,
        consecutive_heartbeat_failures: 0,
        consecutive_send_failures: 0,
        trust_state: TrustState::Approved,
        last_seen_seq_by_kind: SeenSeqs::new(),
    };
    let ghost st = peer_state;
    registry.insert_client(&resp.device_id, pool_client);
    registry.insert(peer_state);
    registry.approve(&resp.device_id);
    proof {
        reveal_strlit("");
        assert(registry.peers()[resp.device_id@] == st);
        assert(registry.peers() =~= old(registry).peers().insert(resp.device_id@, st));
    }
    Ok(())
}

/// Stores the replying peer of a dial: refuses this device's own id and a
/// banned peer (and, for a gossip dial, a peer already connected), parses its
/// key, derives the shared AES key, builds its client, stores and approves it
/// (`accept_dialed_peer`). Each refusal comes exactly on its own condition;
/// this device's own id is never stored.
fn store_dialed_peer(
    registry: &mut PeerRegistry,
    my_device_id: &str,
    target_addr: SocketAddress,
    secret: X25519Secret,
    resp: &HandshakeResp,
    skip_known: bool,
) -> (r: Result<(), DialError>)
    requires
        old(registry).wf(),
    ensures
        final(registry).wf(),
        dial_outcome(*old(registry), *final(registry), my_device_id@, secret@, target_addr, *resp, skip_known, r),
{
    let mine = my_device_id.to_owned();
    if resp.device_id == mine {
        secret.discard();
        return Err(DialError::SelfDial);
    }
    if registry.is_banned(&resp.device_id) {
        secret.discard();
        return Err(DialError::Banned);
    }
    if skip_known && registry.is_known(&resp.device_id) {
        secret.discard();
        return Err(DialError::AlreadyKnown);
    }
    let their_pubkey = match X25519KeyExchange::pubkey_from_b64(&resp.pubkey_b64) {
        Ok(k) => k,
        Err(_) => {
            secret.discard();
            return Err(DialError::InvalidPubkey);
        },
    };
    let aes_key = match X25519KeyExchange::derive_aes_key(secret, &their_pubkey) {
        Ok(k) => k,
        Err(_) => return Err(DialError::KeyDerivation),
    };
    let built = build_no_proxy_client();
    let r = accept_dialed_peer(registry, target_addr, resp, aes_key, built);
    proof {
        assert(old(registry).banned_ids().remove(resp.device_id@) =~= old(registry).banned_ids());
        if r is Ok {
            assert(registry.pool().dom() =~= old(registry).pool().dom().insert(resp.device_id@));
            assert(registry.peers().dom() =~= old(registry).peers().dom().insert(resp.device_id@));
        }
    }
    r
}

/// What a dial that got the reply `resp` did, from `before` to `after` with
/// result `r` (`skip_known`: a gossip dial, which leaves a connected peer
/// alone). Each error comes exactly when its check is the first to fail:
/// `SelfDial` for this device's id, `Banned`, `AlreadyKnown`, `InvalidPubkey`
/// for a key that is not 32 bytes of base64; past the checks only key
/// derivation or the client build can fail. A refused dial changes nothing; a
/// successful one stores the peer with a derived key, approves it and gives
/// it a client, and never stores this device's own id.
pub open spec fn dial_outcome(
    before: PeerRegistry,
    after: PeerRegistry,
    my_id: Seq<char>,
    secret: Seq<u8>,
    target_addr: SocketAddress,
    resp: HandshakeResp,
    skip_known: bool,
    r: Result<(), DialError>,
) -> bool {
    let id = resp.device_id@;
    let banned = before.banned_ids().contains(id);
    let skipped = skip_known && before.peers().contains_key(id);
    let key_ok = pubkey_from_b64_spec(resp.pubkey_b64@) is Ok;
    &&& id == my_id ==> r == Err::<(), DialError>(DialError::SelfDial)
    &&& id != my_id && banned ==> r == Err::<(), DialError>(DialError::Banned)
    &&& id != my_id && !banned && skipped ==> r == Err::<(), DialError>(DialError::AlreadyKnown)
    &&& id != my_id && !banned && !skipped && !key_ok ==> r == Err::<(), DialError>(DialError::InvalidPubkey)
    &&& (r matches Err(e) ==> {
        &&& (e is SelfDial <==> id == my_id)
        &&& e is Banned ==> id != my_id && banned
        &&& e is AlreadyKnown ==> id != my_id && !banned && skipped
        &&& e is InvalidPubkey ==> id != my_id && !banned && !skipped && !key_ok
        &&& e is KeyDerivation || e is ClientBuild ==> id != my_id && !banned && !skipped && key_ok
    })
    &&& r is Err ==> same_registry(before, after)
    &&& r is Ok ==> {
        &&& id != my_id && !banned && !skipped && key_ok
        &&& after.peers().contains_key(id) && dialed_state(after.peers()[id], resp, target_addr)
        &&& dialled_key(after.peers()[id].aes_key@, secret, resp.pubkey_b64@)
        &&& after.peers() == before.peers().insert(id, after.peers()[id])
        &&& after.approved_ids() == before.approved_ids().insert(id)
        &&& after.banned_ids() == before.banned_ids()
        &&& after.pool().dom() == before.pool().dom().insert(id)
    }
    &&& !before.peers().contains_key(my_id) ==> !after.peers().contains_key(my_id)
    &&& pool_matches(before) ==> pool_matches(after)
}

/// The unknown peers of a reply to dial next: those of `stubs`, in order,
/// that are neither this device nor connected, at most 3.
pub open spec fn gossip_candidates(stubs: Seq<PeerStub>, my_id: Seq<char>, m: Map<Seq<char>, PeerState>) -> Seq<
    PeerStub,
> {
    let f = stubs.filter(|s: PeerStub| s.device_id@ != my_id && !m.contains_key(s.device_id@));
    if f.len() <= GOSSIP_MAX_CONCURRENT {
        f
    } else {
        f.take(GOSSIP_MAX_CONCURRENT as int)
    }
}

/// Finishes a dial with the peer's reply (see `dial_outcome`; a peer
/// already connected is stored again). Returns the unknown peers named in
/// the reply to dial next; the caller then announces the new peer to the
/// others.
pub fn complete_dial(
    registry: &mut PeerRegistry,
    my_device_id: &str,
    target_addr: SocketAddress,
    secret: X25519Secret,
    resp: &HandshakeResp,
) -> (r: Result<Vec<PeerStub>, DialError>)
    requires
        old(registry).wf(),
    ensures
        final(registry).wf(),
        dial_outcome(
            *old(registry),
            *final(registry),
            my_device_id@,
            secret@,
            target_addr,
            *resp,
            false,
            match r {
                Ok(_) => Ok::<(), DialError>(()),
                Err(e) => Err::<(), DialError>(e),
            },
        ),
        r matches Ok(cands) ==> cands@ == gossip_candidates(resp.peers@, my_device_id@, final(registry).peers()),
{
    match store_dialed_peer(registry, my_device_id, target_addr, secret, resp, false) {
        Ok(()) => {},
        Err(e) => return Err(e),
    }
    let ghost m = registry.peers();
    let ghost pred = |s: PeerStub| s.device_id@ != my_device_id@ && !m.contains_key(s.device_id@);
    let ghost stubs = resp.peers@;
    let mine = my_device_id.to_owned();
    let mut out: Vec<PeerStub> = Vec::new();
    let n = resp.peers.len();
    let mut i: usize = 0;
    proof {
        reveal(Seq::filter);
        assert(stubs.take(0).filter(pred) =~= Seq::<PeerStub>::empty());
    }
    while i < n && out.len() < GOSSIP_MAX_CONCURRENT
        invariant
            n == stubs.len(),
            stubs == resp.peers@,
            i <= n,
            registry.wf(),
            registry.peers() == m,
            mine@ == my_device_id@,
            pred == (|s: PeerStub| s.device_id@ != my_device_id@ && !m.contains_key(s.device_id@)),
            out@ == stubs.take(i as int).filter(pred),
            out@.len() <= GOSSIP_MAX_CONCURRENT,
        decreases n - i,
    {
        let s = &resp.peers[i];
        proof {
            reveal(Seq::filter);
            assert(stubs.take(i + 1).drop_last() =~= stubs.take(i as int));
            assert(stubs.take(i + 1).last() == stubs[i as int]);
        }
        if s.device_id != mine && !registry.is_known(&s.device_id) {
            out.push(PeerStub { device_id: s.device_id.clone(), addr: s.addr });
        }
        i = i + 1;
    }
    proof {
        let f = stubs.filter(pred);
        lemma_filter_prefix(stubs, pred, i as int);
        if out@.len() < GOSSIP_MAX_CONCURRENT {
            assert(i == n);
            assert(stubs.take(n as int) =~= stubs);
        } else {
            assert(out@ =~= f.take(GOSSIP_MAX_CONCURRENT as int));
        }
    }
    Ok(out)
}

/// The filter of a prefix is a prefix of the filter.
proof fn lemma_filter_prefix(s: Seq<PeerStub>, p: spec_fn(PeerStub) -> bool, i: int)
    requires
        0 <= i <= s.len(),
    ensures
        s.take(i).filter(p).len() <= s.filter(p).len(),
        s.take(i).filter(p) == s.filter(p).take(s.take(i).filter(p).len() as int),
    decreases s.len() - i,
{
    broadcast use vstd::seq_lib::group_filter_ensures;
    if i < s.len() {
        lemma_filter_prefix(s, p, i + 1);
        reveal(Seq::filter);
        assert(s.take(i + 1).drop_last() =~= s.take(i));
    } else {
        assert(s.take(i) =~= s);
        assert(s.filter(p).take(s.filter(p).len() as int) =~= s.filter(p));
    }
}

/// Whether a gossip dial to `expected_peer_id` is still worth making: not if
/// it is connected or banned by now.
pub fn gossip_precheck(registry: &PeerRegistry, expected_peer_id: &str) -> (r: bool)
    requires
        registry.wf(),
    ensures
        r == (!registry.peers().contains_key(expected_peer_id@) && !registry.banned_ids().contains(expected_peer_id@)),
{
    !registry.is_known(expected_peer_id) && !registry.is_banned(expected_peer_id)
}

/// Finishes a dial to a peer learnt from gossip (see `dial_outcome`: a peer
/// connected in the meantime is left alone). Gossip dials do not gossip
/// further.
pub fn complete_gossip_dial(
    registry: &mut PeerRegistry,
    my_device_id: &str,
    target_addr: SocketAddress,
    secret: X25519Secret,
    resp: &HandshakeResp,
) -> (r: Result<(), DialError>)
    requires
        old(registry).wf(),
    ensures
        final(registry).wf(),
        dial_outcome(*old(registry), *final(registry), my_device_id@, secret@, target_addr, *resp, true, r),
{
    store_dialed_peer(registry, my_device_id, target_addr, secret, resp, true)
}

} // verus!
