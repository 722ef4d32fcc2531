//! POST /handshake: a device asks to join.
use vstd::prelude::*;
use crate::addr::{IpAddress, SocketAddress};
use crate::app::client_pool::build_no_proxy_client;
use crate::crypto::x25519::{answered_key, pubkey_from_b64_spec};
use crate::crypto::{KeyExchange, X25519KeyExchange};
use crate::keyed::{has_key, index_of_key, key_unique, keyed_map, lemma_keyed_empty, lemma_keyed_push};
use crate::network::error::NetworkError;
use crate::network::protocol::{HandshakeReq, HandshakeResp, PeerStub};
use crate::peer::rate_limit::{decide, handshake_recorded, RateLimitDecision, RateLimiter};
use crate::peer::sanitize::{device_name_spec, sanitize_device_name};
use crate::peer::{peer_key, pool_matches, same_registry, PeerRegistry, PeerState, SeenSeqs, TrustState};

verus! {

/// The key of a stub: its device id.
pub open spec fn stub_key(s: PeerStub) -> Seq<char> {
    s.device_id@
}

/// The approved peers of `m`, except `exclude`, with their addresses (a
/// handshake reply names them; broadcasts go to them).
pub open spec fn gossip_view(m: Map<Seq<char>, PeerState>, exclude: Option<Seq<char>>) -> Map<
    Seq<char>,
    SocketAddress,
> {
    Map::new(
        |k: Seq<char>| m.contains_key(k) && m[k].trust_state == TrustState::Approved && exclude != Some(k),
        |k: Seq<char>| m[k].addr,
    )
}

/// An optional id as chars.
pub open spec fn opt_view(o: Option<&String>) -> Option<Seq<char>> {
    match o {
        Some(s) => Some(s@),
        None => None,
    }
}

/// A list of stubs read as a map from device id to address.
pub open spec fn stubs_view(v: Seq<PeerStub>) -> Map<Seq<char>, SocketAddress> {
    keyed_map(v, |s: PeerStub| stub_key(s)).map_values(|s: PeerStub| s.addr)
}

/// The approved peers except `exclude`, each once.
pub fn gossip_stubs(registry: &PeerRegistry, exclude: Option<&String>) -> (r: Vec<PeerStub>)
    requires
        registry.wf(),
    ensures
        key_unique(r@, |s: PeerStub| stub_key(s)),
        stubs_view(r@) == gossip_view(registry.peers(), opt_view(exclude)),
{
    let snap = registry.snapshot();
    let ghost pk = |p: PeerState| peer_key(p);
    let ghost sk = |s: PeerStub| stub_key(s);
    let ghost all = snap@;
    let n = snap.len();
    let mut out: Vec<PeerStub> = Vec::new();
    proof {
        lemma_keyed_empty(out@, sk);
        assert(stubs_view(out@) =~= gossip_view(keyed_map(all.take(0), pk), opt_view(exclude)));
    }
    let mut i: usize = 0;
    while i < n
        invariant
            n == all.len(),
            all == snap@,
            i <= n,
            key_unique(all, pk),
            pk == (|p: PeerState| peer_key(p)),
            sk == (|s: PeerStub| stub_key(s)),
            key_unique(out@, sk),
            stubs_view(out@) == gossip_view(keyed_map(all.take(i as int), pk), opt_view(exclude)),
            forall|j: int| 0 <= j < out@.len() ==> has_key(all.take(i as int), pk, #[trigger] out@[j].device_id@),
        decreases n - i,
    {
        let p = &snap[i];
        let ghost before = all.take(i as int);
        let ghost after = all.take(i + 1);
        proof {
            assert(after == before.push(all[i as int]));
            assert forall|a: int, b: int|
                0 <= a < before.len() && 0 <= b < before.len() && #[trigger] pk(before[a]) == #[trigger] pk(before[b])
                implies a == b by {
                assert(before[a] == all[a] && before[b] == all[b]);
            }
            if has_key(before, pk, pk(all[i as int])) {
                let j = index_of_key(before, pk, pk(all[i as int]));
                assert(before[j] == all[j]);
            }
            lemma_keyed_push(before, pk, all[i as int]);
        }
        let excluded = match exclude {
            Some(e) => p.device_id == *e,
            None => false,
        };
        if p.trust_state == TrustState::Approved && !excluded {
            let stub = PeerStub { device_id: p.device_id.clone(), addr: p.addr };
            proof {
                if has_key(out@, sk, stub.device_id@) {
                    let j = index_of_key(out@, sk, stub.device_id@);
                    assert(has_key(before, pk, out@[j].device_id@));
                    let k = index_of_key(before, pk, out@[j].device_id@);
                    assert(before[k] == all[k]);
                    assert(k < i);
                }
                lemma_keyed_push(out@, sk, stub);
            }
            let ghost o0 = out@;
            let ghost st = stub;
            out.push(stub);
            proof {
                let m0 = keyed_map(before, pk);
                let m1 = keyed_map(after, pk);
                assert(m1 == m0.insert(pk(all[i as int]), all[i as int]));
                assert(gossip_view(m1, opt_view(exclude)) =~= gossip_view(m0, opt_view(exclude)).insert(st.device_id@, st.addr));
                assert(keyed_map(out@, sk) == keyed_map(o0, sk).insert(sk(st), st));
                assert(stubs_view(out@) =~= stubs_view(o0).insert(st.device_id@, st.addr));
            }
        } else {
            proof {
                assert(stubs_view(out@) =~= gossip_view(keyed_map(after, pk), opt_view(exclude)));
            }
        }
        proof {
            assert forall|j: int| 0 <= j < out@.len() implies has_key(after, pk, #[trigger] out@[j].device_id@) by {
                if j < out@.len() - 1 || !(p.trust_state == TrustState::Approved && !excluded) {
                    if has_key(before, pk, out@[j].device_id@) {
                        let k = index_of_key(before, pk, out@[j].device_id@);
                        assert(after[k] == before[k]);
                    }
                } else {
                    assert(after[i as int] == all[i as int]);
                }
            }
        }
        i = i + 1;
    }
    proof {
        assert(all.take(n as int) =~= all);
    }
    out
}

/// The state a successful handshake stores for the requester, but for its
/// key: its id, its sanitised name, its IP with its announced port, its
/// public key, Approved, and nothing counted or seen yet.
pub open spec fn handshake_state(st: PeerState, req: HandshakeReq, ip: IpAddress) -> bool {
    &&& st.device_id@ == req.device_id@
    &&& st.device_name@ == device_name_spec(req.device_name@)
    &&& st.addr == (SocketAddress { ip, port: req.listen_port })
    &&& st.pubkey_b64@ == req.pubkey_b64@
    &&& st.last_successful_sync_at is None
    &&& st.last_heartbeat_at is None
    &&& st.consecutive_heartbeat_failures == 0
    &&& st.consecutive_send_failures == 0
    &&& st.trust_state == TrustState::Approved
    &&& forall|k: crate::crypto::AadKind| #[trigger] st.last_seen_seq_by_kind.last_seen(k) is None
}

/// The last step of an accepted handshake, once the requester passed the
/// checks and `aes_key` was derived: `built` is the outcome of building the
/// requester's HTTP client. A failed build answers 500 and changes nothing.
/// Otherwise the client goes into the pool, the requester is stored with
/// `aes_key` (see `handshake_state`) and approved, and the reply carries
/// `my_device_id`, `my_pubkey_b64`, the requester's sanitised name and the
/// other approved peers.
pub fn accept_handshake(
    registry: &mut PeerRegistry,
    my_device_id: &str,
    remote_ip: IpAddress,
    req: &HandshakeReq,
    my_pubkey_b64: String,
    aes_key: [u8; 32],
    built: Result<reqwest::Client, reqwest::Error>,
) -> (r: Result<HandshakeResp, NetworkError>)
    requires
        old(registry).wf(),
    ensures
        final(registry).wf(),
        ({
            let id = req.device_id@;
            let before = *old(registry);
            let after = *final(registry);
            &&& built is Err <==> r is Err
            &&& r matches Err(e) ==> (e matches NetworkError::Internal(m) && m@ == "client build failed"@)
            &&& r is Err ==> same_registry(before, after)
            &&& (built matches Ok(c) ==> {
                &&& after.peers().contains_key(id)
                &&& handshake_state(after.peers()[id], *req, remote_ip)
                &&& after.peers()[id].aes_key == aes_key
                &&& after.peers() == before.peers().insert(id, after.peers()[id])
                &&& after.approved_ids() == before.approved_ids().insert(id)
                &&& after.banned_ids() == before.banned_ids().remove(id)
                &&& after.pool() == before.pool().insert(id, c)
            })
            &&& (r matches Ok(resp) ==> {
                &&& resp.device_id@ == my_device_id@
                &&& resp.pubkey_b64@ == my_pubkey_b64@
                &&& resp.device_name matches Some(n) && n@ == device_name_spec(req.device_name@)
                &&& key_unique(resp.peers@, |s: PeerStub| stub_key(s))
                &&& stubs_view(resp.peers@) == gossip_view(after.peers(), Some(id))
            })
        }),
{
    let pool_client = match built {
        Ok(c) => c,
        Err(_) => return Err(NetworkError::Internal("client build failed".to_owned())),
    };
    let ghost c0 = pool_client;
    let sanitized_name = sanitize_device_name(&req.device_name);
    let peer_state = PeerState {
        device_id: req.device_id.clone(),
        device_name: sanitized_name.clone(),
        addr: SocketAddress::new(remote_ip, req.listen_port),
        pubkey_b64: req.pubkey_b64.clone(),
        aes_key,
        last_successful_sync_at: None,
        last_heartbeat_at: None,
        consecutive_heartbeat_failures: 0,
        consecutive_send_failures: 0,
        trust_state: TrustState::Approved,
        last_seen_seq_by_kind: SeenSeqs::new(),
    };
    let ghost st = peer_state;
    registry.insert_client(&req.device_id, pool_client);
    registry.insert(peer_state);
    registry.approve(&req.device_id);
    proof {
        assert(registry.peers().contains_key(req.device_id@));
        assert(registry.peers()[req.device_id@] == st);
        assert(registry.peers() =~= old(registry).peers().insert(req.device_id@, st));
    }
    let peers = gossip_stubs(registry, Some(&req.device_id));
    Ok(HandshakeResp {
        device_id: my_device_id.to_owned(),
        pubkey_b64: my_pubkey_b64,
        device_name: Some(sanitized_name),
        peers,
    })
}

/// Answers a handshake from `remote_ip` at `now` (ms). In order: 429 when the
/// rate limiter refuses it; 403 when the requester claims this device's id or
/// is banned; 400 when its public key is not 32 bytes of base64; 500 when key
/// derivation or the HTTP client build fails. Otherwise `accept_handshake`
/// stores the requester with a key derived from a fresh X25519 exchange and
/// replies with a fresh public key. The limiter records the attempt as
/// `handshake_recorded` says; this device's own id is never stored.
pub fn handle_handshake(
    my_device_id: &str,
    rate_limiter: &mut RateLimiter,
    registry: &mut PeerRegistry,
    remote_ip: IpAddress,
    req: &HandshakeReq,
    now: u64,
) -> (r: Result<HandshakeResp, NetworkError>)
    requires
        old(rate_limiter).wf(),
        old(registry).wf(),
    ensures
        final(rate_limiter).wf(),
        final(registry).wf(),
        ({
            let id = req.device_id@;
            let before = *old(registry);
            let after = *final(registry);
            let decision = decide(old(rate_limiter).pairs(), old(rate_limiter).global_log(), (remote_ip, id), now);
            let limited = decision == RateLimitDecision::TooManyRequests;
            let banned = before.banned_ids().contains(id);
            let key_ok = pubkey_from_b64_spec(req.pubkey_b64@) is Ok;
            &&& handshake_recorded(*old(rate_limiter), *final(rate_limiter), (remote_ip, id), now, decision)
            &&& limited ==> r == Err::<HandshakeResp, NetworkError>(NetworkError::RateLimited)
            &&& !limited && id == my_device_id@ ==> r == Err::<HandshakeResp, NetworkError>(
                NetworkError::DeviceIdConflict,
            )
            &&& !limited && id != my_device_id@ && banned ==> r == Err::<HandshakeResp, NetworkError>(
                NetworkError::Banned,
            )
            &&& !limited && id != my_device_id@ && !banned && !key_ok ==> (r matches Err(e) && e is BadRequest)
            &&& (r matches Err(e) ==> {
                &&& (e is RateLimited <==> limited)
                &&& e is DeviceIdConflict ==> !limited && id == my_device_id@
                &&& e is Banned ==> !limited && id != my_device_id@ && banned
                &&& e is BadRequest ==> !limited && id != my_device_id@ && !banned && !key_ok
                &&& e is Internal ==> !limited && id != my_device_id@ && !banned && key_ok
                &&& (e is RateLimited || e is DeviceIdConflict || e is Banned || e is BadRequest || e is Internal)
            })
            &&& r is Err ==> same_registry(before, after)
            &&& r is Ok ==> !limited && id != my_device_id@ && !banned && key_ok
            &&& !before.peers().contains_key(my_device_id@) ==> !after.peers().contains_key(my_device_id@)
            &&& pool_matches(before) ==> pool_matches(after)
            &&& (r matches Ok(resp) ==> {
                &&& resp.device_id@ == my_device_id@
                &&& resp.device_name matches Some(n) && n@ == device_name_spec(req.device_name@)
                &&& pubkey_from_b64_spec(resp.pubkey_b64@) is Ok
                &&& key_unique(resp.peers@, |s: PeerStub| stub_key(s))
                &&& stubs_view(resp.peers@) == gossip_view(after.peers(), Some(id))
                &&& after.peers().contains_key(id) && handshake_state(after.peers()[id], *req, remote_ip)
                &&& answered_key(after.peers()[id].aes_key@, req.pubkey_b64@, resp.pubkey_b64@)
                &&& after.peers() == before.peers().insert(id, after.peers()[id])
                &&& after.approved_ids() == before.approved_ids().insert(id)
                &&& after.banned_ids() == before.banned_ids()
                &&& after.pool().dom() == before.pool().dom().insert(id)
            })
        }),
{
    if rate_limiter.check_handshake_at(remote_ip, &req.device_id, now) == RateLimitDecision::TooManyRequests {
        return Err(NetworkError::RateLimited);
    }
    let mine = my_device_id.to_owned();
    if req.device_id == mine {
        return Err(NetworkError::DeviceIdConflict);
    }
    if registry.is_banned(&req.device_id) {
        return Err(NetworkError::Banned);
    }
    let (my_secret, my_pubkey) = X25519KeyExchange::new_ephemeral();
    let my_pubkey_b64 = X25519KeyExchange::pubkey_to_b64(&my_pubkey);
    let their_pubkey = match X25519KeyExchange::pubkey_from_b64(&req.pubkey_b64) {
        Ok(k) => k,
        Err(_) => {
            my_secret.discard();
            return Err(NetworkError::BadRequest("invalid pubkey_b64".to_owned()));
        },
    };
    let aes_key = match X25519KeyExchange::derive_aes_key(my_secret, &their_pubkey) {
        Ok(k) => k,
        Err(_) => return Err(NetworkError::Internal("key derivation failed".to_owned())),
    };
    let built = build_no_proxy_client();
    accept_handshake(registry, my_device_id, remote_ip, req, my_pubkey_b64, aes_key, built)
}

} // verus!
