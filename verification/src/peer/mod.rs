//! Peers: the registry of known devices, input sanitising and handshake rate
//! limiting.
//!
//! The registry keeps the full state of each connected peer, the set of
//! approved ids and the set of banned ids, and the per-peer HTTP client pool.
//! Approval and ban exclude each other in every state; removing or banning a
//! connected peer also drops its client.
pub mod rate_limit;
pub mod sanitize;

use vstd::prelude::*;
use crate::addr::SocketAddress;
use crate::app::client_pool::ClientPool;
use crate::crypto::{kind_index, AadKind};
use crate::crypto::x25519::wipe_key;
use crate::keyed::{
    has_key, index_of_key, key_set, key_unique, keyed_map, lemma_keyed_empty, lemma_keyed_index,
    lemma_keyed_len, lemma_keyed_push, lemma_keyed_remove, lemma_keyed_update,
};

verus! {

/// How far this device trusts a peer.
#[derive(Clone, Copy, Debug, PartialEq, Eq, Structural)]
pub enum TrustState {
    Approved,
    Banned,
    Pending,
}

/// The highest sequence number seen from a peer, per message kind.
#[derive(Clone, Copy, Debug)]
pub struct SeenSeqs {
    last: [Option<u64>; 9],
}

impl SeenSeqs {
    /// The highest sequence number seen for `kind`, if any.
    pub closed spec fn last_seen(self, kind: AadKind) -> Option<u64> {
        self.last@[kind_index(kind)]
    }

    /// Nothing seen yet.
    pub fn new() -> (r: SeenSeqs)
        ensures
            forall|k: AadKind| #[trigger] r.last_seen(k) is None,
    {
        let r = SeenSeqs { last: [None; 9] };
        assert forall|k: AadKind| #[trigger] r.last_seen(k) is None by {
            assert(0 <= kind_index(k) < 9);
        }
        r
    }

    /// The highest sequence number seen for `kind`, if any.
    pub fn get(&self, kind: AadKind) -> (r: Option<u64>)
        ensures
            r == self.last_seen(kind),
    {
        self.last[kind.index()]
    }

    /// The table after recording `seq` for `kind`.
    pub closed spec fn with_seen(self, kind: AadKind, seq: u64) -> SeenSeqs {
        SeenSeqs { last: vstd::array::spec_array_update(self.last, kind_index(kind), Some(seq)) }
    }

    /// `with_seen` records `seq` for `kind` and leaves the other kinds alone.
    pub proof fn lemma_with_seen(self, kind: AadKind, seq: u64)
        ensures
            self.with_seen(kind, seq).last_seen(kind) == Some(seq),
            forall|k: AadKind| k != kind ==> #[trigger] self.with_seen(kind, seq).last_seen(k) == self.last_seen(k),
    {
        broadcast use vstd::array::axiom_spec_array_update;
        assert(0 <= kind_index(kind) < 9);
        assert forall|k: AadKind| k != kind implies #[trigger] self.with_seen(kind, seq).last_seen(k) == self.last_seen(k) by {
            assert(kind_index(k) != kind_index(kind));
            assert(0 <= kind_index(k) < 9);
        }
    }

    /// Records `seq` as the highest seen for `kind`.
    pub fn set(&mut self, kind: AadKind, seq: u64)
        ensures
            *final(self) == old(self).with_seen(kind, seq),
    {
        let i = kind.index();
        self.last[i] = Some(seq);
    }
}

/// Everything known about one connected peer.
///
/// The key is copied when the state is duplicated; it must never be logged or
/// written out.
#[derive(Clone)]
pub struct PeerState {
    /// Primary key (a UUID).
    pub device_id: String,
    /// Sanitised display name.
    pub device_name: String,
    /// Where the peer listens: its IP and its announced port.
    pub addr: SocketAddress,
    /// Its public key, base64.
    pub pubkey_b64: String,
    /// The AES-256 key shared with it.
    pub aes_key: [u8; 32],
    /// When a broadcast to it last succeeded (ms); heartbeats never set it.
    pub last_successful_sync_at: Option<u64>,
    /// When a heartbeat to it last succeeded (ms).
    pub last_heartbeat_at: Option<u64>,
    /// Heartbeats failed in a row.
    pub consecutive_heartbeat_failures: u32,
    /// Broadcasts failed in a row.
    pub consecutive_send_failures: u32,
    /// Mirrors the registry's approved/banned sets for this peer.
    pub trust_state: TrustState,
    /// Replay defence: the highest sequence number seen per kind.
    pub last_seen_seq_by_kind: SeenSeqs,
}

impl PeerState {
    /// An exact copy of the state.
    pub fn duplicate(&self) -> (r: PeerState)
        ensures
            r == *self,
    {
        PeerState {
            device_id: self.device_id.clone(),
            device_name: self.device_name.clone(),
            addr: self.addr,
            pubkey_b64: self.pubkey_b64.clone(),
            aes_key: self.aes_key,
            last_successful_sync_at: self.last_successful_sync_at,
            last_heartbeat_at: self.last_heartbeat_at,
            consecutive_heartbeat_failures: self.consecutive_heartbeat_failures,
            consecutive_send_failures: self.consecutive_send_failures,
            trust_state: self.trust_state,
            last_seen_seq_by_kind: self.last_seen_seq_by_kind,
        }
    }
}

/// Adds one to a counter, stopping at `u32::MAX`.
pub open spec fn saturating_inc(x: u32) -> u32 {
    if x < u32::MAX {
        (x + 1) as u32
    } else {
        x
    }
}

/// The state after a successful heartbeat at `now`.
pub open spec fn after_heartbeat_ok(p: PeerState, now: u64) -> PeerState {
    PeerState { consecutive_heartbeat_failures: 0, last_heartbeat_at: Some(now), ..p }
}

/// The state after a failed heartbeat.
pub open spec fn after_heartbeat_fail(p: PeerState) -> PeerState {
    PeerState { consecutive_heartbeat_failures: saturating_inc(p.consecutive_heartbeat_failures), ..p }
}

/// The state after a successful broadcast at `now`.
pub open spec fn after_send_ok(p: PeerState, now: u64) -> PeerState {
    PeerState { consecutive_send_failures: 0, last_successful_sync_at: Some(now), ..p }
}

/// The state after a failed broadcast.
pub open spec fn after_send_fail(p: PeerState) -> PeerState {
    PeerState { consecutive_send_failures: saturating_inc(p.consecutive_send_failures), ..p }
}

/// Is `seq` new for `kind` from this peer: above every number seen so far?
pub open spec fn seq_is_new(p: PeerState, kind: AadKind, seq: u64) -> bool {
    match p.last_seen_seq_by_kind.last_seen(kind) {
        Some(last) => seq > last,
        None => true,
    }
}

/// The peer map after recording `seq` as the highest seen for `kind` from `id`.
pub open spec fn record_seq(m: Map<Seq<char>, PeerState>, id: Seq<char>, kind: AadKind, seq: u64) -> Map<
    Seq<char>,
    PeerState,
> {
    m.insert(id, PeerState { last_seen_seq_by_kind: m[id].last_seen_seq_by_kind.with_seen(kind, seq), ..m[id] })
}

/// The peer map after approving `id`: a connected peer's state says `Approved`.
pub open spec fn approve_peers(m: Map<Seq<char>, PeerState>, id: Seq<char>) -> Map<Seq<char>, PeerState> {
    if m.contains_key(id) {
        m.insert(id, PeerState { trust_state: TrustState::Approved, ..m[id] })
    } else {
        m
    }
}

/// The key of a peer record: its device id.
pub open spec fn peer_key(p: PeerState) -> Seq<char> {
    p.device_id@
}

/// The key of an id record: the id itself.
pub open spec fn id_key(s: String) -> Seq<char> {
    s@
}

/// The peer registry.
pub struct PeerRegistry {
    inner: Vec<PeerState>,
    approved: Vec<String>,
    banned: Vec<String>,
    client_pool: ClientPool,
}

impl PeerRegistry {
    /// Connected peers by device id.
    pub closed spec fn peers(&self) -> Map<Seq<char>, PeerState> {
        keyed_map(self.inner@, |p: PeerState| peer_key(p))
    }

    /// Approved device ids.
    pub closed spec fn approved_ids(&self) -> Set<Seq<char>> {
        key_set(self.approved@, |s: String| id_key(s))
    }

    /// Banned device ids.
    pub closed spec fn banned_ids(&self) -> Set<Seq<char>> {
        key_set(self.banned@, |s: String| id_key(s))
    }

    /// The client pool, by device id.
    pub closed spec fn pool(&self) -> Map<Seq<char>, reqwest::Client> {
        self.client_pool@
    }

    /// Records and ids are distinct, the pool is well formed, and no id is both
    /// approved and banned.
    pub closed spec fn wf(&self) -> bool {
        &&& key_unique(self.inner@, |p: PeerState| peer_key(p))
        &&& key_unique(self.approved@, |s: String| id_key(s))
        &&& key_unique(self.banned@, |s: String| id_key(s))
        &&& self.client_pool.wf()
        &&& self.approved_ids().disjoint(self.banned_ids())
    }

    /// An empty registry around a client pool.
    pub fn new(client_pool: ClientPool) -> (r: Self)
        requires
            client_pool.wf(),
        ensures
            r.wf(),
            r.peers() == Map::<Seq<char>, PeerState>::empty(),
            r.approved_ids() == Set::<Seq<char>>::empty(),
            r.banned_ids() == Set::<Seq<char>>::empty(),
            r.pool() == client_pool@,
    {
        let r = PeerRegistry { inner: Vec::new(), approved: Vec::new(), banned: Vec::new(), client_pool };
        proof {
            lemma_keyed_empty(r.inner@, |p: PeerState| peer_key(p));
            lemma_keyed_empty(r.approved@, |s: String| id_key(s));
            lemma_keyed_empty(r.banned@, |s: String| id_key(s));
            assert(r.approved_ids() =~= Set::<Seq<char>>::empty());
            assert(r.banned_ids() =~= Set::<Seq<char>>::empty());
        }
        r
    }

    /// An empty registry with its own empty client pool.
    pub fn new_for_test() -> (r: Self)
        ensures
            r.wf(),
            r.peers() == Map::<Seq<char>, PeerState>::empty(),
            r.approved_ids() == Set::<Seq<char>>::empty(),
            r.banned_ids() == Set::<Seq<char>>::empty(),
            r.pool() == Map::<Seq<char>, reqwest::Client>::empty(),
    {
        Self::new(ClientPool::new())
    }

    /// The client pool.
    pub fn client_pool(&self) -> (r: &ClientPool)
        requires
            self.wf(),
        ensures
            r.wf(),
            r@ == self.pool(),
    {
        &self.client_pool
    }

    /// Registers the client of a peer in the pool (on a successful handshake).
    pub fn insert_client(&mut self, id: &str, client: reqwest::Client)
        requires
            old(self).wf(),
        ensures
            final(self).wf(),
            final(self).pool() == old(self).pool().insert(id@, client),
            final(self).peers() == old(self).peers(),
            final(self).approved_ids() == old(self).approved_ids(),
            final(self).banned_ids() == old(self).banned_ids(),
    {
        self.client_pool.insert(id, client);
    }

    /// Installs the outcome of building a fresh client for a peer (see
    /// `ClientPool::replace_with`); the registry itself is untouched.
    pub fn replace_client_with(&mut self, id: &str, built: Result<reqwest::Client, reqwest::Error>) -> (r: Result<
        (),
        crate::app::client_pool::ClientPoolError,
    >)
        requires
            old(self).wf(),
        ensures
            final(self).wf(),
            match built {
                Ok(c) => r is Ok && final(self).pool() == old(self).pool().insert(id@, c),
                Err(_) => r == Err::<(), crate::app::client_pool::ClientPoolError>(
                    crate::app::client_pool::ClientPoolError::Build,
                ) && final(self).pool() == old(self).pool(),
            },
            final(self).peers() == old(self).peers(),
            final(self).approved_ids() == old(self).approved_ids(),
            final(self).banned_ids() == old(self).banned_ids(),
    {
        self.client_pool.replace_with(id, built)
    }

    /// Drops the client of a peer and builds a fresh one (a forced
    /// reconnect); whether the build succeeds is the HTTP library's, and the
    /// pool is unchanged if it fails.
    pub fn replace_client(&mut self, id: &str) -> (r: Result<(), crate::app::client_pool::ClientPoolError>)
        requires
            old(self).wf(),
        ensures
            final(self).wf(),
            r is Ok ==> exists|c: reqwest::Client| final(self).pool() == #[trigger] old(self).pool().insert(id@, c),
            r is Err ==> r == Err::<(), crate::app::client_pool::ClientPoolError>(
                crate::app::client_pool::ClientPoolError::Build,
            ) && final(self).pool() == old(self).pool(),
            final(self).peers() == old(self).peers(),
            final(self).approved_ids() == old(self).approved_ids(),
            final(self).banned_ids() == old(self).banned_ids(),
    {
        let built = crate::app::client_pool::build_no_proxy_client();
        self.replace_client_with(id, built)
    }

    // -----------------------------------------------------------------------
    // Lookups
    // -----------------------------------------------------------------------

    /// Index of the peer record with id `id`.
    fn find_peer(&self, id: &String) -> (r: Option<usize>)
        requires
            self.wf(),
        ensures
            match r {
                Some(i) => i < self.inner@.len() && self.inner@[i as int].device_id@ == id@
                    && self.peers().contains_key(id@) && self.peers()[id@] == self.inner@[i as int],
                None => !self.peers().contains_key(id@),
            },
    {
        let n = self.inner.len();
        let mut i: usize = 0;
        while i < n
            invariant
                n == self.inner@.len(),
                i <= n,
                key_unique(self.inner@, |p: PeerState| peer_key(p)),
                forall|j: int| 0 <= j < i ==> self.inner@[j].device_id@ != id@,
            decreases n - i,
        {
            if self.inner[i].device_id == *id {
                proof {
                    lemma_keyed_index(self.inner@, |p: PeerState| peer_key(p), i as int);
                }
                return Some(i);
            }
            i = i + 1;
        }
        proof {
            let key = |p: PeerState| peer_key(p);
            if has_key(self.inner@, key, id@) {
                let j = index_of_key(self.inner@, key, id@);
                assert(self.inner@[j].device_id@ == id@);
            }
        }
        None
    }

    /// Number of connected peers.
    pub fn count(&self) -> (r: usize)
        requires
            self.wf(),
        ensures
            self.peers().dom().finite(),
            r == self.peers().len(),
    {
        proof {
            lemma_keyed_len(self.inner@, |p: PeerState| peer_key(p));
        }
        self.inner.len()
    }

    /// A well-formed registry holds finitely many peers.
    pub proof fn lemma_peers_finite(&self)
        requires
            self.wf(),
        ensures
            self.peers().dom().finite(),
    {
        lemma_keyed_len(self.inner@, |p: PeerState| peer_key(p));
    }

    /// Is a peer with this id connected?
    pub fn is_known(&self, id: &str) -> (r: bool)
        requires
            self.wf(),
        ensures
            r == self.peers().contains_key(id@),
    {
        let key = id.to_owned();
        self.find_peer(&key).is_some()
    }

    /// Is this id approved?
    pub fn is_approved(&self, id: &str) -> (r: bool)
        requires
            self.wf(),
        ensures
            r == self.approved_ids().contains(id@),
    {
        let key = id.to_owned();
        id_list_find(&self.approved, &key).is_some()
    }

    /// Is this id banned?
    pub fn is_banned(&self, id: &str) -> (r: bool)
        requires
            self.wf(),
        ensures
            r == self.banned_ids().contains(id@),
    {
        let key = id.to_owned();
        id_list_find(&self.banned, &key).is_some()
    }

    /// A copy of the state of one peer.
    pub fn get(&self, id: &str) -> (r: Option<PeerState>)
        requires
            self.wf(),
        ensures
            r is Some <==> self.peers().contains_key(id@),
            r matches Some(p) ==> p == self.peers()[id@],
    {
        let key = id.to_owned();
        match self.find_peer(&key) {
            Some(i) => Some(self.inner[i].duplicate()),
            None => None,
        }
    }

    /// Copies of the states of all peers, each once, in no particular order.
    pub fn snapshot(&self) -> (r: Vec<PeerState>)
        requires
            self.wf(),
        ensures
            key_unique(r@, |p: PeerState| peer_key(p)),
            keyed_map(r@, |p: PeerState| peer_key(p)) == self.peers(),
            r@.len() == self.peers().len(),
    {
        let n = self.inner.len();
        let mut out: Vec<PeerState> = Vec::new();
        let mut i: usize = 0;
        while i < n
            invariant
                n == self.inner@.len(),
                i <= n,
                out@ == self.inner@.take(i as int),
            decreases n - i,
        {
            out.push(self.inner[i].duplicate());
            i = i + 1;
            assert(out@ =~= self.inner@.take(i as int));
        }
        assert(self.inner@.take(n as int) =~= self.inner@);
        proof {
            lemma_keyed_len(self.inner@, |p: PeerState| peer_key(p));
        }
        out
    }

    // -----------------------------------------------------------------------
    // Identity lifecycle
    // -----------------------------------------------------------------------

    /// Registers a peer (on a successful handshake), replacing any earlier
    /// state under the same id; the replaced key is wiped. The trust sets are
    /// left to `approve`.
    pub fn insert(&mut self, state: PeerState)
        requires
            old(self).wf(),
        ensures
            final(self).wf(),
            final(self).peers() == old(self).peers().insert(state.device_id@, state),
            final(self).approved_ids() == old(self).approved_ids(),
            final(self).banned_ids() == old(self).banned_ids(),
            final(self).pool() == old(self).pool(),
    {
        let ghost key = |p: PeerState| peer_key(p);
        match self.find_peer(&state.device_id) {
            Some(i) => {
                let mut old_state = self.inner.remove(i);
                wipe_key(&mut old_state.aes_key);
                proof {
                    lemma_keyed_update(old(self).inner@, key, i as int, state);
                    assert(old(self).inner@.remove(i as int).insert(i as int, state) =~= old(self).inner@.update(
                        i as int,
                        state,
                    ));
                }
                self.inner.insert(i, state);
            },
            None => {
                proof {
                    if has_key(self.inner@, key, state.device_id@) {
                        let j = index_of_key(self.inner@, key, state.device_id@);
                        lemma_keyed_index(self.inner@, key, j);
                    }
                    lemma_keyed_push(self.inner@, key, state);
                }
                self.inner.push(state);
            },
        }
    }

    /// Removes a peer everywhere: its record, its trust entries and its
    /// client. Returns its state if it was connected.
    pub fn remove(&mut self, id: &str) -> (r: Option<PeerState>)
        requires
            old(self).wf(),
        ensures
            final(self).wf(),
            final(self).peers() == old(self).peers().remove(id@),
            final(self).approved_ids() == old(self).approved_ids().remove(id@),
            final(self).banned_ids() == old(self).banned_ids().remove(id@),
            final(self).pool() == old(self).pool().remove(id@),
            pool_matches(*old(self)) ==> pool_matches(*final(self)),
            final(self).peers().len() == if old(self).peers().contains_key(id@) {
                old(self).peers().len() - 1
            } else {
                old(self).peers().len() as int
            },
            r is Some <==> old(self).peers().contains_key(id@),
            r matches Some(p) ==> p == old(self).peers()[id@],
    {
        proof {
            old(self).lemma_peers_finite();
        }
        let key = id.to_owned();
        let removed = match self.find_peer(&key) {
            Some(i) => {
                proof {
                    lemma_keyed_remove(self.inner@, |p: PeerState| peer_key(p), i as int);
                }
                Some(self.inner.remove(i))
            },
            None => {
                assert(self.peers().remove(id@) =~= self.peers());
                None
            },
        };
        id_list_remove(&mut self.approved, &key);
        id_list_remove(&mut self.banned, &key);
        let _ = self.client_pool.remove(id);
        proof {
            assert(self.approved_ids().disjoint(self.banned_ids()));
        }
        removed
    }

    /// Forgets every peer, both trust sets and every client (on shutdown),
    /// wiping the keys: with no peer left, no client is kept for one.
    pub fn clear(&mut self)
        requires
            old(self).wf(),
        ensures
            final(self).wf(),
            final(self).peers() == Map::<Seq<char>, PeerState>::empty(),
            final(self).approved_ids() == Set::<Seq<char>>::empty(),
            final(self).banned_ids() == Set::<Seq<char>>::empty(),
            final(self).pool() == Map::<Seq<char>, reqwest::Client>::empty(),
            pool_matches(*final(self)),
    {
        while self.inner.len() > 0
            decreases self.inner@.len(),
        {
            let last = self.inner.len() - 1;
            let mut p = self.inner.remove(last);
            wipe_key(&mut p.aes_key);
        }
        self.approved.clear();
        self.banned.clear();
        self.client_pool.clear();
        proof {
            lemma_keyed_empty(self.inner@, |p: PeerState| peer_key(p));
            lemma_keyed_empty(self.approved@, |s: String| id_key(s));
            lemma_keyed_empty(self.banned@, |s: String| id_key(s));
            assert(self.approved_ids() =~= Set::<Seq<char>>::empty());
            assert(self.banned_ids() =~= Set::<Seq<char>>::empty());
        }
    }

    // -----------------------------------------------------------------------
    // Trust
    // -----------------------------------------------------------------------

    /// Approves a peer: trust overrides a ban. A connected peer's state says
    /// `Approved` afterwards.
    pub fn approve(&mut self, id: &str)
        requires
            old(self).wf(),
        ensures
            final(self).wf(),
            final(self).approved_ids() == old(self).approved_ids().insert(id@),
            final(self).banned_ids() == old(self).banned_ids().remove(id@),
            final(self).peers() == approve_peers(old(self).peers(), id@),
            final(self).pool() == old(self).pool(),
    {
        let key = id.to_owned();
        id_list_insert(&mut self.approved, &key);
        id_list_remove(&mut self.banned, &key);
        proof {
            assert(self.approved_ids().disjoint(self.banned_ids()));
        }
        match self.find_peer(&key) {
            Some(i) => {
                let mut p = self.inner.remove(i);
                p.trust_state = TrustState::Approved;
                proof {
                    let ghost q = PeerState { trust_state: TrustState::Approved, ..old(self).inner@[i as int] };
                    assert(p == q);
                    lemma_keyed_update(old(self).inner@, |p: PeerState| peer_key(p), i as int, p);
                    assert(old(self).inner@.remove(i as int).insert(i as int, p) =~= old(self).inner@.update(
                        i as int,
                        p,
                    ));
                }
                self.inner.insert(i, p);
            },
            None => {},
        }
    }

    /// Bans a peer: a ban overrides trust. A connected peer is disconnected:
    /// its record goes (its key wiped) and so does its client.
    pub fn ban(&mut self, id: &str)
        requires
            old(self).wf(),
        ensures
            final(self).wf(),
            final(self).approved_ids() == old(self).approved_ids().remove(id@),
            final(self).banned_ids() == old(self).banned_ids().insert(id@),
            final(self).peers() == old(self).peers().remove(id@),
            old(self).peers().contains_key(id@) ==> final(self).pool() == old(self).pool().remove(id@),
            !old(self).peers().contains_key(id@) ==> final(self).pool() == old(self).pool(),
            pool_matches(*old(self)) ==> pool_matches(*final(self)),
            final(self).peers().len() == if old(self).peers().contains_key(id@) {
                old(self).peers().len() - 1
            } else {
                old(self).peers().len() as int
            },
    {
        proof {
            old(self).lemma_peers_finite();
        }
        let key = id.to_owned();
        id_list_remove(&mut self.approved, &key);
        id_list_insert(&mut self.banned, &key);
        proof {
            assert(self.approved_ids().disjoint(self.banned_ids()));
        }
        match self.find_peer(&key) {
            Some(i) => {
                proof {
                    lemma_keyed_remove(self.inner@, |p: PeerState| peer_key(p), i as int);
                }
                let mut p = self.inner.remove(i);
                wipe_key(&mut p.aes_key);
                let _ = self.client_pool.remove(id);
            },
            None => {
                assert(self.peers().remove(id@) =~= self.peers());
            },
        }
    }

    // -----------------------------------------------------------------------
    // Counters
    // -----------------------------------------------------------------------

    /// Replaces the record at `i` by `p`, which has the same id.
    fn put_at(&mut self, i: usize, p: PeerState)
        requires
            old(self).wf(),
            i < old(self).inner@.len(),
            p.device_id@ == old(self).inner@[i as int].device_id@,
        ensures
            final(self).wf(),
            final(self).peers() == old(self).peers().insert(p.device_id@, p),
            final(self).approved_ids() == old(self).approved_ids(),
            final(self).banned_ids() == old(self).banned_ids(),
            final(self).pool() == old(self).pool(),
    {
        proof {
            lemma_keyed_update(self.inner@, |p: PeerState| peer_key(p), i as int, p);
        }
        self.inner.set(i, p);
    }

    /// A successful heartbeat at `now`: resets the heartbeat failure count and
    /// stamps `last_heartbeat_at`; the last successful sync is left alone.
    pub fn record_heartbeat_ok_at(&mut self, id: &str, now: u64)
        requires
            old(self).wf(),
        ensures
            final(self).wf(),
            old(self).peers().contains_key(id@) ==> final(self).peers() == old(self).peers().insert(
                id@,
                after_heartbeat_ok(old(self).peers()[id@], now),
            ),
            !old(self).peers().contains_key(id@) ==> final(self).peers() == old(self).peers(),
            final(self).approved_ids() == old(self).approved_ids(),
            final(self).banned_ids() == old(self).banned_ids(),
            final(self).pool() == old(self).pool(),
    {
        let key = id.to_owned();
        if let Some(i) = self.find_peer(&key) {
            let mut p = self.inner[i].duplicate();
            p.consecutive_heartbeat_failures = 0;
            p.last_heartbeat_at = Some(now);
            self.put_at(i, p);
        }
    }

    /// A successful heartbeat now (see `record_heartbeat_ok_at`).
    pub fn record_heartbeat_ok(&mut self, id: &str)
        requires
            old(self).wf(),
        ensures
            final(self).wf(),
            old(self).peers().contains_key(id@) ==> exists|now: u64| final(self).peers() == old(self).peers().insert(
                id@,
                #[trigger] after_heartbeat_ok(old(self).peers()[id@], now),
            ),
            !old(self).peers().contains_key(id@) ==> final(self).peers() == old(self).peers(),
            final(self).approved_ids() == old(self).approved_ids(),
            final(self).banned_ids() == old(self).banned_ids(),
            final(self).pool() == old(self).pool(),
    {
        let now = crate::commands::now_ms();
        self.record_heartbeat_ok_at(id, now);
        assert(old(self).peers().contains_key(id@) ==> self.peers() == old(self).peers().insert(
            id@,
            after_heartbeat_ok(old(self).peers()[id@], now),
        ));
    }

    /// A failed heartbeat: the failure count goes up by one (saturating) and
    /// is returned; 0 for an unknown peer.
    pub fn record_heartbeat_fail(&mut self, id: &str) -> (r: u32)
        requires
            old(self).wf(),
        ensures
            final(self).wf(),
            old(self).peers().contains_key(id@) ==> final(self).peers() == old(self).peers().insert(
                id@,
                after_heartbeat_fail(old(self).peers()[id@]),
            ) && r == saturating_inc(old(self).peers()[id@].consecutive_heartbeat_failures),
            !old(self).peers().contains_key(id@) ==> final(self).peers() == old(self).peers() && r == 0,
            final(self).approved_ids() == old(self).approved_ids(),
            final(self).banned_ids() == old(self).banned_ids(),
            final(self).pool() == old(self).pool(),
    {
        let key = id.to_owned();
        match self.find_peer(&key) {
            Some(i) => {
                let mut p = self.inner[i].duplicate();
                let c = p.consecutive_heartbeat_failures;
                let n = if c < u32::MAX { c + 1 } else { c };
                p.consecutive_heartbeat_failures = n;
                self.put_at(i, p);
                n
            },
            None => 0,
        }
    }

    /// A successful broadcast at `now`: resets the send failure count and
    /// stamps `last_successful_sync_at` (the only place that sets it).
    pub fn record_send_ok_at(&mut self, id: &str, now: u64)
        requires
            old(self).wf(),
        ensures
            final(self).wf(),
            old(self).peers().contains_key(id@) ==> final(self).peers() == old(self).peers().insert(
                id@,
                after_send_ok(old(self).peers()[id@], now),
            ),
            !old(self).peers().contains_key(id@) ==> final(self).peers() == old(self).peers(),
            final(self).approved_ids() == old(self).approved_ids(),
            final(self).banned_ids() == old(self).banned_ids(),
            final(self).pool() == old(self).pool(),
    {
        let key = id.to_owned();
        if let Some(i) = self.find_peer(&key) {
            let mut p = self.inner[i].duplicate();
            p.consecutive_send_failures = 0;
            p.last_successful_sync_at = Some(now);
            self.put_at(i, p);
        }
    }

    /// A successful broadcast now (see `record_send_ok_at`).
    pub fn record_send_ok(&mut self, id: &str)
        requires
            old(self).wf(),
        ensures
            final(self).wf(),
            old(self).peers().contains_key(id@) ==> exists|now: u64| final(self).peers() == old(self).peers().insert(
                id@,
                #[trigger] after_send_ok(old(self).peers()[id@], now),
            ),
            !old(self).peers().contains_key(id@) ==> final(self).peers() == old(self).peers(),
            final(self).approved_ids() == old(self).approved_ids(),
            final(self).banned_ids() == old(self).banned_ids(),
            final(self).pool() == old(self).pool(),
    {
        let now = crate::commands::now_ms();
        self.record_send_ok_at(id, now);
        assert(old(self).peers().contains_key(id@) ==> self.peers() == old(self).peers().insert(
            id@,
            after_send_ok(old(self).peers()[id@], now),
        ));
    }

    /// A failed broadcast: the failure count goes up by one (saturating) and
    /// is returned; 0 for an unknown peer.
    pub fn record_send_fail(&mut self, id: &str) -> (r: u32)
        requires
            old(self).wf(),
        ensures
            final(self).wf(),
            old(self).peers().contains_key(id@) ==> final(self).peers() == old(self).peers().insert(
                id@,
                after_send_fail(old(self).peers()[id@]),
            ) && r == saturating_inc(old(self).peers()[id@].consecutive_send_failures),
            !old(self).peers().contains_key(id@) ==> final(self).peers() == old(self).peers() && r == 0,
            final(self).approved_ids() == old(self).approved_ids(),
            final(self).banned_ids() == old(self).banned_ids(),
            final(self).pool() == old(self).pool(),
    {
        let key = id.to_owned();
        match self.find_peer(&key) {
            Some(i) => {
                let mut p = self.inner[i].duplicate();
                let c = p.consecutive_send_failures;
                let n = if c < u32::MAX { c + 1 } else { c };
                p.consecutive_send_failures = n;
                self.put_at(i, p);
                n
            },
            None => 0,
        }
    }

    /// Same as `record_heartbeat_ok`.
    pub fn update_heartbeat_success(&mut self, id: &str)
        requires
            old(self).wf(),
        ensures
            final(self).wf(),
            old(self).peers().contains_key(id@) ==> exists|now: u64| final(self).peers() == old(self).peers().insert(
                id@,
                #[trigger] after_heartbeat_ok(old(self).peers()[id@], now),
            ),
            !old(self).peers().contains_key(id@) ==> final(self).peers() == old(self).peers(),
            final(self).approved_ids() == old(self).approved_ids(),
            final(self).banned_ids() == old(self).banned_ids(),
            final(self).pool() == old(self).pool(),
    {
        self.record_heartbeat_ok(id);
    }

    /// Same as `record_heartbeat_fail`.
    pub fn increment_heartbeat_failure(&mut self, id: &str) -> (r: u32)
        requires
            old(self).wf(),
        ensures
            final(self).wf(),
            old(self).peers().contains_key(id@) ==> final(self).peers() == old(self).peers().insert(
                id@,
                after_heartbeat_fail(old(self).peers()[id@]),
            ) && r == saturating_inc(old(self).peers()[id@].consecutive_heartbeat_failures),
            !old(self).peers().contains_key(id@) ==> final(self).peers() == old(self).peers() && r == 0,
            final(self).approved_ids() == old(self).approved_ids(),
            final(self).banned_ids() == old(self).banned_ids(),
            final(self).pool() == old(self).pool(),
    {
        self.record_heartbeat_fail(id)
    }

    /// Same as `record_send_ok`.
    pub fn update_last_successful_sync_at(&mut self, id: &str)
        requires
            old(self).wf(),
        ensures
            final(self).wf(),
            old(self).peers().contains_key(id@) ==> exists|now: u64| final(self).peers() == old(self).peers().insert(
                id@,
                #[trigger] after_send_ok(old(self).peers()[id@], now),
            ),
            !old(self).peers().contains_key(id@) ==> final(self).peers() == old(self).peers(),
            final(self).approved_ids() == old(self).approved_ids(),
            final(self).banned_ids() == old(self).banned_ids(),
            final(self).pool() == old(self).pool(),
    {
        self.record_send_ok(id);
    }

    /// The heartbeat failure count of a peer; 0 for an unknown peer.
    pub fn get_consecutive_heartbeat_failures(&self, id: &str) -> (r: u32)
        requires
            self.wf(),
        ensures
            self.peers().contains_key(id@) ==> r == self.peers()[id@].consecutive_heartbeat_failures,
            !self.peers().contains_key(id@) ==> r == 0,
    {
        let key = id.to_owned();
        match self.find_peer(&key) {
            Some(i) => self.inner[i].consecutive_heartbeat_failures,
            None => 0,
        }
    }

    /// Resets the heartbeat failure count (after a successful reconnect).
    pub fn reset_heartbeat_failures(&mut self, id: &str)
        requires
            old(self).wf(),
        ensures
            final(self).wf(),
            old(self).peers().contains_key(id@) ==> final(self).peers() == old(self).peers().insert(
                id@,
                PeerState { consecutive_heartbeat_failures: 0, ..old(self).peers()[id@] },
            ),
            !old(self).peers().contains_key(id@) ==> final(self).peers() == old(self).peers(),
            final(self).approved_ids() == old(self).approved_ids(),
            final(self).banned_ids() == old(self).banned_ids(),
            final(self).pool() == old(self).pool(),
    {
        let key = id.to_owned();
        if let Some(i) = self.find_peer(&key) {
            let mut p = self.inner[i].duplicate();
            p.consecutive_heartbeat_failures = 0;
            self.put_at(i, p);
        }
    }

    /// Replaces the AES key of a peer (after a re-handshake); the old key is
    /// wiped.
    pub fn update_aes_key(&mut self, id: &str, key: [u8; 32])
        requires
            old(self).wf(),
        ensures
            final(self).wf(),
            old(self).peers().contains_key(id@) ==> final(self).peers() == old(self).peers().insert(
                id@,
                PeerState { aes_key: key, ..old(self).peers()[id@] },
            ),
            !old(self).peers().contains_key(id@) ==> final(self).peers() == old(self).peers(),
            final(self).approved_ids() == old(self).approved_ids(),
            final(self).banned_ids() == old(self).banned_ids(),
            final(self).pool() == old(self).pool(),
    {
        let id_s = id.to_owned();
        if let Some(i) = self.find_peer(&id_s) {
            let mut p = self.inner.remove(i);
            wipe_key(&mut p.aes_key);
            p.aes_key = key;
            proof {
                let q = PeerState { aes_key: key, ..old(self).inner@[i as int] };
                assert(p == q);
                lemma_keyed_update(old(self).inner@, |p: PeerState| peer_key(p), i as int, p);
                assert(old(self).inner@.remove(i as int).insert(i as int, p) =~= old(self).inner@.update(
                    i as int,
                    p,
                ));
            }
            self.inner.insert(i, p);
        }
    }

    // -----------------------------------------------------------------------
    // Replay defence
    // -----------------------------------------------------------------------

    /// Checks a message's `(id, kind, seq)` against the highest sequence number
    /// seen, and records it if it is new. `true`: new, go on; `false`: a
    /// replay, a reordering, or an unknown peer.
    pub fn seen_seq_and_update(&mut self, id: &str, kind: AadKind, seq: u64) -> (r: bool)
        requires
            old(self).wf(),
        ensures
            final(self).wf(),
            r == (old(self).peers().contains_key(id@) && seq_is_new(old(self).peers()[id@], kind, seq)),
            r ==> final(self).peers() == record_seq(old(self).peers(), id@, kind, seq),
            !r ==> final(self).peers() == old(self).peers(),
            final(self).approved_ids() == old(self).approved_ids(),
            final(self).banned_ids() == old(self).banned_ids(),
            final(self).pool() == old(self).pool(),
    {
        let key = id.to_owned();
        match self.find_peer(&key) {
            Some(i) => {
                let fresh = match self.inner[i].last_seen_seq_by_kind.get(kind) {
                    Some(last) => seq > last,
                    None => true,
                };
                if fresh {
                    let mut p = self.inner[i].duplicate();
                    p.last_seen_seq_by_kind.set(kind, seq);
                    self.put_at(i, p);
                }
                fresh
            },
            None => false,
        }
    }
}

// ---------------------------------------------------------------------------
// Id lists read as sets
// ---------------------------------------------------------------------------

/// Index of `id` in a list of distinct ids.
fn id_list_find(v: &Vec<String>, id: &String) -> (r: Option<usize>)
    requires
        key_unique(v@, |s: String| id_key(s)),
    ensures
        match r {
            Some(i) => i < v@.len() && v@[i as int]@ == id@,
            None => !key_set(v@, |s: String| id_key(s)).contains(id@),
        },
        r is Some <==> key_set(v@, |s: String| id_key(s)).contains(id@),
{
    let n = v.len();
    let mut i: usize = 0;
    while i < n
        invariant
            n == v@.len(),
            i <= n,
            key_unique(v@, |s: String| id_key(s)),
            forall|j: int| 0 <= j < i ==> v@[j]@ != id@,
        decreases n - i,
    {
        if v[i] == *id {
            proof {
                lemma_keyed_index(v@, |s: String| id_key(s), i as int);
            }
            return Some(i);
        }
        i = i + 1;
    }
    proof {
        let key = |s: String| id_key(s);
        if has_key(v@, key, id@) {
            let j = index_of_key(v@, key, id@);
            assert(v@[j]@ == id@);
        }
    }
    None
}

/// Adds `id` to a list of distinct ids unless it is there.
fn id_list_insert(v: &mut Vec<String>, id: &String)
    requires
        key_unique(old(v)@, |s: String| id_key(s)),
    ensures
        key_unique(final(v)@, |s: String| id_key(s)),
        key_set(final(v)@, |s: String| id_key(s)) == key_set(old(v)@, |s: String| id_key(s)).insert(id@),
{
    let ghost key = |s: String| id_key(s);
    match id_list_find(v, id) {
        Some(_) => {
            assert(key_set(v@, key).insert(id@) =~= key_set(v@, key));
        },
        None => {
            let s = id.clone();
            proof {
                lemma_keyed_push(v@, key, s);
            }
            v.push(s);
        },
    }
}

/// Removes `id` from a list of distinct ids if it is there.
fn id_list_remove(v: &mut Vec<String>, id: &String)
    requires
        key_unique(old(v)@, |s: String| id_key(s)),
    ensures
        key_unique(final(v)@, |s: String| id_key(s)),
        key_set(final(v)@, |s: String| id_key(s)) == key_set(old(v)@, |s: String| id_key(s)).remove(id@),
{
    let ghost key = |s: String| id_key(s);
    match id_list_find(v, id) {
        Some(i) => {
            proof {
                lemma_keyed_remove(v@, key, i as int);
            }
            v.remove(i);
        },
        None => {
            assert(key_set(v@, key).remove(id@) =~= key_set(v@, key));
        },
    }
}

/// Two registries hold the same peers, trust sets and clients.
pub open spec fn same_registry(a: PeerRegistry, b: PeerRegistry) -> bool {
    &&& a.peers() == b.peers()
    &&& a.approved_ids() == b.approved_ids()
    &&& a.banned_ids() == b.banned_ids()
    &&& a.pool() == b.pool()
}

/// `b` is `a` with `id` removed everywhere: record, trust entries and client.
pub open spec fn removed_everywhere(a: PeerRegistry, b: PeerRegistry, id: Seq<char>) -> bool {
    &&& b.peers() == a.peers().remove(id)
    &&& b.approved_ids() == a.approved_ids().remove(id)
    &&& b.banned_ids() == a.banned_ids().remove(id)
    &&& b.pool() == a.pool().remove(id)
}

/// The client pool holds a client exactly for each registered peer.
pub open spec fn pool_matches(reg: PeerRegistry) -> bool {
    reg.pool().dom() == reg.peers().dom()
}

/// In every well-formed registry no id is both approved and banned.
pub proof fn lemma_trust_exclusive(reg: &PeerRegistry, id: Seq<char>)
    requires
        reg.wf(),
    ensures
        !(reg.approved_ids().contains(id) && reg.banned_ids().contains(id)),
{
}


/// Replays are refused: once `seq` is recorded for a kind from a peer, that
/// number and every lower one are no longer new for that kind, while other
/// kinds and other peers are unaffected.
pub proof fn lemma_replay_refused(m: Map<Seq<char>, PeerState>, id: Seq<char>, kind: AadKind, seq: u64, again: u64)
    requires
        m.contains_key(id),
        again <= seq,
    ensures
        !seq_is_new(record_seq(m, id, kind, seq)[id], kind, again),
        forall|k: AadKind|
            k != kind ==> #[trigger] seq_is_new(record_seq(m, id, kind, seq)[id], k, again) == seq_is_new(m[id], k, again),
        forall|other: Seq<char>| other != id ==> #[trigger] record_seq(m, id, kind, seq).contains_key(other) == m.contains_key(other),
        forall|other: Seq<char>| other != id && m.contains_key(other) ==> #[trigger] record_seq(m, id, kind, seq)[other] == m[other],
{
    m[id].last_seen_seq_by_kind.lemma_with_seen(kind, seq);
}

} // verus!
