//! Handshake rate limiting, keyed by (remote IP, claimed device id).
//!
//! Within a sliding 60 s window at most 3 handshakes are let through per
//! (IP, device id) pair, and none once 10 distinct device ids were let
//! through. A refused handshake is not counted. Time is read from the
//! monotonic clock, in milliseconds since the limiter was made.
use vstd::prelude::*;
use std::collections::VecDeque;
use crate::addr::IpAddress;
use crate::keyed::{
    has_key, index_of_key, key_unique, keyed_map, lemma_keyed_empty, lemma_keyed_index,
    lemma_keyed_push, lemma_keyed_remove,
};

verus! {

#[verifier::external_type_specification]
#[verifier::external_body]
pub struct ExInstant(std::time::Instant);

/// Calls `Instant::now`: a reading of the monotonic clock. Nothing is
/// claimed of it.
#[verifier::external_body]
fn instant_now() -> std::time::Instant {
    std::time::Instant::now()
}

/// Calls `Instant::elapsed`: the monotonic time since `start`. It depends
/// on the clock, so nothing is claimed of it.
#[verifier::external_body]
fn instant_elapsed(start: &std::time::Instant) -> core::time::Duration {
    start.elapsed()
}

/// Handshakes allowed per (IP, device id) within the window.
pub const MAX_PER_PAIR_IN_WINDOW: usize = 3;

/// Distinct device ids allowed in all within the window.
pub const MAX_GLOBAL_IN_WINDOW: usize = 10;

/// Length of the sliding window, in seconds.
pub const WINDOW_SECS: u64 = 60;

/// Length of the sliding window, in milliseconds.
pub const WINDOW_MS: u64 = 60_000;

/// Whether a handshake may go on.
#[derive(Clone, Copy, Debug, PartialEq, Eq, Structural)]
pub enum RateLimitDecision {
    /// Go on with the handshake.
    Allowed,
    /// Refuse it (HTTP 429).
    TooManyRequests,
}

/// Has a handshake recorded at `t` left the window at `now`? (A clock that
/// went backwards counts as no time passed.)
pub open spec fn expired(t: u64, now: u64) -> bool {
    now >= t && now - t >= WINDOW_MS
}

/// `q` without its leading expired times.
pub open spec fn prune_times(q: Seq<u64>, now: u64) -> Seq<u64>
    decreases q.len(),
{
    if q.len() > 0 && expired(q[0], now) {
        prune_times(q.drop_first(), now)
    } else {
        q
    }
}

/// `g` without its leading expired records.
pub open spec fn prune_global(g: Seq<(u64, Seq<char>)>, now: u64) -> Seq<(u64, Seq<char>)>
    decreases g.len(),
{
    if g.len() > 0 && expired(g[0].0, now) {
        prune_global(g.drop_first(), now)
    } else {
        g
    }
}

/// A pruned sequence is a suffix, so no longer.
proof fn lemma_prune_times_len(q: Seq<u64>, now: u64)
    ensures
        prune_times(q, now).len() <= q.len(),
    decreases q.len(),
{
    if q.len() > 0 && expired(q[0], now) {
        lemma_prune_times_len(q.drop_first(), now);
    }
}

/// The handshake times of one (IP, device id) pair.
pub struct PairWindow {
    ip: IpAddress,
    device_id: String,
    times: VecDeque<u64>,
}

/// The key of a pair window.
pub closed spec fn window_key(w: PairWindow) -> (IpAddress, Seq<char>) {
    (w.ip, w.device_id@)
}

/// A list of pair windows read as a map from pair to window.
pub closed spec fn windows_map(v: Seq<PairWindow>) -> Map<(IpAddress, Seq<char>), PairWindow> {
    keyed_map(v, |w: PairWindow| window_key(w))
}

/// The sliding-window handshake limiter.
pub struct RateLimiter {
    per_pair: Vec<PairWindow>,
    global: VecDeque<(u64, String)>,
    /// When the limiter was made; times are milliseconds since then.
    started: std::time::Instant,
}

/// The times recorded for `key`, empty if none.
pub open spec fn times_of(m: Map<(IpAddress, Seq<char>), Seq<u64>>, key: (IpAddress, Seq<char>)) -> Seq<u64> {
    if m.contains_key(key) {
        m[key]
    } else {
        Seq::empty()
    }
}

/// The distinct device ids among the global records.
pub open spec fn window_ids(g: Seq<(u64, Seq<char>)>) -> Set<Seq<char>> {
    g.map_values(|e: (u64, Seq<char>)| e.1).to_set()
}

/// The decision for a handshake from `key` at `now`, given the recorded
/// per-pair times and global records: refused when the pair already has 3
/// handshakes in the window, or when 10 distinct device ids did.
pub open spec fn decide(
    pairs: Map<(IpAddress, Seq<char>), Seq<u64>>,
    global: Seq<(u64, Seq<char>)>,
    key: (IpAddress, Seq<char>),
    now: u64,
) -> RateLimitDecision {
    if prune_times(times_of(pairs, key), now).len() >= MAX_PER_PAIR_IN_WINDOW {
        RateLimitDecision::TooManyRequests
    } else if window_ids(prune_global(global, now)).len() >= MAX_GLOBAL_IN_WINDOW {
        RateLimitDecision::TooManyRequests
    } else {
        RateLimitDecision::Allowed
    }
}

/// What a handshake check at `now` records, given its decision `r`: the
/// pair's expired times are dropped, and so are the expired global records
/// once the pair is under its limit; an allowed handshake is appended to
/// both.
pub open spec fn handshake_recorded(
    before: RateLimiter,
    after: RateLimiter,
    key: (IpAddress, Seq<char>),
    now: u64,
    r: RateLimitDecision,
) -> bool {
    let q = prune_times(times_of(before.pairs(), key), now);
    let g = prune_global(before.global_log(), now);
    &&& q.len() >= MAX_PER_PAIR_IN_WINDOW ==> after.pairs() == before.pairs().insert(key, q) && after.global_log()
        == before.global_log()
    &&& q.len() < MAX_PER_PAIR_IN_WINDOW && window_ids(g).len() >= MAX_GLOBAL_IN_WINDOW ==> after.pairs()
        == before.pairs().insert(key, q) && after.global_log() == g
    &&& r == RateLimitDecision::Allowed ==> after.pairs() == before.pairs().insert(key, q.push(now))
        && after.global_log() == g.push((now, key.1))
}

impl RateLimiter {
    /// Recorded handshake times per (IP, device id).
    pub closed spec fn pairs(&self) -> Map<(IpAddress, Seq<char>), Seq<u64>> {
        keyed_map(self.per_pair@, |w: PairWindow| window_key(w)).map_values(|w: PairWindow| w.times@)
    }

    /// Recorded handshakes in all: (time, device id), oldest first.
    pub closed spec fn global_log(&self) -> Seq<(u64, Seq<char>)> {
        self.global@.map_values(|e: (u64, String)| (e.0, e.1@))
    }

    /// Pairs are distinct and no pair holds more than 3 times.
    pub closed spec fn wf(&self) -> bool {
        &&& key_unique(self.per_pair@, |w: PairWindow| window_key(w))
        &&& forall|k: (IpAddress, Seq<char>)| #[trigger] self.pairs().contains_key(k) ==> self.pairs()[k].len() <= MAX_PER_PAIR_IN_WINDOW
    }

    /// A limiter never holds more than 3 handshakes of one (IP, device id)
    /// pair.
    pub proof fn lemma_within_limits(&self, key: (IpAddress, Seq<char>))
        requires
            self.wf(),
        ensures
            times_of(self.pairs(), key).len() <= MAX_PER_PAIR_IN_WINDOW,
    {
    }

    /// A limiter with nothing recorded.
    pub fn new() -> (r: Self)
        ensures
            r.wf(),
            r.pairs() == Map::<(IpAddress, Seq<char>), Seq<u64>>::empty(),
            r.global_log() == Seq::<(u64, Seq<char>)>::empty(),
            forall|now: u64| #[trigger] recorded_in_order_by(r, now),
    {
        let r = RateLimiter { per_pair: Vec::new(), global: VecDeque::new(), started: instant_now() };
        proof {
            lemma_keyed_empty(r.per_pair@, |w: PairWindow| window_key(w));
            assert(r.pairs() =~= Map::<(IpAddress, Seq<char>), Seq<u64>>::empty());
            assert(r.global_log() =~= Seq::<(u64, Seq<char>)>::empty());
        }
        r
    }

    /// Index of the window of `(ip, device_id)`.
    fn find(&self, ip: IpAddress, device_id: &String) -> (r: Option<usize>)
        requires
            self.wf(),
        ensures
            match r {
                Some(i) => i < self.per_pair@.len() && window_key(self.per_pair@[i as int]) == (ip, device_id@),
                None => !self.pairs().contains_key((ip, device_id@)),
            },
    {
        let n = self.per_pair.len();
        let mut i: usize = 0;
        while i < n
            invariant
                n == self.per_pair@.len(),
                i <= n,
                forall|j: int| 0 <= j < i ==> window_key(self.per_pair@[j]) != (ip, device_id@),
            decreases n - i,
        {
            if self.per_pair[i].ip == ip && self.per_pair[i].device_id == *device_id {
                return Some(i);
            }
            i = i + 1;
        }
        proof {
            let key = |w: PairWindow| window_key(w);
            if has_key(self.per_pair@, key, (ip, device_id@)) {
                let j = index_of_key(self.per_pair@, key, (ip, device_id@));
                assert(window_key(self.per_pair@[j]) == (ip, device_id@));
            }
        }
        None
    }

    /// Decides on a handshake from `(remote_ip, device_id)` at `now` (ms),
    /// pruning expired records first and recording the handshake if it is
    /// allowed.
    pub fn check_handshake_at(&mut self, remote_ip: IpAddress, device_id: &str, now: u64) -> (r:
        RateLimitDecision)
        requires
            old(self).wf(),
        ensures
            final(self).wf(),
            r == decide(old(self).pairs(), old(self).global_log(), (remote_ip, device_id@), now),
            handshake_recorded(*old(self), *final(self), (remote_ip, device_id@), now, r),
    {
        let ghost key = (remote_ip, device_id@);
        let ghost kf = |w: PairWindow| window_key(w);
        let ghost old_pairs = self.pairs();
        let id_s = device_id.to_owned();
        // Take the pair's window out of the list (or start an empty one).
        let mut win = match self.find(remote_ip, &id_s) {
            Some(i) => {
                proof {
                    lemma_keyed_index(self.per_pair@, kf, i as int);
                    lemma_keyed_remove(self.per_pair@, kf, i as int);
                }
                self.per_pair.remove(i)
            },
            None => PairWindow { ip: remote_ip, device_id: id_s, times: VecDeque::new() },
        };
        assert(win.times@ == times_of(old_pairs, key));
        assert(window_key(win) == key);
        let ghost rest = self.per_pair@;
        assert(windows_map(rest) == windows_map(old(self).per_pair@).remove(key));
        assert forall|k: (IpAddress, Seq<char>)| #[trigger] windows_map(rest).contains_key(k) implies windows_map(
            rest,
        )[k].times@.len() <= MAX_PER_PAIR_IN_WINDOW by {
            assert(windows_map(old(self).per_pair@).contains_key(k));
            assert(old(self).pairs().contains_key(k));
            assert(old(self).pairs()[k] == windows_map(old(self).per_pair@)[k].times@);
        }
        // Prune the pair's window.
        while win.times.len() > 0 && expired_exec(win.times[0], now)
            invariant
                prune_times(win.times@, now) == prune_times(times_of(old_pairs, key), now),
                window_key(win) == key,
            decreases win.times@.len(),
        {
            proof {
                assert(win.times@.drop_first() == win.times@.subrange(1, win.times@.len() as int));
            }
            let _ = win.times.pop_front();
        }
        let ghost q = win.times@;
        proof {
            lemma_prune_times_len(times_of(old_pairs, key), now);
        }
        if win.times.len() >= MAX_PER_PAIR_IN_WINDOW {
            self.put_window(win, Ghost(rest));
            assert(self.pairs() == old(self).pairs().insert(key, q));
            assert(self.global_log() == old(self).global_log());
            assert(prune_times(times_of(old(self).pairs(), key), now) == q);
            return RateLimitDecision::TooManyRequests;
        }
        // Prune the global log.
        let ghost old_g = self.global_log();
        while self.global.len() > 0 && expired_exec(self.global[0].0, now)
            invariant
                prune_global(self.global@.map_values(|e: (u64, String)| (e.0, e.1@)), now) == prune_global(old_g, now),
                self.per_pair@ == rest,
            decreases self.global@.len(),
        {
            proof {
                let m = self.global@.map_values(|e: (u64, String)| (e.0, e.1@));
                assert(m.drop_first() =~= self.global@.subrange(1, self.global@.len() as int).map_values(
                    |e: (u64, String)| (e.0, e.1@),
                ));
            }
            let _ = self.global.pop_front();
        }
        assert(prune_global(self.global_log(), now) == self.global_log());
        assert(self.global_log() == prune_global(old(self).global_log(), now));
        if distinct_ids(&self.global) >= MAX_GLOBAL_IN_WINDOW {
            self.put_window(win, Ghost(rest));
            assert(self.pairs() == old(self).pairs().insert(key, q));
            return RateLimitDecision::TooManyRequests;
        }
        win.times.push_back(now);
        self.global.push_back((now, device_id.to_owned()));
        proof {
            assert(self.global_log() =~= prune_global(old_g, now).push((now, device_id@)));
        }
        self.put_window(win, Ghost(rest));
        assert(self.pairs() == old(self).pairs().insert(key, q.push(now)));
        RateLimitDecision::Allowed
    }

    /// Puts a pair's window back into the list it was taken from.
    fn put_window(&mut self, win: PairWindow, Ghost(rest): Ghost<Seq<PairWindow>>)
        requires
            old(self).per_pair@ == rest,
            key_unique(rest, |w: PairWindow| window_key(w)),
            !windows_map(rest).contains_key(window_key(win)),
            win.times@.len() <= MAX_PER_PAIR_IN_WINDOW,
            forall|k: (IpAddress, Seq<char>)| #[trigger] windows_map(rest).contains_key(k)
                ==> windows_map(rest)[k].times@.len() <= MAX_PER_PAIR_IN_WINDOW,
        ensures
            final(self).wf(),
            final(self).pairs() == windows_map(rest).map_values(|w: PairWindow| w.times@).insert(
                window_key(win),
                win.times@,
            ),
            final(self).global_log() == old(self).global_log(),
    {
        let ghost kf = |w: PairWindow| window_key(w);
        proof {
            if has_key(rest, kf, window_key(win)) {
                let j = index_of_key(rest, kf, window_key(win));
                lemma_keyed_index(rest, kf, j);
            }
            lemma_keyed_push(rest, kf, win);
        }
        self.per_pair.push(win);
        proof {
            assert(self.pairs() =~= keyed_map(rest, kf).map_values(|w: PairWindow| w.times@).insert(
                window_key(win),
                win.times@,
            ));
        }
    }

    /// Decides on a handshake from `(remote_ip, device_id)` now (see
    /// `check_handshake_at`), reading the monotonic clock in milliseconds
    /// since the limiter was made (the low 64 bits). Which instant that is
    /// is the clock's; the decision and the records are those of
    /// `check_handshake_at` at that instant.
    pub fn check_handshake(&mut self, remote_ip: IpAddress, device_id: &str) -> (r: RateLimitDecision)
        requires
            old(self).wf(),
        ensures
            final(self).wf(),
            exists|now: u64|
                r == decide(old(self).pairs(), old(self).global_log(), (remote_ip, device_id@), now)
                    && #[trigger] handshake_recorded(*old(self), *final(self), (remote_ip, device_id@), now, r),
    {
        let elapsed = instant_elapsed(&self.started);
        let now = crate::commands::duration_as_millis(&elapsed) as u64;
        self.check_handshake_at(remote_ip, device_id, now)
    }
}

/// The number of distinct device ids among the global records.
fn distinct_ids(g: &VecDeque<(u64, String)>) -> (r: usize)
    ensures
        r == window_ids(g@.map_values(|e: (u64, String)| (e.0, e.1@))).len(),
{
    broadcast use vstd::seq_lib::group_seq_properties;
    let ghost ids = g@.map_values(|e: (u64, String)| (e.0, e.1@)).map_values(|e: (u64, Seq<char>)| e.1);
    let mut seen: Vec<String> = Vec::new();
    let n = g.len();
    let mut i: usize = 0;
    while i < n
        invariant
            n == g@.len(),
            i <= n,
            ids == g@.map_values(|e: (u64, String)| (e.0, e.1@)).map_values(|e: (u64, Seq<char>)| e.1),
            seen@.map_values(|s: String| s@).no_duplicates(),
            seen@.map_values(|s: String| s@).to_set() == ids.take(i as int).to_set(),
            seen@.len() <= i,
        decreases n - i,
    {
        let id = &g[i].1;
        let ghost sv = seen@.map_values(|s: String| s@);
        let mut found = false;
        let mut j: usize = 0;
        while j < seen.len()
            invariant
                j <= seen@.len(),
                sv == seen@.map_values(|s: String| s@),
                found <==> exists|k: int| 0 <= k < j && sv[k] == id@,
            decreases seen@.len() - j,
        {
            assert(sv[j as int] == seen@[j as int]@);
            if seen[j] == *id {
                found = true;
            }
            j = j + 1;
        }
        proof {
            assert(ids.take(i + 1) =~= ids.take(i as int).push(id@));
            ids.take(i as int).lemma_push_to_set_commute(id@);
        }
        if !found {
            seen.push(id.clone());
            proof {
                assert(seen@.map_values(|s: String| s@) =~= sv.push(id@));
                sv.lemma_push_to_set_commute(id@);
                assert(!sv.contains(id@));
            }
        } else {
            proof {
                let k = choose|k: int| 0 <= k < seen@.len() && sv[k] == id@;
                assert(sv.contains(id@));
                assert(sv.to_set().contains(id@));
                assert(sv.to_set().insert(id@) =~= sv.to_set());
            }
        }
        i = i + 1;
    }
    proof {
        let sv = seen@.map_values(|s: String| s@);
        assert(ids.take(n as int) =~= ids);
        sv.unique_seq_to_set();
    }
    seen.len()
}

/// Has a handshake recorded at `t` left the window at `now`?
fn expired_exec(t: u64, now: u64) -> (r: bool)
    ensures
        r == expired(t, now),
{
    now >= t && now - t >= WINDOW_MS
}

/// Two limiters hold the same records in the window at `t`: after pruning
/// at `t`, every pair has the same times and the global log is the same.
pub open spec fn same_window(a: RateLimiter, b: RateLimiter, t: u64) -> bool {
    &&& forall|k: (IpAddress, Seq<char>)| #[trigger] prune_times(times_of(a.pairs(), k), t) == prune_times(
        times_of(b.pairs(), k),
        t,
    )
    &&& prune_global(a.global_log(), t) == prune_global(b.global_log(), t)
}

/// Pruning at `t` and then at a later `t2` is pruning at `t2`.
proof fn lemma_prune_times_later(q: Seq<u64>, t: u64, t2: u64)
    requires
        t <= t2,
    ensures
        prune_times(prune_times(q, t), t2) == prune_times(q, t2),
    decreases q.len(),
{
    if q.len() > 0 && expired(q[0], t) {
        lemma_prune_times_later(q.drop_first(), t, t2);
    }
}

/// Pruning the global log at `t` and then at a later `t2` is pruning at `t2`.
proof fn lemma_prune_global_later(g: Seq<(u64, Seq<char>)>, t: u64, t2: u64)
    requires
        t <= t2,
    ensures
        prune_global(prune_global(g, t), t2) == prune_global(g, t2),
    decreases g.len(),
{
    if g.len() > 0 && expired(g[0].0, t) {
        lemma_prune_global_later(g.drop_first(), t, t2);
    }
}

/// Records alike in the window at `t` stay alike at any later `t2`, and the
/// limiters then decide every check at `t2` alike.
pub proof fn lemma_same_window_later(a: RateLimiter, b: RateLimiter, t: u64, t2: u64)
    requires
        same_window(a, b, t),
        t <= t2,
    ensures
        same_window(a, b, t2),
        forall|k: (IpAddress, Seq<char>)|
            #[trigger] decide(a.pairs(), a.global_log(), k, t2) == decide(b.pairs(), b.global_log(), k, t2),
{
    assert forall|k: (IpAddress, Seq<char>)|
        #[trigger] prune_times(times_of(a.pairs(), k), t2) == prune_times(times_of(b.pairs(), k), t2) by {
        lemma_prune_times_later(times_of(a.pairs(), k), t, t2);
        lemma_prune_times_later(times_of(b.pairs(), k), t, t2);
        assert(prune_times(times_of(a.pairs(), k), t) == prune_times(times_of(b.pairs(), k), t));
    }
    lemma_prune_global_later(a.global_log(), t, t2);
    lemma_prune_global_later(b.global_log(), t, t2);
}

/// A refused handshake is recorded nowhere: right after the refusal the
/// limiter holds the same records in the window as before it (only expired
/// ones went), so it answers every later check as if the attempt had not
/// been made.
pub proof fn lemma_refusal_not_recorded(
    before: RateLimiter,
    after: RateLimiter,
    key: (IpAddress, Seq<char>),
    now: u64,
)
    requires
        before.wf(),
        decide(before.pairs(), before.global_log(), key, now) == RateLimitDecision::TooManyRequests,
        handshake_recorded(before, after, key, now, RateLimitDecision::TooManyRequests),
    ensures
        same_window(after, before, now),
{
    let q = prune_times(times_of(before.pairs(), key), now);
    lemma_prune_times_later(times_of(before.pairs(), key), now, now);
    lemma_prune_global_later(before.global_log(), now, now);
    assert forall|k: (IpAddress, Seq<char>)|
        #[trigger] prune_times(times_of(after.pairs(), k), now) == prune_times(times_of(before.pairs(), k), now) by {
        if k == key {
            assert(times_of(after.pairs(), k) == q);
        } else {
            assert(times_of(after.pairs(), k) == times_of(before.pairs(), k));
        }
    }
}

/// Checks keep records alike: two limiters with the same records in the
/// window at `t`, each checking the same handshake at a later `t2`, decide it
/// alike and again hold the same records in the window at `t2`. With
/// `lemma_refusal_not_recorded`, a limiter that refused a handshake and one
/// that never saw it answer any later run of checks alike.
pub proof fn lemma_same_window_step(
    a: RateLimiter,
    a2: RateLimiter,
    b: RateLimiter,
    b2: RateLimiter,
    key: (IpAddress, Seq<char>),
    t: u64,
    t2: u64,
)
    requires
        same_window(a, b, t),
        t <= t2,
        handshake_recorded(a, a2, key, t2, decide(a.pairs(), a.global_log(), key, t2)),
        handshake_recorded(b, b2, key, t2, decide(b.pairs(), b.global_log(), key, t2)),
    ensures
        decide(a.pairs(), a.global_log(), key, t2) == decide(b.pairs(), b.global_log(), key, t2),
        same_window(a2, b2, t2),
{
    lemma_same_window_later(a, b, t, t2);
    let qa = prune_times(times_of(a.pairs(), key), t2);
    let qb = prune_times(times_of(b.pairs(), key), t2);
    let ga = prune_global(a.global_log(), t2);
    let gb = prune_global(b.global_log(), t2);
    assert(qa == qb);
    assert(ga == gb);
    assert forall|k: (IpAddress, Seq<char>)|
        #[trigger] prune_times(times_of(a2.pairs(), k), t2) == prune_times(times_of(b2.pairs(), k), t2) by {
        if k != key {
            assert(times_of(a2.pairs(), k) == times_of(a.pairs(), k));
            assert(times_of(b2.pairs(), k) == times_of(b.pairs(), k));
        }
    }
}

/// Times recorded in order: none after a later one.
pub open spec fn in_order(q: Seq<u64>) -> bool {
    forall|i: int, j: int| 0 <= i < j < q.len() ==> #[trigger] q[i] <= #[trigger] q[j]
}

/// Global records in order of time.
pub open spec fn records_in_order(g: Seq<(u64, Seq<char>)>) -> bool {
    forall|i: int, j: int| 0 <= i < j < g.len() ==> #[trigger] g[i].0 <= #[trigger] g[j].0
}

/// Filtering keeps a sequence whose every element passes.
proof fn lemma_filter_all<A>(s: Seq<A>, p: spec_fn(A) -> bool)
    requires
        forall|i: int| 0 <= i < s.len() ==> p(#[trigger] s[i]),
    ensures
        s.filter(p) == s,
    decreases s.len(),
{
    reveal(Seq::filter);
    if s.len() > 0 {
        lemma_filter_all(s.drop_last(), p);
        assert(p(s[s.len() - 1]));
        assert(s.drop_last().push(s.last()) =~= s);
    } else {
        assert(s.filter(p) =~= s);
    }
}

/// For times recorded in order, pruning keeps exactly the times still in the
/// window.
proof fn lemma_prune_times_window(q: Seq<u64>, now: u64)
    requires
        in_order(q),
    ensures
        prune_times(q, now) == q.filter(|t: u64| !expired(t, now)),
    decreases q.len(),
{
    let p = |t: u64| !expired(t, now);
    if q.len() > 0 {
        let t = q.drop_first();
        assert(seq![q[0]] + t =~= q);
        t.lemma_filter_prepend(q[0], p);
        if expired(q[0], now) {
            assert(in_order(t)) by {
                assert forall|i: int, j: int| 0 <= i < j < t.len() implies #[trigger] t[i] <= #[trigger] t[j] by {
                    assert(t[i] == q[i + 1] && t[j] == q[j + 1]);
                }
            }
            lemma_prune_times_window(t, now);
            assert(Seq::<u64>::empty() + t.filter(p) =~= t.filter(p));
        } else {
            assert forall|i: int| 0 <= i < q.len() implies p(#[trigger] q[i]) by {
                if i > 0 {
                    assert(q[0] <= q[i]);
                }
            }
            lemma_filter_all(q, p);
        }
    } else {
        lemma_filter_all(q, p);
    }
}

/// For records in order, pruning keeps exactly the records still in the
/// window.
proof fn lemma_prune_global_window(g: Seq<(u64, Seq<char>)>, now: u64)
    requires
        records_in_order(g),
    ensures
        prune_global(g, now) == g.filter(|e: (u64, Seq<char>)| !expired(e.0, now)),
    decreases g.len(),
{
    let p = |e: (u64, Seq<char>)| !expired(e.0, now);
    if g.len() > 0 {
        let t = g.drop_first();
        assert(seq![g[0]] + t =~= g);
        t.lemma_filter_prepend(g[0], p);
        if expired(g[0].0, now) {
            assert(records_in_order(t)) by {
                assert forall|i: int, j: int| 0 <= i < j < t.len() implies #[trigger] t[i].0 <= #[trigger] t[j].0 by {
                    assert(t[i] == g[i + 1] && t[j] == g[j + 1]);
                }
            }
            lemma_prune_global_window(t, now);
            assert(Seq::<(u64, Seq<char>)>::empty() + t.filter(p) =~= t.filter(p));
        } else {
            assert forall|i: int| 0 <= i < g.len() implies p(#[trigger] g[i]) by {
                if i > 0 {
                    assert(g[0].0 <= g[i].0);
                }
            }
            lemma_filter_all(g, p);
        }
    } else {
        lemma_filter_all(g, p);
    }
}

/// The sliding window decides: with times recorded in order, a handshake of
/// `key` at `now` is refused exactly when the pair already has 3 handshakes
/// less than 60 s old, or 10 distinct device ids had one less than 60 s ago;
/// older records count for nothing.
pub proof fn lemma_decide_counts_only_the_window(
    pairs: Map<(IpAddress, Seq<char>), Seq<u64>>,
    global: Seq<(u64, Seq<char>)>,
    key: (IpAddress, Seq<char>),
    now: u64,
)
    requires
        in_order(times_of(pairs, key)),
        records_in_order(global),
    ensures
        (decide(pairs, global, key, now) == RateLimitDecision::TooManyRequests) <==> (times_of(pairs, key).filter(
            |t: u64| now < t || now - t < WINDOW_MS,
        ).len() >= MAX_PER_PAIR_IN_WINDOW || global.filter(|e: (u64, Seq<char>)| now < e.0 || now - e.0 < WINDOW_MS).map_values(
            |e: (u64, Seq<char>)| e.1,
        ).to_set().len() >= MAX_GLOBAL_IN_WINDOW),
{
    lemma_prune_times_window(times_of(pairs, key), now);
    lemma_prune_global_window(global, now);
    assert((|t: u64| !expired(t, now)) =~= (|t: u64| now < t || now - t < WINDOW_MS));
    assert((|e: (u64, Seq<char>)| !expired(e.0, now)) =~= (|e: (u64, Seq<char>)| now < e.0 || now - e.0 < WINDOW_MS));
}

/// Pruning keeps a suffix.
proof fn lemma_prune_times_suffix(q: Seq<u64>, now: u64)
    ensures
        prune_times(q, now).len() <= q.len(),
        prune_times(q, now) == q.skip(q.len() - prune_times(q, now).len()),
    decreases q.len(),
{
    if q.len() > 0 && expired(q[0], now) {
        lemma_prune_times_suffix(q.drop_first(), now);
        let r = prune_times(q, now);
        assert(q.drop_first().skip(q.drop_first().len() - r.len()) =~= q.skip(q.len() - r.len()));
    } else {
        assert(q.skip(0) =~= q);
    }
}

/// Pruning the global log keeps a suffix.
proof fn lemma_prune_global_suffix(g: Seq<(u64, Seq<char>)>, now: u64)
    ensures
        prune_global(g, now).len() <= g.len(),
        prune_global(g, now) == g.skip(g.len() - prune_global(g, now).len()),
    decreases g.len(),
{
    if g.len() > 0 && expired(g[0].0, now) {
        lemma_prune_global_suffix(g.drop_first(), now);
        let r = prune_global(g, now);
        assert(g.drop_first().skip(g.drop_first().len() - r.len()) =~= g.skip(g.len() - r.len()));
    } else {
        assert(g.skip(0) =~= g);
    }
}

/// Every time recorded by `rl` is in order and no later than `now`.
pub open spec fn recorded_in_order_by(rl: RateLimiter, now: u64) -> bool {
    &&& forall|k: (IpAddress, Seq<char>)| #[trigger] in_order(times_of(rl.pairs(), k))
    &&& forall|k: (IpAddress, Seq<char>), i: int|
        0 <= i < times_of(rl.pairs(), k).len() ==> #[trigger] times_of(rl.pairs(), k)[i] <= now
    &&& records_in_order(rl.global_log())
    &&& forall|i: int| 0 <= i < rl.global_log().len() ==> #[trigger] rl.global_log()[i].0 <= now
}

/// Checks made at times that never go back keep the records in order, so
/// `lemma_decide_counts_only_the_window` applies to every later check.
pub proof fn lemma_checks_keep_order(
    before: RateLimiter,
    after: RateLimiter,
    key: (IpAddress, Seq<char>),
    now: u64,
    r: RateLimitDecision,
)
    requires
        recorded_in_order_by(before, now),
        r == decide(before.pairs(), before.global_log(), key, now),
        handshake_recorded(before, after, key, now, r),
    ensures
        recorded_in_order_by(after, now),
{
    let q0 = times_of(before.pairs(), key);
    let q = prune_times(q0, now);
    let g0 = before.global_log();
    let g = prune_global(g0, now);
    lemma_prune_times_suffix(q0, now);
    lemma_prune_global_suffix(g0, now);
    let dq = q0.len() - q.len();
    let dg = g0.len() - g.len();
    assert forall|i: int, j: int| 0 <= i < j < q.len() implies #[trigger] q[i] <= #[trigger] q[j] by {
        assert(q[i] == q0[i + dq] && q[j] == q0[j + dq]);
        assert(in_order(q0));
    }
    assert forall|i: int| 0 <= i < q.len() implies #[trigger] q[i] <= now by {
        assert(q[i] == q0[i + dq]);
    }
    assert forall|i: int, j: int| 0 <= i < j < g.len() implies #[trigger] g[i].0 <= #[trigger] g[j].0 by {
        assert(g[i] == g0[i + dg] && g[j] == g0[j + dg]);
    }
    assert forall|i: int| 0 <= i < g.len() implies #[trigger] g[i].0 <= now by {
        assert(g[i] == g0[i + dg]);
    }
    let qp = q.push(now);
    let gp = g.push((now, key.1));
    assert forall|i: int, j: int| 0 <= i < j < qp.len() implies #[trigger] qp[i] <= #[trigger] qp[j] by {
        if j < q.len() {
            assert(qp[i] == q[i] && qp[j] == q[j]);
        } else {
            assert(qp[i] == q[i]);
        }
    }
    assert forall|i: int, j: int| 0 <= i < j < gp.len() implies #[trigger] gp[i].0 <= #[trigger] gp[j].0 by {
        if j < g.len() {
            assert(gp[i] == g[i] && gp[j] == g[j]);
        } else {
            assert(gp[i] == g[i]);
        }
    }
    assert forall|k: (IpAddress, Seq<char>)| #[trigger] in_order(times_of(after.pairs(), k)) by {
        if k != key {
            assert(times_of(after.pairs(), k) == times_of(before.pairs(), k));
        }
    }
    assert forall|k: (IpAddress, Seq<char>), i: int|
        0 <= i < times_of(after.pairs(), k).len() implies #[trigger] times_of(after.pairs(), k)[i] <= now by {
        if k != key {
            assert(times_of(after.pairs(), k) == times_of(before.pairs(), k));
        } else if i < q.len() {
            assert(qp[i] == q[i]);
        }
    }
    assert forall|i: int| 0 <= i < after.global_log().len() implies #[trigger] after.global_log()[i].0 <= now by {
        if after.global_log() == gp && i < g.len() {
            assert(gp[i] == g[i]);
        }
    }
}

} // verus!
