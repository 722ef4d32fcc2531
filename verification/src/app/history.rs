//! The in-memory clipboard history, newest first.
//!
//! Pushing an entry whose content hash equals the newest entry's does
//! nothing; an older entry with that hash is dropped and the new one goes on
//! top. At most 50 entries are kept. Nothing is persisted.
use vstd::prelude::*;

verus! {

/// Most entries kept.
pub const MAX_HISTORY: usize = 50;

/// What an entry holds.
#[derive(Debug, Clone)]
pub enum HistoryPayload {
    /// Plain text.
    Text { text: String },
    /// A PNG image, base64.
    Image { width: u32, height: u32, data_b64: String },
    /// A file transfer.
    File {
        filename: String,
        size: u64,
        /// Where it was saved (receiver only).
        saved_path: Option<String>,
        /// `sent`, `received` or `failed`.
        file_status: String,
        /// Why it failed.
        error: Option<String>,
    },
}

/// Where an entry came from.
#[derive(Debug, Clone)]
pub enum HistorySource {
    /// This device.
    Local,
    /// A peer (its sanitised name).
    Remote { device_name: String },
}

/// One history entry.
#[derive(Debug, Clone)]
pub struct HistoryEntry {
    /// A UUID.
    pub id: String,
    /// Creation time, ms since the Unix epoch.
    pub timestamp_ms: u64,
    pub source: HistorySource,
    /// SHA-256 hex of the content, used to drop duplicates.
    pub content_hash: Option<String>,
    pub payload: HistoryPayload,
}

/// An exact copy of an optional string.
fn copy_opt_string(s: &Option<String>) -> (r: Option<String>)
    ensures
        r == *s,
{
    match s {
        Some(x) => Some(x.clone()),
        None => None,
    }
}

impl HistoryPayload {
    /// An exact copy.
    pub fn duplicate(&self) -> (r: HistoryPayload)
        ensures
            r == *self,
    {
        match self {
            HistoryPayload::Text { text } => HistoryPayload::Text { text: text.clone() },
            HistoryPayload::Image { width, height, data_b64 } => HistoryPayload::Image {
                width: *width,
                height: *height,
                data_b64: data_b64.clone(),
            },
            HistoryPayload::File { filename, size, saved_path, file_status, error } => HistoryPayload::File {
                filename: filename.clone(),
                size: *size,
                saved_path: copy_opt_string(saved_path),
                file_status: file_status.clone(),
                error: copy_opt_string(error),
            },
        }
    }
}

impl HistorySource {
    /// An exact copy.
    pub fn duplicate(&self) -> (r: HistorySource)
        ensures
            r == *self,
    {
        match self {
            HistorySource::Local => HistorySource::Local,
            HistorySource::Remote { device_name } => HistorySource::Remote { device_name: device_name.clone() },
        }
    }
}

impl HistoryEntry {
    /// An exact copy.
    pub fn duplicate(&self) -> (r: HistoryEntry)
        ensures
            r == *self,
    {
        HistoryEntry {
            id: self.id.clone(),
            timestamp_ms: self.timestamp_ms,
            source: self.source.duplicate(),
            content_hash: copy_opt_string(&self.content_hash),
            payload: self.payload.duplicate(),
        }
    }
}

/// The content hash of an entry, as chars.
pub open spec fn hash_of(e: HistoryEntry) -> Option<Seq<char>> {
    match e.content_hash {
        Some(h) => Some(h@),
        None => None,
    }
}

/// `s` without the entries whose hash is `h`.
pub open spec fn drop_hash(s: Seq<HistoryEntry>, h: Seq<char>) -> Seq<HistoryEntry>
    decreases s.len(),
{
    if s.len() == 0 {
        s
    } else if hash_of(s[0]) == Some(h) {
        drop_hash(s.drop_first(), h)
    } else {
        seq![s[0]] + drop_hash(s.drop_first(), h)
    }
}

/// At most the first `n` entries.
pub open spec fn cap(s: Seq<HistoryEntry>, n: nat) -> Seq<HistoryEntry> {
    if s.len() <= n {
        s
    } else {
        s.take(n as int)
    }
}

/// The history after pushing `e` onto `s`.
pub open spec fn push_spec(s: Seq<HistoryEntry>, e: HistoryEntry) -> Seq<HistoryEntry> {
    match hash_of(e) {
        Some(h) => if s.len() > 0 && hash_of(s[0]) == Some(h) {
            s
        } else {
            cap(seq![e] + drop_hash(s, h), MAX_HISTORY as nat)
        },
        None => cap(seq![e] + s, MAX_HISTORY as nat),
    }
}

/// No two entries share a content hash.
pub open spec fn hashes_distinct(s: Seq<HistoryEntry>) -> bool {
    forall|i: int, j: int|
        0 <= i < j < s.len() && (#[trigger] hash_of(s[i])) is Some ==> hash_of(s[i]) != #[trigger] hash_of(s[j])
}

/// Entries of `drop_hash(s, h)` come from `s` and none has hash `h`; distinct
/// hashes stay distinct.
proof fn lemma_drop_hash(s: Seq<HistoryEntry>, h: Seq<char>)
    ensures
        forall|i: int| 0 <= i < drop_hash(s, h).len() ==> s.contains(#[trigger] drop_hash(s, h)[i]),
        forall|i: int| 0 <= i < drop_hash(s, h).len() ==> hash_of(#[trigger] drop_hash(s, h)[i]) != Some(h),
        hashes_distinct(s) ==> hashes_distinct(drop_hash(s, h)),
        drop_hash(s, h).len() <= s.len(),
    decreases s.len(),
{
    if s.len() > 0 {
        let t = s.drop_first();
        lemma_drop_hash(t, h);
        let d = drop_hash(t, h);
        assert forall|i: int| 0 <= i < d.len() implies s.contains(#[trigger] d[i]) by {
            let j = choose|j: int| 0 <= j < t.len() && t[j] == d[i];
            assert(s[j + 1] == d[i]);
        }
        if hashes_distinct(s) {
            assert(hashes_distinct(t)) by {
                assert forall|i: int, j: int|
                    0 <= i < j < t.len() && (#[trigger] hash_of(t[i])) is Some implies hash_of(t[i]) != #[trigger] hash_of(
                        t[j],
                    ) by {
                    assert(t[i] == s[i + 1] && t[j] == s[j + 1]);
                }
            }
            if hash_of(s[0]) != Some(h) {
                let r = seq![s[0]] + d;
                assert forall|i: int, j: int|
                    0 <= i < j < r.len() && (#[trigger] hash_of(r[i])) is Some implies hash_of(r[i]) != #[trigger] hash_of(
                        r[j],
                    ) by {
                    if i == 0 {
                        assert(r[j] == d[j - 1]);
                        assert(s.contains(d[j - 1]));
                        let k = choose|k: int| 0 <= k < s.len() && s[k] == d[j - 1];
                        if k == 0 {
                            assert(hash_of(d[j - 1]) != Some(h));
                        }
                    } else {
                        assert(r[i] == d[i - 1] && r[j] == d[j - 1]);
                    }
                }
            }
        }
    }
}

/// A prefix of a sequence with distinct hashes has distinct hashes.
proof fn lemma_cap_distinct(s: Seq<HistoryEntry>, n: nat)
    requires
        hashes_distinct(s),
    ensures
        hashes_distinct(cap(s, n)),
        cap(s, n).len() <= n,
        cap(s, n).len() <= s.len(),
{
    let c = cap(s, n);
    assert forall|i: int, j: int| 0 <= i < j < c.len() && (#[trigger] hash_of(c[i])) is Some implies hash_of(c[i])
        != #[trigger] hash_of(c[j]) by {
        assert(c[i] == s[i] && c[j] == s[j]);
    }
}

/// Pushing keeps the history within 50 entries and its hashes distinct.
pub proof fn lemma_push_keeps_invariant(s: Seq<HistoryEntry>, e: HistoryEntry)
    requires
        s.len() <= MAX_HISTORY,
        hashes_distinct(s),
    ensures
        push_spec(s, e).len() <= MAX_HISTORY,
        hashes_distinct(push_spec(s, e)),
        hash_of(e) is Some ==> push_spec(s, e).len() > 0 && hash_of(push_spec(s, e)[0]) == hash_of(e),
        hash_of(e) is None ==> push_spec(s, e)[0] == e,
{
    match hash_of(e) {
        Some(h) => {
            if s.len() > 0 && hash_of(s[0]) == Some(h) {
            } else {
                lemma_drop_hash(s, h);
                let d = drop_hash(s, h);
                let r = seq![e] + d;
                assert forall|i: int, j: int|
                    0 <= i < j < r.len() && (#[trigger] hash_of(r[i])) is Some implies hash_of(r[i]) != #[trigger] hash_of(
                        r[j],
                    ) by {
                    if i == 0 {
                        assert(r[j] == d[j - 1]);
                    } else {
                        assert(r[i] == d[i - 1] && r[j] == d[j - 1]);
                    }
                }
                lemma_cap_distinct(r, MAX_HISTORY as nat);
            }
        },
        None => {
            let r = seq![e] + s;
            assert forall|i: int, j: int|
                0 <= i < j < r.len() && (#[trigger] hash_of(r[i])) is Some implies hash_of(r[i]) != #[trigger] hash_of(
                    r[j],
                ) by {
                assert(i != 0);
                assert(r[i] == s[i - 1] && r[j] == s[j - 1]);
            }
            lemma_cap_distinct(r, MAX_HISTORY as nat);
        },
    }
}

/// Dropping the entries of hash `h` keeps exactly the others, in order.
proof fn lemma_drop_hash_filter(s: Seq<HistoryEntry>, h: Seq<char>)
    ensures
        drop_hash(s, h) == s.filter(|x: HistoryEntry| hash_of(x) != Some(h)),
    decreases s.len(),
{
    let p = |x: HistoryEntry| hash_of(x) != Some(h);
    if s.len() == 0 {
        reveal(Seq::filter);
        assert(s.filter(p) =~= s);
    } else {
        let t = s.drop_first();
        lemma_drop_hash_filter(t, h);
        assert(seq![s[0]] + t =~= s);
        t.lemma_filter_prepend(s[0], p);
        if hash_of(s[0]) == Some(h) {
            assert(Seq::<HistoryEntry>::empty() + t.filter(p) =~= t.filter(p));
        }
    }
}

/// What a push does to the history, in terms of the entries alone: an entry
/// with hash `h` is ignored when the newest entry already has that hash;
/// otherwise it goes on top, every older entry of hash `h` leaves, every
/// other entry stays in its order, and only the oldest beyond 50 are dropped.
/// An entry without a hash goes on top of all others. So the history then
/// holds `min(50, 1 + n)` entries, `n` the number of kept older ones.
pub proof fn lemma_push_keeps_other_entries(s: Seq<HistoryEntry>, e: HistoryEntry)
    ensures
        ({
            let kept = match hash_of(e) {
                Some(h) => s.filter(|x: HistoryEntry| hash_of(x) != Some(h)),
                None => s,
            };
            let all = seq![e] + kept;
            &&& (hash_of(e) is Some && s.len() > 0 && hash_of(s[0]) == hash_of(e)) ==> push_spec(s, e) == s
            &&& !(hash_of(e) is Some && s.len() > 0 && hash_of(s[0]) == hash_of(e)) ==> {
                &&& push_spec(s, e) == if all.len() <= MAX_HISTORY {
                    all
                } else {
                    all.take(MAX_HISTORY as int)
                }
                &&& push_spec(s, e).len() == if 1 + kept.len() <= MAX_HISTORY {
                    (1 + kept.len()) as int
                } else {
                    MAX_HISTORY as int
                }
                &&& push_spec(s, e)[0] == e
                &&& forall|i: int| 0 <= i < kept.len() && i + 1 < MAX_HISTORY ==> #[trigger] push_spec(s, e)[i + 1] == kept[i]
            }
        }),
{
    match hash_of(e) {
        Some(h) => {
            lemma_drop_hash_filter(s, h);
        },
        None => {},
    }
}

/// The history store.
pub struct HistoryStore {
    inner: Vec<HistoryEntry>,
}

impl HistoryStore {
    /// The entries, newest first.
    pub closed spec fn entries(&self) -> Seq<HistoryEntry> {
        self.inner@
    }

    /// At most 50 entries, with distinct content hashes.
    pub closed spec fn wf(&self) -> bool {
        self.inner@.len() <= MAX_HISTORY && hashes_distinct(self.inner@)
    }

    /// An empty history.
    pub fn new() -> (r: Self)
        ensures
            r.wf(),
            r.entries() == Seq::<HistoryEntry>::empty(),
    {
        HistoryStore { inner: Vec::new() }
    }

    /// Does `x` hold the hash `h`?
    fn has_hash(x: &HistoryEntry, h: &String) -> (r: bool)
        ensures
            r == (hash_of(*x) == Some(h@)),
    {
        match &x.content_hash {
            Some(c) => *c == *h,
            None => false,
        }
    }

    /// Pushes an entry on top, dropping duplicates by content hash and the
    /// oldest entries beyond 50.
    pub fn push(&mut self, entry: HistoryEntry)
        requires
            old(self).wf(),
        ensures
            final(self).wf(),
            final(self).entries() == push_spec(old(self).entries(), entry),
            ({
                let s = old(self).entries();
                let kept = match hash_of(entry) {
                    Some(h) => s.filter(|x: HistoryEntry| hash_of(x) != Some(h)),
                    None => s,
                };
                !(hash_of(entry) is Some && s.len() > 0 && hash_of(s[0]) == hash_of(entry)) ==> {
                    &&& final(self).entries().len() == if 1 + kept.len() <= MAX_HISTORY {
                        (1 + kept.len()) as int
                    } else {
                        MAX_HISTORY as int
                    }
                    &&& final(self).entries()[0] == entry
                    &&& forall|i: int|
                        0 <= i < kept.len() && i + 1 < MAX_HISTORY ==> #[trigger] final(self).entries()[i + 1] == kept[i]
                }
            }),
            hash_of(entry) is Some && old(self).entries().len() > 0 && hash_of(old(self).entries()[0]) == hash_of(entry)
                ==> final(self).entries() == old(self).entries(),
    {
        proof {
            lemma_push_keeps_invariant(self.inner@, entry);
            lemma_push_keeps_other_entries(self.inner@, entry);
        }
        let ghost s = self.inner@;
        let mut out: Vec<HistoryEntry> = Vec::new();
        match &entry.content_hash {
            Some(h) => {
                if self.inner.len() > 0 && Self::has_hash(&self.inner[0], h) {
                    return;
                }
                out.push(entry.duplicate());
                let n = self.inner.len();
                let mut i: usize = 0;
                proof {
                    assert(s.skip(0) =~= s);
                }
                while i < n
                    invariant
                        n == s.len(),
                        i <= n,
                        s == self.inner@,
                        seq![entry] + drop_hash(s, h@) == out@ + drop_hash(s.skip(i as int), h@),
                    decreases n - i,
                {
                    proof {
                        let t = s.skip(i as int);
                        assert(t[0] == s[i as int]);
                        assert(t.drop_first() =~= s.skip(i + 1));
                    }
                    if !Self::has_hash(&self.inner[i], h) {
                        out.push(self.inner[i].duplicate());
                        proof {
                            let t = s.skip(i as int);
                            assert(out@.drop_last() + (seq![t[0]] + drop_hash(t.drop_first(), h@)) =~= out@
                                + drop_hash(s.skip(i + 1), h@));
                        }
                    }
                    i = i + 1;
                }
                proof {
                    assert(s.skip(n as int) =~= Seq::<HistoryEntry>::empty());
                    assert(out@ + Seq::<HistoryEntry>::empty() =~= out@);
                }
            },
            None => {
                out.push(entry.duplicate());
                let n = self.inner.len();
                let mut i: usize = 0;
                while i < n
                    invariant
                        n == s.len(),
                        i <= n,
                        s == self.inner@,
                        out@ == seq![entry] + s.take(i as int),
                    decreases n - i,
                {
                    out.push(self.inner[i].duplicate());
                    i = i + 1;
                    assert(out@ =~= seq![entry] + s.take(i as int));
                }
                proof {
                    assert(s.take(n as int) =~= s);
                }
            },
        }
        out.truncate(MAX_HISTORY);
        self.inner = out;
    }

    /// Removes the entries with this id; `true` if there were any.
    pub fn remove(&mut self, id: &str) -> (r: bool)
        requires
            old(self).wf(),
        ensures
            final(self).wf(),
            final(self).entries() == old(self).entries().filter(|e: HistoryEntry| e.id@ != id@),
            r == exists|i: int| 0 <= i < old(self).entries().len() && #[trigger] old(self).entries()[i].id@ == id@,
    {
        let key = id.to_owned();
        let ghost s = self.inner@;
        let ghost p: spec_fn(HistoryEntry) -> bool = |e: HistoryEntry| e.id@ != id@;
        let mut out: Vec<HistoryEntry> = Vec::new();
        let mut found = false;
        let n = self.inner.len();
        let mut i: usize = 0;
        proof {
            reveal(Seq::filter);
            assert(s.take(0).filter(p) =~= Seq::<HistoryEntry>::empty());
        }
        while i < n
            invariant
                n == s.len(),
                i <= n,
                s == self.inner@,
                p == (|e: HistoryEntry| e.id@ != id@),
                key@ == id@,
                out@ == s.take(i as int).filter(p),
                found == exists|j: int| 0 <= j < i && #[trigger] s[j].id@ == id@,
            decreases n - i,
        {
            proof {
                reveal(Seq::filter);
                assert(s.take(i + 1).drop_last() =~= s.take(i as int));
                assert(s.take(i + 1).last() == s[i as int]);
            }
            if self.inner[i].id == key {
                found = true;
            } else {
                out.push(self.inner[i].duplicate());
            }
            i = i + 1;
        }
        proof {
            assert(s.take(n as int) =~= s);
            let f = s.filter(p);
            s.lemma_filter_len(p);
            assert forall|a: int, b: int| 0 <= a < b < f.len() && (#[trigger] hash_of(f[a])) is Some implies hash_of(
                f[a],
            ) != #[trigger] hash_of(f[b]) by {
                lemma_filter_index_order(s, p, a, b);
            }
        }
        self.inner = out;
        found
    }

    /// Forgets every entry.
    pub fn clear(&mut self)
        ensures
            final(self).wf(),
            final(self).entries() == Seq::<HistoryEntry>::empty(),
    {
        self.inner = Vec::new();
    }

    /// Copies of all entries, newest first.
    pub fn snapshot(&self) -> (r: Vec<HistoryEntry>)
        ensures
            r@ == self.entries(),
    {
        let n = self.inner.len();
        let mut out: Vec<HistoryEntry> = Vec::new();
        let mut i: usize = 0;
        while i < n
            invariant
                n == self.inner@.len(),
                i <= n,
                out@ == self.inner@.take(i as int),
            decreases n - i,
        {
            out.push(self.inner[i].duplicate());
            i = i + 1;
            assert(out@ =~= self.inner@.take(i as int));
        }
        assert(self.inner@.take(n as int) =~= self.inner@);
        out
    }

    /// A copy of the newest entry with this id.
    pub fn get(&self, id: &str) -> (r: Option<HistoryEntry>)
        ensures
            r is None <==> forall|i: int| 0 <= i < self.entries().len() ==> #[trigger] self.entries()[i].id@ != id@,
            r matches Some(e) ==> exists|i: int|
                0 <= i < self.entries().len() && #[trigger] self.entries()[i] == e && e.id@ == id@ && forall|j: int|
                    0 <= j < i ==> #[trigger] self.entries()[j].id@ != id@,
    {
        let key = id.to_owned();
        let n = self.inner.len();
        let mut i: usize = 0;
        while i < n
            invariant
                n == self.inner@.len(),
                i <= n,
                key@ == id@,
                forall|j: int| 0 <= j < i ==> #[trigger] self.inner@[j].id@ != id@,
            decreases n - i,
        {
            if self.inner[i].id == key {
                return Some(self.inner[i].duplicate());
            }
            i = i + 1;
        }
        None
    }

    /// Number of entries.
    pub fn count(&self) -> (r: usize)
        ensures
            r == self.entries().len(),
    {
        self.inner.len()
    }
}

/// Elements of a filtered sequence keep their relative order: two positions
/// of the result come from two increasing positions of the source.
proof fn lemma_filter_index_order(s: Seq<HistoryEntry>, p: spec_fn(HistoryEntry) -> bool, a: int, b: int)
    requires
        0 <= a < b < s.filter(p).len(),
    ensures
        exists|i: int, j: int|
            0 <= i < j < s.len() && s[i] == s.filter(p)[a] && s[j] == s.filter(p)[b],
    decreases s.len(),
{
    reveal(Seq::filter);
    let f = s.filter(p);
    let u = s.drop_last();
    let fu = u.filter(p);
    if p(s.last()) {
        assert(f == fu.push(s.last()));
        if b < fu.len() {
            lemma_filter_index_order(u, p, a, b);
            let (i, j) = choose|i: int, j: int| 0 <= i < j < u.len() && u[i] == fu[a] && u[j] == fu[b];
            assert(s[i] == u[i] && s[j] == u[j]);
        } else {
            u.lemma_filter_len(p);
            assert(b == fu.len());
            lemma_filter_source(u, p, a);
            let i = choose|i: int| 0 <= i < u.len() && u[i] == fu[a];
            assert(s[i] == u[i]);
            assert(s[s.len() - 1] == f[b]);
        }
    } else {
        assert(f == fu);
        lemma_filter_index_order(u, p, a, b);
        let (i, j) = choose|i: int, j: int| 0 <= i < j < u.len() && u[i] == fu[a] && u[j] == fu[b];
        assert(s[i] == u[i] && s[j] == u[j]);
    }
}

/// Each element of a filtered sequence is an element of the source.
proof fn lemma_filter_source(s: Seq<HistoryEntry>, p: spec_fn(HistoryEntry) -> bool, a: int)
    requires
        0 <= a < s.filter(p).len(),
    ensures
        exists|i: int| 0 <= i < s.len() && s[i] == s.filter(p)[a],
{
    s.lemma_filter_contains_rev(p, s.filter(p)[a]);
}

/// Calls `uuid::Uuid::new_v4().to_string()`: a fresh random UUID in its
/// hyphenated form, which the crate's formatter writes as 36 chars.
#[verifier::external_body]
pub(crate) fn new_uuid_v4_string() -> (r: String)
    ensures
        r@.len() == 36,
{
    uuid::Uuid::new_v4().to_string()
}

/// A text history entry stamped now with a fresh UUID.
pub fn make_text_history_entry(text: String, source: HistorySource, content_hash: String) -> (r: HistoryEntry)
    ensures
        r.id@.len() == 36,
        r.source == source,
        r.content_hash == Some(content_hash),
        r.payload == (HistoryPayload::Text { text }),
{
    let timestamp_ms = crate::commands::now_ms();
    HistoryEntry {
        id: new_uuid_v4_string(),
        timestamp_ms,
        source,
        content_hash: Some(content_hash),
        payload: HistoryPayload::Text { text },
    }
}

} // verus!
