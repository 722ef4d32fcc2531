//! One HTTP client per peer, keyed by device id.
//!
//! A client is only added by `insert` (on a successful handshake) or by
//! `replace` (a forced reconnect); `get` never creates one on a miss.
use vstd::prelude::*;
use crate::keyed::{
    has_key, index_of_key, key_unique, keyed_map, lemma_keyed_empty, lemma_keyed_index,
    lemma_keyed_len, lemma_keyed_push, lemma_keyed_remove, lemma_keyed_update,
};

verus! {

#[verifier::external_type_specification]
#[verifier::external_body]
pub struct ExClient(reqwest::Client);

#[verifier::external_type_specification]
#[verifier::external_body]
pub struct ExReqwestError(reqwest::Error);

/// Calls `reqwest::Client::builder().no_proxy().build()`: a client that ignores
/// system proxies, so that LAN traffic never leaves the network. Nothing is
/// claimed of the client, nor of when the build fails.
#[verifier::external_body]
pub(crate) fn build_no_proxy_client() -> (r: Result<reqwest::Client, reqwest::Error>) {
    reqwest::Client::builder().no_proxy().build()
}

/// Calls `<reqwest::Client as Clone>::clone`, a cheap handle copy. Nothing is
/// claimed of the copy.
#[verifier::external_body]
fn clone_client(c: &reqwest::Client) -> reqwest::Client {
    c.clone()
}

/// Why a client could not be (re)built.
#[derive(Debug, Clone, Copy, PartialEq, Eq, Structural)]
pub enum ClientPoolError {
    /// The HTTP client builder failed.
    Build,
}

/// The key of a pool entry: its device id.
pub open spec fn entry_key(e: (String, reqwest::Client)) -> Seq<char> {
    e.0@
}

/// Per-peer HTTP clients.
pub struct ClientPool {
    entries: Vec<(String, reqwest::Client)>,
}

impl View for ClientPool {
    type V = Map<Seq<char>, reqwest::Client>;

    closed spec fn view(&self) -> Map<Seq<char>, reqwest::Client> {
        keyed_map(self.entries@, |e: (String, reqwest::Client)| entry_key(e)).map_values(
            |e: (String, reqwest::Client)| e.1,
        )
    }
}

impl ClientPool {
    /// Device ids are distinct.
    pub closed spec fn wf(&self) -> bool {
        key_unique(self.entries@, |e: (String, reqwest::Client)| entry_key(e))
    }

    /// An empty pool.
    pub fn new() -> (r: Self)
        ensures
            r.wf(),
            r@ == Map::<Seq<char>, reqwest::Client>::empty(),
    {
        let r = ClientPool { entries: Vec::new() };
        proof {
            lemma_keyed_empty(r.entries@, |e: (String, reqwest::Client)| entry_key(e));
        }
        r
    }

    /// The index of the entry for `id`, if any.
    fn find(&self, id: &String) -> (r: Option<usize>)
        requires
            self.wf(),
        ensures
            match r {
                Some(i) => i < self.entries@.len() && self.entries@[i as int].0@ == id@,
                None => !self@.contains_key(id@),
            },
    {
        let n = self.entries.len();
        let mut i: usize = 0;
        while i < n
            invariant
                n == self.entries@.len(),
                i <= n,
                forall|j: int| 0 <= j < i ==> self.entries@[j].0@ != id@,
            decreases n - i,
        {
            if self.entries[i].0 == *id {
                return Some(i);
            }
            i = i + 1;
        }
        proof {
            let key = |e: (String, reqwest::Client)| entry_key(e);
            if has_key(self.entries@, key, id@) {
                let j = index_of_key(self.entries@, key, id@);
                assert(self.entries@[j].0@ == id@);
            }
        }
        None
    }

    /// Registers the client of a peer, replacing (and dropping) any earlier one.
    pub fn insert(&mut self, id: &str, client: reqwest::Client)
        requires
            old(self).wf(),
        ensures
            final(self).wf(),
            final(self)@ == old(self)@.insert(id@, client),
    {
        let key_s = id.to_owned();
        let ghost key = |e: (String, reqwest::Client)| entry_key(e);
        match self.find(&key_s) {
            Some(i) => {
                proof {
                    lemma_keyed_update(self.entries@, key, i as int, (key_s, client));
                }
                self.entries.set(i, (key_s, client));
                assert(self@ =~= old(self)@.insert(id@, client));
            },
            None => {
                proof {
                    if has_key(self.entries@, key, id@) {
                        let j = index_of_key(self.entries@, key, id@);
                        lemma_keyed_index(self.entries@, key, j);
                    }
                    lemma_keyed_push(self.entries@, key, (key_s, client));
                }
                self.entries.push((key_s, client));
                assert(self@ =~= old(self)@.insert(id@, client));
            },
        }
    }

    /// Installs the outcome of building a fresh client for a peer: a built
    /// client replaces (and drops) the earlier one and gives `Ok`; a failed
    /// build leaves the pool unchanged and gives `Err(Build)`.
    pub fn replace_with(&mut self, id: &str, built: Result<reqwest::Client, reqwest::Error>) -> (r: Result<
        (),
        ClientPoolError,
    >)
        requires
            old(self).wf(),
        ensures
            final(self).wf(),
            match built {
                Ok(c) => r == Ok::<(), ClientPoolError>(()) && final(self)@ == old(self)@.insert(id@, c),
                Err(_) => r == Err::<(), ClientPoolError>(ClientPoolError::Build) && final(self)@ == old(self)@,
            },
    {
        match built {
            Ok(c) => {
                self.insert(id, c);
                Ok(())
            },
            Err(_) => Err(ClientPoolError::Build),
        }
    }

    /// Drops the client of a peer and builds a fresh one (a forced reconnect).
    /// Whether the build succeeds is the HTTP library's (it fails when its TLS
    /// backend or resolver cannot start); if it fails the pool is unchanged.
    pub fn replace(&mut self, id: &str) -> (r: Result<(), ClientPoolError>)
        requires
            old(self).wf(),
        ensures
            final(self).wf(),
            r is Ok ==> exists|c: reqwest::Client| final(self)@ == #[trigger] old(self)@.insert(id@, c),
            r is Err ==> r == Err::<(), ClientPoolError>(ClientPoolError::Build) && final(self)@ == old(self)@,
    {
        let built = build_no_proxy_client();
        self.replace_with(id, built)
    }

    /// Drops every client.
    pub fn clear(&mut self)
        ensures
            final(self).wf(),
            final(self)@ == Map::<Seq<char>, reqwest::Client>::empty(),
    {
        self.entries = Vec::new();
        proof {
            lemma_keyed_empty(self.entries@, |e: (String, reqwest::Client)| entry_key(e));
            assert(self@ =~= Map::<Seq<char>, reqwest::Client>::empty());
        }
    }

    /// Removes and returns the client of a peer.
    pub fn remove(&mut self, id: &str) -> (r: Option<reqwest::Client>)
        requires
            old(self).wf(),
        ensures
            final(self).wf(),
            final(self)@ == old(self)@.remove(id@),
            r is Some <==> old(self)@.contains_key(id@),
            r matches Some(c) ==> c == old(self)@[id@],
    {
        let key_s = id.to_owned();
        let ghost key = |e: (String, reqwest::Client)| entry_key(e);
        match self.find(&key_s) {
            Some(i) => {
                proof {
                    lemma_keyed_remove(self.entries@, key, i as int);
                    lemma_keyed_index(self.entries@, key, i as int);
                }
                let (_, c) = self.entries.remove(i);
                assert(self@ =~= old(self)@.remove(id@));
                Some(c)
            },
            None => {
                assert(old(self)@.remove(id@) =~= old(self)@);
                assert(self@ == old(self)@);
                None
            },
        }
    }

    /// A handle to the client of a peer; `None` on a miss (no client is created).
    pub fn get(&self, id: &str) -> (r: Option<reqwest::Client>)
        requires
            self.wf(),
        ensures
            r is Some <==> self@.contains_key(id@),
    {
        let key_s = id.to_owned();
        match self.find(&key_s) {
            Some(i) => {
                proof {
                    lemma_keyed_index(self.entries@, |e: (String, reqwest::Client)| entry_key(e), i as int);
                }
                Some(clone_client(&self.entries[i].1))
            },
            None => None,
        }
    }

    /// Is there a client for `id`?
    pub fn contains(&self, id: &str) -> (r: bool)
        requires
            self.wf(),
        ensures
            r == self@.contains_key(id@),
    {
        let key_s = id.to_owned();
        match self.find(&key_s) {
            Some(i) => {
                proof {
                    lemma_keyed_index(self.entries@, |e: (String, reqwest::Client)| entry_key(e), i as int);
                }
                true
            },
            None => false,
        }
    }

    /// Number of clients.
    pub fn len(&self) -> (r: usize)
        requires
            self.wf(),
        ensures
            r == self@.len(),
    {
        proof {
            let key = |e: (String, reqwest::Client)| entry_key(e);
            lemma_keyed_len(self.entries@, key);
            assert(self@.dom() =~= keyed_map(self.entries@, key).dom());
        }
        self.entries.len()
    }

    /// Is the pool empty?
    pub fn is_empty(&self) -> (r: bool)
        requires
            self.wf(),
        ensures
            r == (self@.len() == 0),
    {
        proof {
            let key = |e: (String, reqwest::Client)| entry_key(e);
            lemma_keyed_len(self.entries@, key);
            assert(self@.dom() =~= keyed_map(self.entries@, key).dom());
        }
        self.entries.len() == 0
    }
}

} // verus!
