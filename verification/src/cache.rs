//! The fetch cache: a bounded store of source images keyed by a fingerprint
//! of their URL, with least-recently-used eviction.

use crate::recency::{
    bounded, holds, lemma_stored, lemma_touched, payload, stored, touched, Entry,
};
use crate::store::{
    lru_cap, lru_capacity, lru_contains, lru_entries, lru_get, lru_len, lru_new, lru_put,
    MAX_CAPACITY,
};
use lru::LruCache;
use std::collections::hash_map::DefaultHasher;
use std::hash::Hasher;
use vstd::prelude::*;
use vstd::std_specs::hash::DefaultHasherAdditionalSpecFns;
use vstd::utf8::encode_utf8;

verus! {

/// Capacity of a cache made by `FetchCache::default`.
pub const DEFAULT_CAPACITY: usize = 1024;

/// Byte fed to the hasher after a URL, so that no URL's input is the
/// beginning of another's.
pub const URL_TERMINATOR: u8 = 0xff;

/// Why a source image could not be fetched.
#[derive(Clone, Copy, Debug, PartialEq, Eq, Structural)]
pub enum FetchError {
    /// The request did not reach the origin or the answer did not arrive.
    Network,
    /// The origin answered with a status outside 200..=299.
    Status(u16),
    /// The origin did not answer in time.
    Timeout,
}

/// The 64-bit fingerprint of a URL: the standard hasher's digest of the
/// URL's UTF-8 bytes followed by the terminator.
pub open spec fn fingerprint_of(url: Seq<char>) -> u64 {
    DefaultHasher::spec_finish(seq![encode_utf8(url), seq![URL_TERMINATOR]])
}

/// Computes the fingerprint of `url`.
pub fn fingerprint(url: &str) -> (key: u64)
    ensures
        key == fingerprint_of(url@),
{
    let mut hasher = DefaultHasher::new();
    hasher.write(url.as_bytes());
    let end: [u8; 1] = [URL_TERMINATOR];
    hasher.write(end.as_slice());
    proof {
        assert(end@ =~= seq![URL_TERMINATOR]);
        assert(hasher@ =~= seq![encode_utf8(url@), seq![URL_TERMINATOR]]);
    }
    hasher.finish()
}

/// What a lookup found.
#[derive(Debug)]
pub enum Lookup {
    /// The image is cached: here are its bytes.
    Hit(Vec<u8>),
    /// The image is not cached; it would be stored under this key.
    Miss(u64),
}

/// A bounded cache of fetched images.
///
/// Its view is the sequence of entries, most recently used first.
pub struct FetchCache {
    store: LruCache<u64, Vec<u8>>,
}

impl View for FetchCache {
    type V = Seq<Entry>;

    closed spec fn view(&self) -> Seq<Entry> {
        lru_entries(self.store)
    }
}

impl FetchCache {
    /// The largest number of entries the cache keeps.
    pub closed spec fn cap(&self) -> nat {
        lru_cap(self.store)
    }

    /// The invariant of a cache: no key twice, and never more entries than
    /// the capacity.
    pub open spec fn wf(&self) -> bool {
        bounded(self@, self.cap())
    }

    /// An empty cache for at most `capacity` images.
    pub fn new(capacity: usize) -> (cache: FetchCache)
        requires
            capacity <= MAX_CAPACITY,
        ensures
            cache.wf(),
            cache@ == Seq::<Entry>::empty(),
            cache.cap() == capacity,
    {
        FetchCache { store: lru_new(capacity) }
    }

    /// Number of images held.
    pub fn len(&self) -> (n: usize)
        ensures
            n == self@.len(),
    {
        lru_len(&self.store)
    }

    pub fn is_empty(&self) -> (empty: bool)
        ensures
            empty == (self@.len() == 0),
    {
        lru_len(&self.store) == 0
    }

    /// The largest number of images the cache keeps.
    pub fn capacity(&self) -> (n: usize)
        ensures
            n == self.cap(),
    {
        lru_capacity(&self.store)
    }

    /// Whether an image is held under `key`. The order of use stays as it
    /// is.
    pub fn contains_key(&self, key: u64) -> (found: bool)
        ensures
            found == holds(self@, key),
    {
        lru_contains(&self.store, key)
    }

    /// Whether the image of `url` is held. The order of use stays as it is.
    pub fn contains(&self, url: &str) -> (found: bool)
        ensures
            found == holds(self@, fingerprint_of(url@)),
    {
        lru_contains(&self.store, fingerprint(url))
    }

    /// Looks up the image of `url`.
    ///
    /// A hit returns the cached bytes and makes the entry the most recently
    /// used one. A miss returns the key to store the image under and
    /// changes nothing.
    pub fn lookup(&mut self, url: &str) -> (found: Lookup)
        requires
            old(self).wf(),
        ensures
            final(self).wf(),
            final(self).cap() == old(self).cap(),
            final(self)@ == touched(old(self)@, fingerprint_of(url@)),
            match found {
                Lookup::Hit(bytes) => holds(old(self)@, fingerprint_of(url@)) && bytes@ == payload(
                    old(self)@,
                    fingerprint_of(url@),
                ),
                Lookup::Miss(key) => !holds(old(self)@, fingerprint_of(url@)) && key
                    == fingerprint_of(url@),
            },
    {
        let key = fingerprint(url);
        proof {
            lemma_touched(self@, key);
        }
        match lru_get(&mut self.store, key) {
            Some(bytes) => Lookup::Hit(bytes),
            None => Lookup::Miss(key),
        }
    }

    /// Finishes a miss with the outcome of the fetch.
    ///
    /// A failed fetch is handed back and the cache stays as it is. Fetched
    /// bytes are stored under `key` and handed back, the least recently used
    /// entry leaving if the cache was full. If the key has been filled in
    /// the meantime, the entry already there is kept and only becomes the
    /// most recently used one; the fetched bytes are still handed back.
    pub fn settle(&mut self, key: u64, outcome: Result<Vec<u8>, FetchError>) -> (r: Result<
        Vec<u8>,
        FetchError,
    >)
        requires
            old(self).wf(),
        ensures
            final(self).wf(),
            final(self).cap() == old(self).cap(),
            r == outcome,
            r is Ok && old(self).cap() > 0 ==> holds(final(self)@, key),
            final(self)@ == match outcome {
                Ok(bytes) => if holds(old(self)@, key) {
                    touched(old(self)@, key)
                } else {
                    stored(old(self)@, old(self).cap(), key, bytes@)
                },
                Err(e) => old(self)@,
            },
    {
        match outcome {
            Ok(bytes) => {
                proof {
                    lemma_touched(self@, key);
                    lemma_stored(self@, self.cap(), key, bytes@);
                }
                if lru_get(&mut self.store, key).is_none() {
                    let _ = lru_put(&mut self.store, key, copy_bytes(&bytes));
                }
                Ok(bytes)
            },
            Err(e) => Err(e),
        }
    }

    /// Returns the image of `url`, fetching it with `fetch` only if it is
    /// not cached.
    ///
    /// On a hit the cached bytes are returned and the entry becomes the most
    /// recently used one; `fetch` is not called, and need not even accept
    /// the call. On a miss `fetch` is called once with `url`: bytes that it
    /// returns are stored and returned, an error is returned and leaves the
    /// cache as it was.
    pub fn get_or_fetch<F>(&mut self, url: &str, fetch: F) -> (r: Result<Vec<u8>, FetchError>) where
        F: Fn(&str) -> Result<Vec<u8>, FetchError>,

        requires
            old(self).wf(),
            !holds(old(self)@, fingerprint_of(url@)) ==> fetch.requires((url,)),
        ensures
            final(self).wf(),
            final(self).cap() == old(self).cap(),
            holds(old(self)@, fingerprint_of(url@)) ==> {
                &&& r is Ok
                &&& r.unwrap()@ == payload(old(self)@, fingerprint_of(url@))
                &&& final(self)@ == touched(old(self)@, fingerprint_of(url@))
            },
            !holds(old(self)@, fingerprint_of(url@)) ==> {
                &&& fetch.ensures((url,), r)
                &&& final(self)@ == match r {
                    Ok(bytes) => stored(
                        old(self)@,
                        old(self).cap(),
                        fingerprint_of(url@),
                        bytes@,
                    ),
                    Err(e) => old(self)@,
                }
            },
            r is Err ==> final(self)@ == old(self)@,
            r is Ok && old(self).cap() > 0 ==> {
                &&& holds(final(self)@, fingerprint_of(url@))
                &&& payload(final(self)@, fingerprint_of(url@)) == r.unwrap()@
            },
    {
        proof {
            lemma_touched(self@, fingerprint_of(url@));
        }
        match self.lookup(url) {
            Lookup::Hit(bytes) => Ok(bytes),
            Lookup::Miss(key) => {
                let outcome = fetch(url);
                self.settle(key, outcome)
            },
        }
    }
}

impl Default for FetchCache {
    /// An empty cache of the default capacity.
    fn default() -> (cache: FetchCache)
        ensures
            cache.wf(),
            cache@ == Seq::<Entry>::empty(),
            cache.cap() == DEFAULT_CAPACITY,
    {
        FetchCache::new(DEFAULT_CAPACITY)
    }
}

/// The outcome of a fetch that was answered with `status` and `body`: the
/// body for a status in 200..=299, and `FetchError::Status` otherwise.
pub fn fetch_outcome(status: u16, body: Vec<u8>) -> (outcome: Result<Vec<u8>, FetchError>)
    ensures
        outcome == if 200 <= status <= 299 {
            Ok::<Vec<u8>, FetchError>(body)
        } else {
            Err::<Vec<u8>, FetchError>(FetchError::Status(status))
        },
{
    if 200 <= status && status <= 299 {
        Ok(body)
    } else {
        Err(FetchError::Status(status))
    }
}

/// A copy of `bytes`.
fn copy_bytes(bytes: &Vec<u8>) -> (copy: Vec<u8>)
    ensures
        copy@ == bytes@,
{
    let copy = bytes.clone();
    proof {
        assert(copy@ =~= bytes@);
    }
    copy
}

} // verus!
