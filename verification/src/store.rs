//! The `lru` crate's cache as this library sees it.
//!
//! Nothing here is proved: each contract states what the crate's `LruCache`
//! does, over the recency model, and the rest of the library is verified
//! against these statements.

use crate::recency::{holds, payload, stored, touched, Entry};
use lru::LruCache;
use vstd::prelude::*;

verus! {

/// Largest capacity a cache is created with: the table for that many
/// entries is allocated up front.
pub const MAX_CAPACITY: usize = 1_048_576;

/// `lru::LruCache`, whose inside the verifier does not see.
#[verifier::external_type_specification]
#[verifier::external_body]
#[verifier::reject_recursive_types(K)]
#[verifier::reject_recursive_types(V)]
#[verifier::reject_recursive_types(S)]
pub struct ExLruCache<K, V, S>(LruCache<K, V, S>);

/// `lru::DefaultHasher`, the hasher type of a cache made by `LruCache::new`.
#[verifier::external_type_specification]
#[verifier::external_body]
pub struct ExLruHasher(lru::DefaultHasher);

/// What the cache holds, most recently used entry first.
pub uninterp spec fn lru_entries(store: LruCache<u64, Vec<u8>>) -> Seq<Entry>;

/// The capacity the cache was created with.
pub uninterp spec fn lru_cap(store: LruCache<u64, Vec<u8>>) -> nat;

/// `LruCache::new`: an empty cache that holds at most `cap` entries.
#[verifier::external_body]
pub(crate) fn lru_new(cap: usize) -> (store: LruCache<u64, Vec<u8>>)
    requires
        cap <= MAX_CAPACITY,
    ensures
        lru_entries(store) == Seq::<Entry>::empty(),
        lru_cap(store) == cap,
{
    LruCache::new(cap)
}

/// `LruCache::len`: the number of entries.
#[verifier::external_body]
pub(crate) fn lru_len(store: &LruCache<u64, Vec<u8>>) -> (n: usize)
    ensures
        n == lru_entries(*store).len(),
{
    store.len()
}

/// `LruCache::cap`: the capacity.
#[verifier::external_body]
pub(crate) fn lru_capacity(store: &LruCache<u64, Vec<u8>>) -> (n: usize)
    ensures
        n == lru_cap(*store),
{
    store.cap()
}

/// `LruCache::contains`: whether the key is held; the order of use does
/// not change.
#[verifier::external_body]
pub(crate) fn lru_contains(store: &LruCache<u64, Vec<u8>>, key: u64) -> (found: bool)
    ensures
        found == holds(lru_entries(*store), key),
{
    store.contains(&key)
}

/// `LruCache::get`: a copy of the bytes under `key`, whose entry moves to
/// the front; `None`, and no change, where the key is not held.
#[verifier::external_body]
pub(crate) fn lru_get(store: &mut LruCache<u64, Vec<u8>>, key: u64) -> (found: Option<Vec<u8>>)
    ensures
        lru_cap(*final(store)) == lru_cap(*old(store)),
        lru_entries(*final(store)) == touched(lru_entries(*old(store)), key),
        found is Some <==> holds(lru_entries(*old(store)), key),
        found is Some ==> found.unwrap()@ == payload(lru_entries(*old(store)), key),
{
    store.get(&key).cloned()
}

/// `LruCache::put`: stores `value` under `key` at the front. An entry with
/// that key is replaced and its bytes are returned; otherwise `None` is
/// returned, and the least recently used entry is dropped if the cache was
/// full. A cache of capacity zero stores nothing.
#[verifier::external_body]
pub(crate) fn lru_put(store: &mut LruCache<u64, Vec<u8>>, key: u64, value: Vec<u8>) -> (replaced:
    Option<Vec<u8>>)
    ensures
        lru_cap(*final(store)) == lru_cap(*old(store)),
        lru_entries(*final(store)) == stored(
            lru_entries(*old(store)),
            lru_cap(*old(store)),
            key,
            value@,
        ),
        replaced is Some <==> holds(lru_entries(*old(store)), key),
        replaced is Some ==> replaced.unwrap()@ == payload(lru_entries(*old(store)), key),
{
    store.put(key, value)
}

} // verus!
