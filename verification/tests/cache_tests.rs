use std::cell::{Cell, RefCell};
use std::collections::hash_map::DefaultHasher;
use std::hash::{Hash, Hasher};
use thumbor::cache::{fetch_outcome, fingerprint, FetchCache, FetchError, Lookup, DEFAULT_CAPACITY};
use thumbor::store::MAX_CAPACITY;

const URL_A: &str = "https://example.com/a.jpg";
const URL_B: &str = "https://example.com/b.jpg";
const URL_C: &str = "https://example.com/c.jpg";

fn body_of(url: &str) -> Vec<u8> {
    url.as_bytes().to_vec()
}

#[test]
fn fingerprint_is_the_standard_hash_of_the_string() {
    for url in [URL_A, URL_B, "", "a", "\u{1f496}"] {
        let mut hasher = DefaultHasher::new();
        url.hash(&mut hasher);
        assert_eq!(fingerprint(url), hasher.finish());
    }
}

#[test]
fn fingerprint_depends_on_the_url_alone() {
    assert_eq!(fingerprint(URL_A), fingerprint(&String::from(URL_A)));
    assert_ne!(fingerprint(URL_A), fingerprint(URL_B));
    assert_ne!(fingerprint(""), fingerprint("\u{0}"));
}

#[test]
fn new_cache_is_empty() {
    let cache = FetchCache::new(3);
    assert_eq!(cache.len(), 0);
    assert!(cache.is_empty());
    assert_eq!(cache.capacity(), 3);
    assert!(!cache.contains(URL_A));
    let cache = FetchCache::default();
    assert_eq!(cache.capacity(), DEFAULT_CAPACITY);
    assert_eq!(DEFAULT_CAPACITY, 1024);
    assert!(cache.is_empty());
    let cache = FetchCache::new(MAX_CAPACITY);
    assert_eq!(cache.capacity(), 1_048_576);
}

#[test]
fn second_request_for_a_url_does_not_fetch() {
    let calls = Cell::new(0u32);
    let fetch = |url: &str| -> Result<Vec<u8>, FetchError> {
        calls.set(calls.get() + 1);
        Ok(body_of(url))
    };
    let mut cache = FetchCache::new(4);
    assert_eq!(cache.get_or_fetch(URL_A, &fetch), Ok(body_of(URL_A)));
    assert_eq!(calls.get(), 1);
    assert_eq!(cache.get_or_fetch(URL_A, &fetch), Ok(body_of(URL_A)));
    assert_eq!(calls.get(), 1);
    assert_eq!(cache.len(), 1);
    assert!(cache.contains(URL_A));
    assert!(cache.contains_key(fingerprint(URL_A)));
}

#[test]
fn hit_returns_the_cached_bytes_not_a_new_fetch() {
    let mut cache = FetchCache::new(4);
    let first = |_: &str| -> Result<Vec<u8>, FetchError> { Ok(vec![1, 2, 3]) };
    let second = |_: &str| -> Result<Vec<u8>, FetchError> { Ok(vec![9, 9]) };
    assert_eq!(cache.get_or_fetch(URL_A, first), Ok(vec![1, 2, 3]));
    assert_eq!(cache.get_or_fetch(URL_A, second), Ok(vec![1, 2, 3]));
}

#[test]
fn hit_does_not_call_a_fetch_that_would_panic() {
    let mut cache = FetchCache::new(1);
    let first = |_: &str| -> Result<Vec<u8>, FetchError> { Ok(vec![7]) };
    assert_eq!(cache.get_or_fetch(URL_A, first), Ok(vec![7]));
    let never = |_: &str| -> Result<Vec<u8>, FetchError> { panic!("fetched on a hit") };
    assert_eq!(cache.get_or_fetch(URL_A, never), Ok(vec![7]));
}

#[test]
fn fetch_is_called_with_the_requested_url() {
    let seen = RefCell::new(Vec::new());
    let fetch = |url: &str| -> Result<Vec<u8>, FetchError> {
        seen.borrow_mut().push(url.to_string());
        Ok(Vec::new())
    };
    let mut cache = FetchCache::new(2);
    assert_eq!(cache.get_or_fetch(URL_B, &fetch), Ok(Vec::new()));
    assert_eq!(*seen.borrow(), vec![URL_B.to_string()]);
}

#[test]
fn full_cache_evicts_the_least_recently_used() {
    let calls = Cell::new(0u32);
    let fetch = |url: &str| -> Result<Vec<u8>, FetchError> {
        calls.set(calls.get() + 1);
        Ok(body_of(url))
    };
    let mut cache = FetchCache::new(2);
    cache.get_or_fetch(URL_A, &fetch).unwrap();
    cache.get_or_fetch(URL_B, &fetch).unwrap();
    assert_eq!(calls.get(), 2);
    assert_eq!(cache.len(), 2);
    // one more distinct key: the oldest entry leaves
    cache.get_or_fetch(URL_C, &fetch).unwrap();
    assert_eq!(calls.get(), 3);
    assert_eq!(cache.len(), 2);
    assert!(!cache.contains(URL_A));
    assert!(cache.contains(URL_B));
    assert!(cache.contains(URL_C));
    // the evicted key is fetched afresh
    assert_eq!(cache.get_or_fetch(URL_A, &fetch), Ok(body_of(URL_A)));
    assert_eq!(calls.get(), 4);
    // and that in turn evicted B, the least recently used of B and C
    assert!(!cache.contains(URL_B));
    assert!(cache.contains(URL_C));
}

#[test]
fn a_hit_refreshes_recency() {
    let calls = Cell::new(0u32);
    let fetch = |url: &str| -> Result<Vec<u8>, FetchError> {
        calls.set(calls.get() + 1);
        Ok(body_of(url))
    };
    let mut cache = FetchCache::new(2);
    cache.get_or_fetch(URL_A, &fetch).unwrap();
    cache.get_or_fetch(URL_B, &fetch).unwrap();
    // A is used again, so B is now the least recently used
    cache.get_or_fetch(URL_A, &fetch).unwrap();
    assert_eq!(calls.get(), 2);
    cache.get_or_fetch(URL_C, &fetch).unwrap();
    assert_eq!(calls.get(), 3);
    assert!(cache.contains(URL_A));
    assert!(!cache.contains(URL_B));
    assert!(cache.contains(URL_C));
}

#[test]
fn contains_does_not_refresh_recency() {
    let fetch = |url: &str| -> Result<Vec<u8>, FetchError> { Ok(body_of(url)) };
    let mut cache = FetchCache::new(2);
    cache.get_or_fetch(URL_A, fetch).unwrap();
    cache.get_or_fetch(URL_B, fetch).unwrap();
    assert!(cache.contains(URL_A));
    cache.get_or_fetch(URL_C, fetch).unwrap();
    assert!(!cache.contains(URL_A));
}

#[test]
fn failed_fetch_leaves_the_cache_as_it_was() {
    let calls = Cell::new(0u32);
    let failing = |_: &str| -> Result<Vec<u8>, FetchError> {
        calls.set(calls.get() + 1);
        Err(FetchError::Network)
    };
    let mut cache = FetchCache::new(2);
    for attempt in 1..=3 {
        assert_eq!(cache.get_or_fetch(URL_A, &failing), Err(FetchError::Network));
        assert_eq!(calls.get(), attempt);
        assert!(cache.is_empty());
        assert!(!cache.contains(URL_A));
    }
}

#[test]
fn failed_fetch_evicts_nothing() {
    let ok = |url: &str| -> Result<Vec<u8>, FetchError> { Ok(body_of(url)) };
    let failing = |_: &str| -> Result<Vec<u8>, FetchError> { Err(FetchError::Timeout) };
    let mut cache = FetchCache::new(2);
    cache.get_or_fetch(URL_A, ok).unwrap();
    cache.get_or_fetch(URL_B, ok).unwrap();
    assert_eq!(cache.get_or_fetch(URL_C, failing), Err(FetchError::Timeout));
    assert_eq!(cache.len(), 2);
    assert!(cache.contains(URL_A));
    assert!(cache.contains(URL_B));
    assert!(!cache.contains(URL_C));
}

#[test]
fn cache_of_capacity_zero_keeps_nothing() {
    let calls = Cell::new(0u32);
    let fetch = |url: &str| -> Result<Vec<u8>, FetchError> {
        calls.set(calls.get() + 1);
        Ok(body_of(url))
    };
    let mut cache = FetchCache::new(0);
    assert_eq!(cache.get_or_fetch(URL_A, &fetch), Ok(body_of(URL_A)));
    assert_eq!(cache.get_or_fetch(URL_A, &fetch), Ok(body_of(URL_A)));
    assert_eq!(calls.get(), 2);
    assert!(cache.is_empty());
}

#[test]
fn cache_of_capacity_one_keeps_the_last() {
    let fetch = |url: &str| -> Result<Vec<u8>, FetchError> { Ok(body_of(url)) };
    let mut cache = FetchCache::new(1);
    cache.get_or_fetch(URL_A, fetch).unwrap();
    cache.get_or_fetch(URL_B, fetch).unwrap();
    assert_eq!(cache.len(), 1);
    assert!(cache.contains(URL_B));
    assert!(!cache.contains(URL_A));
}

#[test]
fn lookup_and_settle_do_a_miss_in_two_steps() {
    let mut cache = FetchCache::new(2);
    let key = match cache.lookup(URL_A) {
        Lookup::Miss(key) => key,
        Lookup::Hit(_) => panic!("hit in an empty cache"),
    };
    assert_eq!(key, fingerprint(URL_A));
    assert!(cache.is_empty());
    assert_eq!(cache.settle(key, Ok(vec![4, 5])), Ok(vec![4, 5]));
    assert_eq!(cache.len(), 1);
    match cache.lookup(URL_A) {
        Lookup::Hit(bytes) => assert_eq!(bytes, vec![4, 5]),
        Lookup::Miss(_) => panic!("miss after a store"),
    }
}

#[test]
fn settle_with_an_error_stores_nothing() {
    let mut cache = FetchCache::new(2);
    let key = fingerprint(URL_A);
    assert_eq!(cache.settle(key, Err(FetchError::Status(404))), Err(FetchError::Status(404)));
    assert!(cache.is_empty());
    assert!(matches!(cache.lookup(URL_A), Lookup::Miss(k) if k == key));
}

#[test]
fn settle_keeps_an_entry_that_is_already_there() {
    let mut cache = FetchCache::new(2);
    let key_a = fingerprint(URL_A);
    let key_b = fingerprint(URL_B);
    cache.settle(key_a, Ok(vec![1])).unwrap();
    cache.settle(key_b, Ok(vec![2])).unwrap();
    // a second fetch of A arrives late: the entry stays, and is now the most recent
    assert_eq!(cache.settle(key_a, Ok(vec![3])), Ok(vec![3]));
    assert_eq!(cache.len(), 2);
    assert!(matches!(cache.lookup(URL_A), Lookup::Hit(bytes) if bytes == vec![1]));
    cache.settle(fingerprint(URL_C), Ok(vec![4])).unwrap();
    assert!(cache.contains(URL_A));
    assert!(!cache.contains(URL_B));
}

#[test]
fn only_a_success_status_gives_the_body() {
    assert_eq!(fetch_outcome(200, vec![1, 2]), Ok(vec![1, 2]));
    assert_eq!(fetch_outcome(204, Vec::new()), Ok(Vec::new()));
    assert_eq!(fetch_outcome(299, vec![0]), Ok(vec![0]));
    assert_eq!(fetch_outcome(199, vec![0]), Err(FetchError::Status(199)));
    assert_eq!(fetch_outcome(300, vec![0]), Err(FetchError::Status(300)));
    assert_eq!(fetch_outcome(404, vec![0]), Err(FetchError::Status(404)));
    assert_eq!(fetch_outcome(500, vec![0]), Err(FetchError::Status(500)));
}
