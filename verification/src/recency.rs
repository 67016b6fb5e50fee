//! The mathematical model of a bounded store ordered by recency of use.
//!
//! A store is a sequence of entries, most recently used first. Looking a key
//! up moves its entry to the front; storing under a new key puts the entry
//! at the front and, when the store is full, drops the entry at the back.

use vstd::prelude::*;

verus! {

/// One entry: a key and the bytes kept under it.
pub type Entry = (u64, Seq<u8>);

/// Whether some entry has the key `key`.
pub open spec fn holds(entries: Seq<Entry>, key: u64) -> bool {
    exists|i: int| 0 <= i < entries.len() && (#[trigger] entries[i]).0 == key
}

/// The position of an entry with the key `key`, where there is one.
pub open spec fn slot(entries: Seq<Entry>, key: u64) -> int {
    choose|i: int| 0 <= i < entries.len() && (#[trigger] entries[i]).0 == key
}

/// The bytes kept under `key`, where there are any.
pub open spec fn payload(entries: Seq<Entry>, key: u64) -> Seq<u8> {
    entries[slot(entries, key)].1
}

/// Whether no key occurs twice.
pub open spec fn distinct_keys(entries: Seq<Entry>) -> bool {
    forall|i: int, j: int|
        0 <= i < j < entries.len() ==> (#[trigger] entries[i]).0 != (#[trigger] entries[j]).0
}

/// The store after `key` was looked up: its entry, if there is one, has
/// moved to the front.
pub open spec fn touched(entries: Seq<Entry>, key: u64) -> Seq<Entry> {
    if holds(entries, key) {
        seq![entries[slot(entries, key)]] + entries.remove(slot(entries, key))
    } else {
        entries
    }
}

/// The store of capacity `cap` after `value` was stored under `key`.
///
/// An entry with that key is replaced and moves to the front. Otherwise the
/// new entry goes to the front, after the entry at the back has been
/// dropped if the store was full; a store of capacity zero stays empty.
pub open spec fn stored(entries: Seq<Entry>, cap: nat, key: u64, value: Seq<u8>) -> Seq<Entry> {
    if holds(entries, key) {
        seq![(key, value)] + entries.remove(slot(entries, key))
    } else if cap == 0 {
        entries
    } else if entries.len() == cap {
        seq![(key, value)] + entries.drop_last()
    } else {
        seq![(key, value)] + entries
    }
}

/// A store within its bounds: no key twice, and no more entries than the
/// capacity.
pub open spec fn bounded(entries: Seq<Entry>, cap: nat) -> bool {
    distinct_keys(entries) && entries.len() <= cap
}

/// With distinct keys, the position of a key is the one place where it
/// stands.
pub proof fn lemma_slot_unique(entries: Seq<Entry>, i: int)
    requires
        distinct_keys(entries),
        0 <= i < entries.len(),
    ensures
        holds(entries, entries[i].0),
        slot(entries, entries[i].0) == i,
        payload(entries, entries[i].0) == entries[i].1,
{
    let key = entries[i].0;
    let s = slot(entries, key);
    assert(0 <= s < entries.len() && entries[s].0 == key);
    if s < i {
        assert(entries[s].0 != entries[i].0);
    } else if i < s {
        assert(entries[i].0 != entries[s].0);
    }
}

/// Removing one entry keeps the keys distinct, and keeps every other key.
pub proof fn lemma_remove_keeps(entries: Seq<Entry>, at: int)
    requires
        distinct_keys(entries),
        0 <= at < entries.len(),
    ensures
        distinct_keys(entries.remove(at)),
        !holds(entries.remove(at), entries[at].0),
        forall|key: u64|
            key != entries[at].0 ==> (holds(entries, key) <==> #[trigger] holds(
                entries.remove(at),
                key,
            )),
        forall|key: u64|
            key != entries[at].0 && holds(entries, key) ==> #[trigger] payload(
                entries.remove(at),
                key,
            ) == payload(entries, key),
{
    let rest = entries.remove(at);
    assert forall|i: int, j: int| 0 <= i < j < rest.len() implies (#[trigger] rest[i]).0 != (
    #[trigger] rest[j]).0 by {
        let a = if i < at { i } else { i + 1 };
        let b = if j < at { j } else { j + 1 };
        assert(rest[i] == entries[a]);
        assert(rest[j] == entries[b]);
        assert(entries[a].0 != entries[b].0);
    }
    if holds(rest, entries[at].0) {
        let i = slot(rest, entries[at].0);
        let a = if i < at { i } else { i + 1 };
        assert(rest[i] == entries[a]);
        if a < at {
            assert(entries[a].0 != entries[at].0);
        } else {
            assert(entries[at].0 != entries[a].0);
        }
    }
    assert forall|key: u64| key != entries[at].0 implies (holds(entries, key) <==> #[trigger] holds(
        rest,
        key,
    )) by {
        if holds(entries, key) {
            let i = slot(entries, key);
            let r = if i < at { i } else { i - 1 };
            assert(rest[r] == entries[i]);
        }
        if holds(rest, key) {
            let r = slot(rest, key);
            let i = if r < at { r } else { r + 1 };
            assert(rest[r] == entries[i]);
        }
    }
    assert forall|key: u64| key != entries[at].0 && holds(entries, key) implies #[trigger] payload(
        rest,
        key,
    ) == payload(entries, key) by {
        let i = slot(entries, key);
        let r = if i < at { i } else { i - 1 };
        assert(rest[r] == entries[i]);
        lemma_slot_unique(rest, r);
    }
}

/// Putting an entry with a new key in front keeps the keys distinct, holds
/// the new key with its bytes at the front, and keeps every other key.
pub proof fn lemma_front_keeps(entries: Seq<Entry>, entry: Entry)
    requires
        distinct_keys(entries),
        !holds(entries, entry.0),
    ensures
        distinct_keys(seq![entry] + entries),
        holds(seq![entry] + entries, entry.0),
        slot(seq![entry] + entries, entry.0) == 0,
        payload(seq![entry] + entries, entry.0) == entry.1,
        forall|key: u64|
            key != entry.0 ==> (holds(entries, key) <==> #[trigger] holds(
                seq![entry] + entries,
                key,
            )),
        forall|key: u64|
            key != entry.0 && holds(entries, key) ==> #[trigger] payload(
                seq![entry] + entries,
                key,
            ) == payload(entries, key),
{
    let all = seq![entry] + entries;
    assert forall|i: int, j: int| 0 <= i < j < all.len() implies (#[trigger] all[i]).0 != (
    #[trigger] all[j]).0 by {
        assert(all[j] == entries[j - 1]);
        if i == 0 {
            assert(all[0] == entry);
        } else {
            assert(all[i] == entries[i - 1]);
            assert(entries[i - 1].0 != entries[j - 1].0);
        }
    }
    assert(all[0] == entry);
    lemma_slot_unique(all, 0);
    assert forall|key: u64| key != entry.0 implies (holds(entries, key) <==> #[trigger] holds(
        all,
        key,
    )) by {
        if holds(entries, key) {
            let i = slot(entries, key);
            assert(all[i + 1] == entries[i]);
        }
        if holds(all, key) {
            let i = slot(all, key);
            assert(i > 0);
            assert(all[i] == entries[i - 1]);
        }
    }
    assert forall|key: u64| key != entry.0 && holds(entries, key) implies #[trigger] payload(
        all,
        key,
    ) == payload(entries, key) by {
        let i = slot(entries, key);
        assert(all[i + 1] == entries[i]);
        lemma_slot_unique(all, i + 1);
    }
}

/// A lookup changes the order only: the same keys with the same bytes stay,
/// no key occurs twice, and the key looked up, if held, is now in front.
pub proof fn lemma_touched(entries: Seq<Entry>, key: u64)
    requires
        distinct_keys(entries),
    ensures
        distinct_keys(touched(entries, key)),
        touched(entries, key).len() == entries.len(),
        holds(entries, key) ==> touched(entries, key)[0] == (key, payload(entries, key)),
        forall|other: u64|
            holds(entries, other) <==> #[trigger] holds(touched(entries, key), other),
        forall|other: u64|
            holds(entries, other) ==> #[trigger] payload(touched(entries, key), other) == payload(
                entries,
                other,
            ),
{
    if holds(entries, key) {
        let at = slot(entries, key);
        let entry = entries[at];
        let rest = entries.remove(at);
        lemma_slot_unique(entries, at);
        lemma_remove_keeps(entries, at);
        lemma_front_keeps(rest, entry);
        assert(touched(entries, key) == seq![entry] + rest);
        assert(entry == (key, payload(entries, key)));
        assert forall|other: u64| holds(entries, other) <==> #[trigger] holds(
            touched(entries, key),
            other,
        ) by {
            if other != key {
                assert(holds(entries, other) <==> holds(rest, other));
            }
        }
        assert forall|other: u64| holds(entries, other) implies #[trigger] payload(
            touched(entries, key),
            other,
        ) == payload(entries, other) by {
            if other != key {
                assert(holds(rest, other));
                assert(payload(rest, other) == payload(entries, other));
            }
        }
    }
}

/// Storing keeps a store within its bounds and, unless the capacity is
/// zero, leaves the key in front with the bytes stored.
pub proof fn lemma_stored(entries: Seq<Entry>, cap: nat, key: u64, value: Seq<u8>)
    requires
        bounded(entries, cap),
    ensures
        bounded(stored(entries, cap, key, value), cap),
        cap > 0 || holds(entries, key) ==> {
            &&& holds(stored(entries, cap, key, value), key)
            &&& payload(stored(entries, cap, key, value), key) == value
            &&& stored(entries, cap, key, value)[0] == (key, value)
        },
        cap == 0 ==> stored(entries, cap, key, value) == entries,
{
    let entry = (key, value);
    if holds(entries, key) {
        let at = slot(entries, key);
        lemma_remove_keeps(entries, at);
        lemma_front_keeps(entries.remove(at), entry);
    } else if cap == 0 {
    } else if entries.len() == cap {
        let last = entries.len() - 1;
        assert(entries.drop_last() =~= entries.remove(last));
        lemma_remove_keeps(entries, last);
        lemma_front_keeps(entries.remove(last), entry);
    } else {
        lemma_front_keeps(entries, entry);
    }
}

/// Eviction: storing under a new key in a full store drops exactly the
/// least recently used entry, the one at the back, and keeps every other
/// entry with its bytes.
pub proof fn lemma_stored_evicts_last(entries: Seq<Entry>, cap: nat, key: u64, value: Seq<u8>)
    requires
        bounded(entries, cap),
        cap > 0,
        entries.len() == cap,
        !holds(entries, key),
    ensures
        stored(entries, cap, key, value).len() == cap,
        !holds(stored(entries, cap, key, value), entries.last().0),
        forall|other: u64|
            other != entries.last().0 && holds(entries, other) ==> #[trigger] holds(
                stored(entries, cap, key, value),
                other,
            ),
        forall|other: u64|
            other != entries.last().0 && holds(entries, other) ==> #[trigger] payload(
                stored(entries, cap, key, value),
                other,
            ) == payload(entries, other),
{
    let entry = (key, value);
    let last = entries.len() - 1;
    let rest = entries.remove(last);
    assert(entries.drop_last() =~= rest);
    lemma_slot_unique(entries, last);
    lemma_remove_keeps(entries, last);
    lemma_front_keeps(rest, entry);
    assert(stored(entries, cap, key, value) == seq![entry] + rest);
    assert forall|other: u64| other != entries.last().0 && holds(entries, other) implies (
    #[trigger] holds(stored(entries, cap, key, value), other) && payload(
        stored(entries, cap, key, value),
        other,
    ) == payload(entries, other)) by {
        assert(holds(rest, other));
        assert(payload(rest, other) == payload(entries, other));
        assert(other != key);
    }
}

/// Storing under a new key in a store that is not full drops nothing.
pub proof fn lemma_stored_keeps_all(entries: Seq<Entry>, cap: nat, key: u64, value: Seq<u8>)
    requires
        bounded(entries, cap),
        entries.len() < cap,
        !holds(entries, key),
    ensures
        stored(entries, cap, key, value).len() == entries.len() + 1,
        forall|other: u64|
            holds(entries, other) ==> #[trigger] holds(stored(entries, cap, key, value), other),
        forall|other: u64|
            holds(entries, other) ==> #[trigger] payload(stored(entries, cap, key, value), other)
                == payload(entries, other),
{
    lemma_front_keeps(entries, (key, value));
    assert forall|other: u64| holds(entries, other) implies (#[trigger] holds(
        stored(entries, cap, key, value),
        other,
    ) && payload(stored(entries, cap, key, value), other) == payload(entries, other)) by {
        assert(other != key);
    }
}

/// The store after a request for `key` that ended well: the entry was
/// there and was looked up, or `fetched` was stored under the key.
pub open spec fn served(entries: Seq<Entry>, cap: nat, key: u64, fetched: Seq<u8>) -> Seq<Entry> {
    if holds(entries, key) {
        touched(entries, key)
    } else {
        stored(entries, cap, key, fetched)
    }
}

/// After a request that ended well, the key is held, so the next request
/// for it is a hit and needs no fetch. The bytes held are those that the
/// request returned: the ones already cached, or else the ones fetched.
pub proof fn lemma_served_then_held(entries: Seq<Entry>, cap: nat, key: u64, fetched: Seq<u8>)
    requires
        bounded(entries, cap),
        cap > 0,
    ensures
        bounded(served(entries, cap, key, fetched), cap),
        holds(served(entries, cap, key, fetched), key),
        served(entries, cap, key, fetched)[0].0 == key,
        payload(served(entries, cap, key, fetched), key) == if holds(entries, key) {
            payload(entries, key)
        } else {
            fetched
        },
{
    lemma_touched(entries, key);
    lemma_stored(entries, cap, key, fetched);
    if holds(entries, key) {
        lemma_slot_unique(touched(entries, key), 0);
    }
}

} // verus!
