//! What holds of the cache across several operations, proved over the model
//! in which each operation's contract is stated.
//!
//! The clock readings appear as parameters. Nothing is assumed of them but
//! what a law's `requires` says.

use crate::entry::Entry;
use crate::store::{expired, Slot, Store};
use vstd::prelude::*;

verus! {

/// In a cache whose values never expire, the last write wins. After `v1`
/// and then `v2` are inserted under a key that was absent, the first insert
/// reported no previous value, the second reported `v1`, and every later
/// read sees `v2`, whatever the clock read at each step.
pub proof fn law_last_write_wins<K, V>(
    store: Store<K, V>,
    k: K,
    v1: V,
    v2: V,
    t1: u128,
    t2: u128,
    t3: u128,
)
    requires
        store.expiry is None,
        !store.slots.contains_key(k),
    ensures
        store.stored(k) is None,
        store.insert_at(k, v1, t1).stored(k) == Some(v1),
        store.insert_at(k, v1, t1).insert_at(k, v2, t2).lookup_at(k, t3) == Some(v2),
{
}

/// With an expiry duration `d`, a value inserted at `t` is seen by a read at
/// `now` exactly while no more than `d` has passed, so a read at `t` itself
/// sees it. Once it has expired it is still stored, and the next insert
/// under its key reports it as the previous value.
pub proof fn law_expiry<K, V>(store: Store<K, V>, k: K, v: V, d: u128, t: u128, now: u128)
    requires
        store.expiry == Some(d),
    ensures
        store.insert_at(k, v, t).lookup_at(k, t) == Some(v),
        now - t <= d ==> store.insert_at(k, v, t).lookup_at(k, now) == Some(v),
        now - t > d ==> store.insert_at(k, v, t).lookup_at(k, now) is None,
        store.insert_at(k, v, t).stored(k) == Some(v),
{
}

/// A key that is not fresh at one reading of the clock is not fresh at any
/// later one, as long as nothing is written under it. So where a producer
/// has failed, and the cache is left as it was, a read still does not see
/// the key that the producer was asked for.
pub proof fn law_stale_stays_stale<K, V>(store: Store<K, V>, k: K, now: u128, later: u128)
    requires
        now <= later,
        !store.fresh_at(k, now),
    ensures
        !store.fresh_at(k, later),
        store.lookup_at(k, later) is None,
{
}

/// The entry made at `now` for a key that is fresh then is occupied and
/// holds the key's value, so no default is asked for.
pub proof fn law_fresh_entry_is_occupied<K, V>(
    store: Store<K, V>,
    k: K,
    now: u128,
    entry: Entry<K, V>,
)
    requires
        store.fresh_at(k, now),
        entry.value() == store.lookup_at(k, now),
    ensures
        entry is Occupied,
        entry.value() == Some(store.slots[k].value),
{
}

/// The entry made for an absent key is vacant whatever the clock reads.
/// Left alone, the key stays unseen; once `v` has gone in through the entry
/// at `stamp`, a read at `later` sees `v`, provided `v` has not expired by
/// then.
pub proof fn law_vacant_entry_populates<K, V>(
    store: Store<K, V>,
    k: K,
    v: V,
    now: u128,
    stamp: u128,
    later: u128,
    entry: Entry<K, V>,
)
    requires
        !store.slots.contains_key(k),
        entry.value() == store.lookup_at(k, now),
    ensures
        entry is Vacant,
        store.lookup_at(k, later) is None,
        !expired(store.expiry, stamp, later) ==> store.insert_at(k, v, stamp).lookup_at(k, later)
            == Some(v),
{
}

/// Where every requested key is fresh at `now`, none is missing, so the
/// batch asks for nothing and writes nothing, and the values come out in
/// the order of the request, one for each occurrence of a key.
pub proof fn law_all_fresh_batch<K, V>(store: Store<K, V>, keys: Seq<K>, now: u128, stamp: u128)
    requires
        forall|i: int| 0 <= i < keys.len() ==> store.fresh_at(#[trigger] keys[i], now),
    ensures
        store.missing_keys(keys, now) == Seq::<K>::empty(),
        store.refresh(keys, Seq::<V>::empty(), now, stamp) == store,
        store.resolve(keys).len() == keys.len(),
        forall|i: int|
            0 <= i < keys.len() ==> store.lookup_at(keys[i], now) == Some(
                #[trigger] store.resolve(keys)[i],
            ),
{
    store.lemma_missing_keys(keys, now);
    let missing = store.missing_keys(keys, now);
    if missing.len() > 0 {
        assert(missing.contains(missing[0]));
    }
}

/// What a batch leaves behind and hands out. Each missing key is asked for
/// once. Afterwards every requested key is stored. A key that was fresh
/// keeps its slot and comes out with the value it had. A key that was
/// missing holds the value produced for it, stamped `stamp`, and comes out
/// with that value at each of its occurrences. A key that was not requested
/// keeps its slot.
pub proof fn law_batch_merges<K, V>(
    store: Store<K, V>,
    keys: Seq<K>,
    values: Seq<V>,
    now: u128,
    stamp: u128,
)
    requires
        values.len() == store.missing_keys(keys, now).len(),
    ensures
        store.missing_keys(keys, now).no_duplicates(),
        store.refresh(keys, values, now, stamp).expiry == store.expiry,
        store.refresh(keys, values, now, stamp).resolve(keys).len() == keys.len(),
        forall|i: int|
            0 <= i < keys.len() ==> {
                let k = #[trigger] keys[i];
                let after = store.refresh(keys, values, now, stamp);
                let missing = store.missing_keys(keys, now);
                &&& after.slots.contains_key(k)
                &&& after.resolve(keys)[i] == after.slots[k].value
                &&& store.fresh_at(k, now) ==> !missing.contains(k) && after.slots[k]
                    == store.slots[k]
                &&& !store.fresh_at(k, now) ==> missing.contains(k) && after.slots[k] == (Slot {
                    value: values[missing.index_of(k)],
                    inserted_at: stamp,
                })
            },
        forall|k: K|
            !keys.contains(k) && store.slots.contains_key(k) ==> #[trigger] store.refresh(
                keys,
                values,
                now,
                stamp,
            ).slots[k] == store.slots[k],
{
    let missing = store.missing_keys(keys, now);
    let after = store.refresh(keys, values, now, stamp);
    store.lemma_missing_keys(keys, now);
    store.lemma_fill(missing, values, stamp);
    assert forall|i: int| 0 <= i < keys.len() implies {
        let k = #[trigger] keys[i];
        &&& after.slots.contains_key(k)
        &&& after.resolve(keys)[i] == after.slots[k].value
        &&& store.fresh_at(k, now) ==> !missing.contains(k) && after.slots[k] == store.slots[k]
        &&& !store.fresh_at(k, now) ==> missing.contains(k) && after.slots[k] == (Slot {
            value: values[missing.index_of(k)],
            inserted_at: stamp,
        })
    } by {
        if !store.fresh_at(keys[i], now) {
            assert(missing.contains(keys[i]));
        }
    }
}

/// A failed batch refreshes nothing. The cache is left as it was, so each
/// key that was missing when the batch began at `now` is still unseen by a
/// read at any `later` reading of the clock.
pub proof fn law_failed_batch_refreshes_nothing<K, V>(
    store: Store<K, V>,
    keys: Seq<K>,
    k: K,
    now: u128,
    later: u128,
)
    requires
        now <= later,
        store.missing_keys(keys, now).contains(k),
    ensures
        keys.contains(k),
        store.lookup_at(k, later) is None,
{
    store.lemma_missing_keys(keys, now);
}

} // verus!
