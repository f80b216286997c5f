//! The cache itself: a hash map whose values carry the time of their
//! insertion, read under an expiry policy fixed at construction.
//!
//! Each operation that depends on the time comes twice. The form whose name
//! ends in `_at` takes the clock's reading as an argument and is specified
//! exactly. The form without reads the clock itself; its contract says that
//! some reading exists for which the exact form's contract holds.

use crate::clock::{as_nanos, nanos_of, now_nanos};
use crate::entries::Entries;
use crate::entry::{Entry, OccupiedEntry, VacantEntry};
use crate::store::{expired, Slot, Store};
use std::collections::HashMap;
use std::hash::Hash;
use std::time::Duration;
use vstd::pervasive::unreached;
use vstd::prelude::*;
use vstd::std_specs::hash::obeys_key_model;

verus! {

/// A map from keys to values in which, with an expiry duration set, a value
/// is visible only for that long after its insertion.
///
/// An expired value is not removed: it stays stored, invisible to reads,
/// until a new value is inserted under its key.
pub struct Cache<K, V> {
    hash_map: HashMap<K, Slot<V>>,
    expiry_duration: Option<u128>,
}

impl<K, V> View for Cache<K, V> {
    type V = Store<K, V>;

    /// The slots and the policy this cache holds.
    closed spec fn view(&self) -> Store<K, V> {
        Store { slots: self.hash_map@, expiry: self.expiry_duration }
    }
}

/// Calls `HashMap::get_mut`. Trusted: the result is `None` exactly when the
/// key is absent, and the map is then unchanged; otherwise it is a reference
/// to the key's slot, through which that slot and nothing else in the map
/// can change.
#[verifier::external_body]
fn slot_mut<'a, K: Hash + Eq, V>(m: &'a mut HashMap<K, Slot<V>>, k: &K) -> (r: Option<
    &'a mut Slot<V>,
>)
    requires
        obeys_key_model::<K>(),
    ensures
        match r {
            Some(slot) => {
                &&& old(m)@.contains_key(*k)
                &&& *slot == old(m)@[*k]
                &&& final(m)@ == old(m)@.insert(*k, *final(slot))
            },
            None => !old(m)@.contains_key(*k) && final(m)@ == old(m)@,
        },
{
    m.get_mut(k)
}

impl<K: Hash + Eq, V> Cache<K, V> {
    /// An empty cache whose values never expire.
    pub fn keep_last() -> (cache: Self)
        ensures
            cache@ == Store::<K, V>::empty(None),
    {
        Cache { hash_map: HashMap::new(), expiry_duration: None }
    }

    /// An empty cache whose values expire once more than `nanos` nanoseconds
    /// have passed since their insertion.
    pub fn with_expiry_nanos(nanos: u128) -> (cache: Self)
        ensures
            cache@ == Store::<K, V>::empty(Some(nanos)),
    {
        Cache { hash_map: HashMap::new(), expiry_duration: Some(nanos) }
    }

    /// An empty cache whose values expire once more than `duration` has
    /// passed since their insertion.
    pub fn with_expiry_duration(duration: Duration) -> (cache: Self)
        ensures
            cache@ == Store::<K, V>::empty(Some(nanos_of(duration))),
    {
        Self::with_expiry_nanos(as_nanos(&duration))
    }

    /// Whether a value inserted at `inserted_at` has expired at `now` under
    /// the policy `expiry`.
    pub fn has_expired(expiry: Option<u128>, inserted_at: u128, now: u128) -> (r: bool)
        ensures
            r == expired(expiry, inserted_at, now),
    {
        match expiry {
            Some(d) => now > inserted_at && now - inserted_at > d,
            None => false,
        }
    }

    /// The value under `k` if it is fresh at `now`.
    pub fn get_at(&self, k: &K, now: u128) -> (r: Option<&V>)
        requires
            obeys_key_model::<K>(),
        ensures
            match r {
                Some(v) => self@.lookup_at(*k, now) == Some(*v),
                None => self@.lookup_at(*k, now) is None,
            },
    {
        match self.hash_map.get(k) {
            Some(slot) => {
                if Self::has_expired(self.expiry_duration, slot.inserted_at, now) {
                    None
                } else {
                    Some(&slot.value)
                }
            },
            None => None,
        }
    }

    /// The value under `k` if it has not expired by the clock.
    pub fn get(&self, k: &K) -> (r: Option<&V>)
        requires
            obeys_key_model::<K>(),
        ensures
            exists|now: u128|
                match r {
                    Some(v) => #[trigger] self@.lookup_at(*k, now) == Some(*v),
                    None => self@.lookup_at(*k, now) is None,
                },
    {
        let now = now_nanos();
        self.get_at(k, now)
    }

    /// A reference to the value under `k` if it is fresh at `now`. Writing
    /// through it changes the value and leaves the stamp alone.
    pub fn get_mut_at(&mut self, k: &K, now: u128) -> (r: Option<&mut V>)
        requires
            obeys_key_model::<K>(),
        ensures
            match r {
                Some(v) => {
                    &&& old(self)@.lookup_at(*k, now) == Some(*v)
                    &&& final(self)@ == old(self)@.with_value(*k, *final(v))
                },
                None => old(self)@.lookup_at(*k, now) is None && final(self)@ == old(self)@,
            },
    {
        let expiry = self.expiry_duration;
        match slot_mut(&mut self.hash_map, k) {
            Some(slot) => {
                if Self::has_expired(expiry, slot.inserted_at, now) {
                    assert(old(self)@.slots.insert(*k, *slot) =~= old(self)@.slots);
                    None
                } else {
                    Some(&mut slot.value)
                }
            },
            None => None,
        }
    }

    /// A reference to the value under `k` if it has not expired by the
    /// clock. Writing through it changes the value and leaves the stamp
    /// alone.
    pub fn get_mut(&mut self, k: &K) -> (r: Option<&mut V>)
        requires
            obeys_key_model::<K>(),
        ensures
            exists|now: u128|
                match r {
                    Some(v) => {
                        &&& #[trigger] old(self)@.lookup_at(*k, now) == Some(*v)
                        &&& final(self)@ == old(self)@.with_value(*k, *final(v))
                    },
                    None => old(self)@.lookup_at(*k, now) is None && final(self)@ == old(self)@,
                },
    {
        let now = now_nanos();
        self.get_mut_at(k, now)
    }

    /// Writes `v` under `k`, stamped `now`, and returns the value that was
    /// there before, expired or not.
    pub fn insert_at(&mut self, k: K, v: V, now: u128) -> (prev: Option<V>)
        requires
            obeys_key_model::<K>(),
        ensures
            final(self)@ == old(self)@.insert_at(k, v, now),
            prev == old(self)@.stored(k),
    {
        match self.hash_map.insert(k, Slot { value: v, inserted_at: now }) {
            Some(slot) => Some(slot.value),
            None => None,
        }
    }

    /// Writes `v` under `k`, stamped with the clock's reading, and returns
    /// the value that was there before, expired or not.
    pub fn insert(&mut self, k: K, v: V) -> (prev: Option<V>)
        requires
            obeys_key_model::<K>(),
        ensures
            exists|now: u128| final(self)@ == #[trigger] old(self)@.insert_at(k, v, now),
            prev == old(self)@.stored(k),
    {
        let now = now_nanos();
        self.insert_at(k, v, now)
    }

    /// The value under `k`, for a key that is fresh at `now`.
    pub fn index_at(&self, k: &K, now: u128) -> (v: &V)
        requires
            obeys_key_model::<K>(),
            self@.fresh_at(*k, now),
        ensures
            self@.stored(*k) == Some(*v),
    {
        match self.get_at(k, now) {
            Some(v) => v,
            None => unreached(),
        }
    }

    /// The value under `k`, expired or not.
    pub(crate) fn peek(&self, k: &K) -> (r: Option<&V>)
        requires
            obeys_key_model::<K>(),
        ensures
            match r {
                Some(v) => self@.stored(*k) == Some(*v),
                None => self@.stored(*k) is None,
            },
    {
        match self.hash_map.get(k) {
            Some(slot) => Some(&slot.value),
            None => None,
        }
    }

    /// A view into the entry under `key`: occupied if the key is fresh at
    /// `now`, vacant otherwise.
    ///
    /// An occupied entry holds a reference to the value, and what is
    /// written through it is what the cache holds afterwards, under the
    /// stamp it had. A vacant entry holds this cache.
    pub fn entry_at(&mut self, key: K, now: u128) -> (entry: Entry<'_, K, V>)
        requires
            obeys_key_model::<K>(),
        ensures
            entry.value() == old(self)@.lookup_at(key, now),
            match entry {
                Entry::Occupied(e) => {
                    &&& e.k == key
                    &&& final(self)@ == old(self)@.with_value(key, *final(e.v))
                },
                Entry::Vacant(e) => {
                    &&& e.k == key
                    &&& *e.cache == *old(self)
                    &&& *final(e.cache) == *final(self)
                },
            },
    {
        if self.get_at(&key, now).is_some() {
            let v = self.get_mut_at(&key, now).unwrap();
            Entry::Occupied(OccupiedEntry { k: key, v })
        } else {
            Entry::Vacant(VacantEntry { k: key, cache: self })
        }
    }

    /// A view into the entry under `key`: occupied if the key has not
    /// expired by the clock, vacant otherwise.
    pub fn entry(&mut self, key: K) -> (entry: Entry<'_, K, V>)
        requires
            obeys_key_model::<K>(),
        ensures
            exists|now: u128| entry.value() == #[trigger] old(self)@.lookup_at(key, now),
            match entry {
                Entry::Occupied(e) => {
                    &&& e.k == key
                    &&& final(self)@ == old(self)@.with_value(key, *final(e.v))
                },
                Entry::Vacant(e) => {
                    &&& e.k == key
                    &&& *e.cache == *old(self)
                    &&& *final(e.cache) == *final(self)
                },
            },
    {
        let now = now_nanos();
        self.entry_at(key, now)
    }

    /// A view into the entries under `keys`, to read or refresh them
    /// together.
    pub fn entries<'a>(&'a mut self, keys: &'a [K]) -> (entries: Entries<'a, K, V>)
        ensures
            entries.keys@ == keys@,
            *entries.cache == *old(self),
            *final(entries.cache) == *final(self),
    {
        Entries { keys, cache: self }
    }
}

impl<'a, K: Hash + Eq, V> std::ops::Index<&'a K> for Cache<K, V> {
    type Output = V;

    /// The value under `index`, for a key that is fresh whatever the clock
    /// reads.
    ///
    /// Verified callers write `Index::index(&cache, &key)`: for an index
    /// that is a reference, Verus does not connect the form `cache[&key]`
    /// with `index_req` below. Where the clock's reading is at hand,
    /// `index_at` asks for less.
    fn index(&self, index: &'a K) -> (output: &V)
        ensures
            self@.stored(*index) == Some(*output),
    {
        match self.get(index) {
            Some(v) => v,
            None => unreached(),
        }
    }
}

impl<'a, K: Hash + Eq, V> vstd::std_specs::core::IndexSpecImpl<&'a K> for Cache<K, V> {
    /// Indexing reads the clock, so the key has to be fresh at every
    /// reading: stored, and either in a cache without expiry or stamped so
    /// that no reading lies more than the expiry duration after it.
    open spec fn index_req(&self, index: &&'a K) -> bool {
        obeys_key_model::<K>() && forall|now: u128| self@.fresh_at(**index, now)
    }
}

} // verus!
