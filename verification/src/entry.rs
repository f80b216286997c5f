//! A view into one key of a cache: occupied where the key is fresh, vacant
//! where it is absent or has expired.
//!
//! An entry borrows the cache exclusively until it is resolved into a
//! reference to the value. The views' fields are public so that contracts
//! can say what becomes of the cache behind them.

use crate::cache::Cache;
use crate::clock::now_nanos;
use std::hash::Hash;
use vstd::prelude::*;
use vstd::std_specs::hash::obeys_key_model;

verus! {

/// A view into a fresh entry: the key, and its value in the cache.
pub struct OccupiedEntry<'a, K: 'a, V: 'a> {
    pub k: K,
    pub v: &'a mut V,
}

/// A view into an entry that is absent or has expired: the key, and the
/// cache where its value will go.
pub struct VacantEntry<'a, K, V> {
    pub k: K,
    pub cache: &'a mut Cache<K, V>,
}

/// A view into a single entry of a cache.
pub enum Entry<'a, K: 'a, V: 'a> {
    /// The key is fresh.
    Occupied(OccupiedEntry<'a, K, V>),
    /// The key is absent or has expired.
    Vacant(VacantEntry<'a, K, V>),
}

impl<'a, K: Hash + Eq + Copy, V> VacantEntry<'a, K, V> {
    /// Writes `v` under the entry's key, stamped `now`, and returns a
    /// reference to it in the cache.
    pub fn insert_at(self, v: V, now: u128) -> (r: &'a mut V)
        requires
            obeys_key_model::<K>(),
        ensures
            *r == v,
            final(self.cache)@ == old(self.cache)@.insert_at(self.k, *final(r), now),
    {
        let VacantEntry { k, cache } = self;
        cache.insert_at(k, v, now);
        let ghost written = cache@;
        let r = cache.get_mut_at(&k, now).unwrap();
        assert(written.with_value(k, *final(r)).slots =~= old(self.cache)@.insert_at(
            k,
            *final(r),
            now,
        ).slots);
        r
    }

    /// Writes `v` under the entry's key, stamped with the clock's reading,
    /// and returns a reference to it in the cache.
    pub fn insert(self, v: V) -> (r: &'a mut V)
        requires
            obeys_key_model::<K>(),
        ensures
            *r == v,
            exists|now: u128|
                final(self.cache)@ == #[trigger] old(self.cache)@.insert_at(
                    self.k,
                    *final(r),
                    now,
                ),
    {
        let now = now_nanos();
        self.insert_at(v, now)
    }
}

impl<'a, K, V> Entry<'a, K, V> {
    /// The key of this entry.
    pub open spec fn spec_key(self) -> K {
        match self {
            Entry::Occupied(entry) => entry.k,
            Entry::Vacant(entry) => entry.k,
        }
    }

    /// What a read of the key sees in this entry: the value if it is
    /// occupied, nothing if it is vacant.
    pub open spec fn value(self) -> Option<V> {
        match self {
            Entry::Occupied(entry) => Some(*entry.v),
            Entry::Vacant(entry) => None,
        }
    }
}

impl<'a, K: Hash + Eq + Copy, V> Entry<'a, K, V> {
    /// The key of this entry.
    pub fn key(&self) -> (k: &K)
        ensures
            *k == self.spec_key(),
    {
        match self {
            Entry::Occupied(entry) => &entry.k,
            Entry::Vacant(entry) => &entry.k,
        }
    }

    /// The value of the entry; where the entry is vacant, that is `default`,
    /// written under the key and stamped `now`.
    pub fn or_insert_at(self, default: V, now: u128) -> (r: &'a mut V)
        requires
            obeys_key_model::<K>(),
        ensures
            match self {
                Entry::Occupied(entry) => *r == *entry.v && *final(entry.v) == *final(r),
                Entry::Vacant(entry) => {
                    &&& *r == default
                    &&& final(entry.cache)@ == entry.cache@.insert_at(entry.k, *final(r), now)
                },
            },
    {
        match self {
            Entry::Occupied(entry) => entry.v,
            Entry::Vacant(entry) => entry.insert_at(default, now),
        }
    }

    /// The value of the entry; where the entry is vacant, that is `default`,
    /// written under the key and stamped with the clock's reading.
    pub fn or_insert(self, default: V) -> (r: &'a mut V)
        requires
            obeys_key_model::<K>(),
        ensures
            match self {
                Entry::Occupied(entry) => *r == *entry.v && *final(entry.v) == *final(r),
                Entry::Vacant(entry) => {
                    &&& *r == default
                    &&& exists|now: u128|
                        final(entry.cache)@ == #[trigger] entry.cache@.insert_at(
                            entry.k,
                            *final(r),
                            now,
                        )
                },
            },
    {
        match self {
            Entry::Occupied(entry) => entry.v,
            Entry::Vacant(entry) => entry.insert(default),
        }
    }

    /// The value of the entry; where the entry is vacant, that is what
    /// `default` makes of the key, written under the key and stamped `now`.
    ///
    /// `default` is called only for a vacant entry: for an occupied one it
    /// need not even accept the key.
    pub fn or_insert_with_at<F: FnOnce(&K) -> V>(self, default: F, now: u128) -> (r: &'a mut V)
        requires
            obeys_key_model::<K>(),
            self is Vacant ==> call_requires(default, (&self.spec_key(),)),
        ensures
            match self {
                Entry::Occupied(entry) => *r == *entry.v && *final(entry.v) == *final(r),
                Entry::Vacant(entry) => {
                    &&& call_ensures(default, (&entry.k,), *r)
                    &&& final(entry.cache)@ == entry.cache@.insert_at(entry.k, *final(r), now)
                },
            },
    {
        match self {
            Entry::Occupied(entry) => entry.v,
            Entry::Vacant(entry) => {
                let v = default(&entry.k);
                entry.insert_at(v, now)
            },
        }
    }

    /// The value of the entry; where the entry is vacant, that is what
    /// `default` makes of the key, written under the key and stamped with
    /// the clock's reading once `default` has returned.
    ///
    /// `default` is called only for a vacant entry: for an occupied one it
    /// need not even accept the key.
    pub fn or_insert_with<F: FnOnce(&K) -> V>(self, default: F) -> (r: &'a mut V)
        requires
            obeys_key_model::<K>(),
            self is Vacant ==> call_requires(default, (&self.spec_key(),)),
        ensures
            match self {
                Entry::Occupied(entry) => *r == *entry.v && *final(entry.v) == *final(r),
                Entry::Vacant(entry) => {
                    &&& call_ensures(default, (&entry.k,), *r)
                    &&& exists|now: u128|
                        final(entry.cache)@ == #[trigger] entry.cache@.insert_at(
                            entry.k,
                            *final(r),
                            now,
                        )
                },
            },
    {
        match self {
            Entry::Occupied(entry) => entry.v,
            Entry::Vacant(entry) => {
                let v = default(&entry.k);
                entry.insert(v)
            },
        }
    }

    /// The value of the entry; where the entry is vacant, that is what
    /// `default` makes of the key, written under the key and stamped `now`.
    /// Where `default` fails, its error is returned and the cache is left
    /// as it was.
    ///
    /// `default` is called only for a vacant entry: for an occupied one it
    /// need not even accept the key.
    pub fn or_try_insert_with_at<E, F: FnOnce(&K) -> Result<V, E>>(
        self,
        default: F,
        now: u128,
    ) -> (r: Result<&'a mut V, E>)
        requires
            obeys_key_model::<K>(),
            self is Vacant ==> call_requires(default, (&self.spec_key(),)),
        ensures
            match self {
                Entry::Occupied(entry) => {
                    &&& r matches Ok(v)
                    &&& *v == *entry.v
                    &&& *final(entry.v) == *final(v)
                },
                Entry::Vacant(entry) => match r {
                    Ok(v) => {
                        &&& call_ensures(default, (&entry.k,), Ok::<V, E>(*v))
                        &&& final(entry.cache)@ == entry.cache@.insert_at(
                            entry.k,
                            *final(v),
                            now,
                        )
                    },
                    Err(e) => {
                        &&& call_ensures(default, (&entry.k,), Err::<V, E>(e))
                        &&& *final(entry.cache) == *entry.cache
                    },
                },
            },
    {
        match self {
            Entry::Occupied(entry) => Ok(entry.v),
            Entry::Vacant(entry) => match default(&entry.k) {
                Ok(v) => Ok(entry.insert_at(v, now)),
                Err(e) => Err(e),
            },
        }
    }

    /// The value of the entry; where the entry is vacant, that is what
    /// `default` makes of the key, written under the key and stamped with
    /// the clock's reading once `default` has succeeded. Where `default`
    /// fails, its error is returned and the cache is left as it was.
    ///
    /// `default` is called only for a vacant entry: for an occupied one it
    /// need not even accept the key.
    pub fn or_try_insert_with<E, F: FnOnce(&K) -> Result<V, E>>(self, default: F) -> (r: Result<
        &'a mut V,
        E,
    >)
        requires
            obeys_key_model::<K>(),
            self is Vacant ==> call_requires(default, (&self.spec_key(),)),
        ensures
            match self {
                Entry::Occupied(entry) => {
                    &&& r matches Ok(v)
                    &&& *v == *entry.v
                    &&& *final(entry.v) == *final(v)
                },
                Entry::Vacant(entry) => match r {
                    Ok(v) => {
                        &&& call_ensures(default, (&entry.k,), Ok::<V, E>(*v))
                        &&& exists|now: u128|
                            final(entry.cache)@ == #[trigger] entry.cache@.insert_at(
                                entry.k,
                                *final(v),
                                now,
                            )
                    },
                    Err(e) => {
                        &&& call_ensures(default, (&entry.k,), Err::<V, E>(e))
                        &&& *final(entry.cache) == *entry.cache
                    },
                },
            },
    {
        match self {
            Entry::Occupied(entry) => Ok(entry.v),
            Entry::Vacant(entry) => match default(&entry.k) {
                Ok(v) => Ok(entry.insert(v)),
                Err(e) => Err(e),
            },
        }
    }
}

} // verus!
