//! A view into many keys of a cache at once.
//!
//! A batch runs in three passes. The first reads: it finds the keys that
//! need a refresh. Then the producer is asked, once, for values for exactly
//! those keys. The second pass writes what the producer gave, and the third
//! reads every requested key back, in the order of the request. Nothing is
//! written before the producer has succeeded, so a failure leaves the cache
//! as it was.

use crate::cache::Cache;
use crate::clock::now_nanos;
use std::collections::HashSet;
use std::hash::Hash;
use vstd::pervasive::runtime_assert;
use vstd::prelude::*;
use vstd::std_specs::hash::obeys_key_model;

verus! {

/// A view into the entries of a cache under `keys`. A key may occur more
/// than once; the order of `keys` is the order of every result.
pub struct Entries<'a, K: 'a, V: 'a> {
    pub keys: &'a [K],
    pub cache: &'a mut Cache<K, V>,
}

/// `r` is something that `default` may return when it is called with the
/// keys `missing`.
pub open spec fn may_return<K, R, F: FnOnce(&[K]) -> R>(default: F, missing: Seq<K>, r: R) -> bool {
    exists|m: &[K]| m@ == missing && call_ensures(default, (m,), r)
}

/// An infallible `default` can serve the keys `missing`: it may be called
/// with them, and whatever it returns then holds one value for each.
pub open spec fn serves<K, V, F: FnOnce(&[K]) -> Vec<V>>(default: F, missing: Seq<K>) -> bool {
    forall|m: &[K]|
        m@ == missing ==> {
            &&& #[trigger] call_requires(default, (m,))
            &&& forall|produced: Vec<V>| #[trigger]
                call_ensures(default, (m,), produced) ==> produced@.len() == missing.len()
        }
}

/// A fallible `default` can serve the keys `missing`: it may be called with
/// them, and what it returns on success holds one value for each.
pub open spec fn try_serves<K, V, E, F: FnOnce(&[K]) -> Result<Vec<V>, E>>(
    default: F,
    missing: Seq<K>,
) -> bool {
    forall|m: &[K]|
        m@ == missing ==> {
            &&& #[trigger] call_requires(default, (m,))
            &&& forall|produced: Vec<V>| #[trigger]
                call_ensures(default, (m,), Ok::<Vec<V>, E>(produced)) ==> produced@.len()
                    == missing.len()
        }
}

/// `values` is what an infallible `default` gave for the keys `missing`: one
/// value for each, and none where no key was missing, in which case
/// `default` was not asked.
pub open spec fn produced_for<K, V, F: FnOnce(&[K]) -> Vec<V>>(
    default: F,
    missing: Seq<K>,
    values: Seq<V>,
) -> bool {
    &&& values.len() == missing.len()
    &&& missing.len() > 0 ==> exists|produced: Vec<V>|
        produced@ == values && may_return(default, missing, produced)
}

/// `values` is what a fallible `default` gave on success for the keys
/// `missing`: one value for each, and none where no key was missing, in
/// which case `default` was not asked.
pub open spec fn try_produced_for<K, V, E, F: FnOnce(&[K]) -> Result<Vec<V>, E>>(
    default: F,
    missing: Seq<K>,
    values: Seq<V>,
) -> bool {
    &&& values.len() == missing.len()
    &&& missing.len() > 0 ==> exists|produced: Vec<V>|
        produced@ == values && may_return(default, missing, Ok::<Vec<V>, E>(produced))
}

impl<'a, K: Hash + Eq + Copy, V: Copy> Entries<'a, K, V> {
    /// The keys that need a refresh at `now`: those that are not fresh,
    /// each once, in the order in which they are first asked for.
    pub fn missing_at(&self, now: u128) -> (missing: Vec<K>)
        requires
            obeys_key_model::<K>(),
        ensures
            missing@ == old(self.cache)@.missing_keys(self.keys@, now),
            missing@.no_duplicates(),
    {
        let mut missing: Vec<K> = Vec::new();
        let mut seen: HashSet<K> = HashSet::new();
        let mut i: usize = 0;
        while i < self.keys.len()
            invariant
                obeys_key_model::<K>(),
                i <= self.keys.len(),
                missing@ == self.cache@.missing_keys(self.keys@.take(i as int), now),
                seen@ == missing@.to_set(),
            decreases self.keys.len() - i,
        {
            let k = self.keys[i];
            proof {
                self.cache@.lemma_missing_keys_step(self.keys@, i as int, now);
            }
            if self.cache.get_at(&k, now).is_none() && !seen.contains(&k) {
                proof {
                    missing@.lemma_push_to_set_commute(k);
                }
                missing.push(k);
                seen.insert(k);
            }
            i += 1;
        }
        proof {
            assert(self.keys@.take(i as int) =~= self.keys@);
            self.cache@.lemma_missing_keys(self.keys@, now);
        }
        missing
    }

    /// Writes `values[i]` under `missing[i]`, stamped `now`, for each `i`
    /// in turn, and returns the stored value of every requested key,
    /// expired or not, in the order of the request.
    ///
    /// Every requested key has to be stored already or be among `missing`.
    pub fn merge_at(self, missing: &[K], values: Vec<V>, now: u128) -> (out: Vec<V>)
        requires
            obeys_key_model::<K>(),
            missing@.len() == values@.len(),
            forall|i: int|
                0 <= i < self.keys@.len() ==> self.cache@.slots.contains_key(
                    #[trigger] self.keys@[i],
                ) || missing@.contains(self.keys@[i]),
        ensures
            final(self.cache)@ == old(self.cache)@.fill(missing@, values@, now),
            out@ == final(self.cache)@.resolve(self.keys@),
    {
        runtime_assert(missing.len() == values.len());
        let Entries { keys, cache } = self;
        let ghost before = cache@;
        let mut j: usize = 0;
        while j < missing.len()
            invariant
                obeys_key_model::<K>(),
                j <= missing.len(),
                missing@.len() == values@.len(),
                cache@ == before.fill(missing@.take(j as int), values@, now),
                *final(cache) == *final(self.cache),
            decreases missing.len() - j,
        {
            proof {
                before.lemma_fill_step(missing@, values@, j as int, now);
            }
            cache.insert_at(missing[j], values[j], now);
            j += 1;
        }
        proof {
            assert(missing@.take(j as int) =~= missing@);
            before.lemma_fill(missing@, values@, now);
        }
        let mut out: Vec<V> = Vec::new();
        let mut i: usize = 0;
        while i < keys.len()
            invariant
                obeys_key_model::<K>(),
                i <= keys.len(),
                forall|n: int|
                    0 <= n < keys@.len() ==> cache@.slots.contains_key(#[trigger] keys@[n]),
                out@ == cache@.resolve(keys@.take(i as int)),
            decreases keys.len() - i,
        {
            match cache.peek(&keys[i]) {
                Some(v) => out.push(*v),
                None => assert(false),
            }
            i += 1;
        }
        out
    }

    /// Gives every requested key a value, `default` where it is not fresh
    /// at `now`, stamped `now`, and returns the values in the order of the
    /// request.
    pub fn or_insert_at(self, default: V, now: u128) -> (out: Vec<V>)
        requires
            obeys_key_model::<K>(),
        ensures
            final(self.cache)@ == old(self.cache)@.with_default(self.keys@, default, now),
            out@ == final(self.cache)@.resolve(self.keys@),
    {
        let missing = self.missing_at(now);
        let mut values: Vec<V> = Vec::new();
        let mut i: usize = 0;
        while i < missing.len()
            invariant
                i <= missing.len(),
                values@ == Seq::new(i as nat, |n: int| default),
            decreases missing.len() - i,
        {
            values.push(default);
            i += 1;
        }
        proof {
            self.cache@.lemma_refresh(self.keys@, values@, now, now);
        }
        self.merge_at(missing.as_slice(), values, now)
    }

    /// Gives every requested key a value, `default` where it has expired by
    /// the clock or is absent, and returns the values in the order of the
    /// request. The clock is read once.
    pub fn or_insert(self, default: V) -> (out: Vec<V>)
        requires
            obeys_key_model::<K>(),
        ensures
            exists|now: u128|
                final(self.cache)@ == #[trigger] old(self.cache)@.with_default(
                    self.keys@,
                    default,
                    now,
                ),
            out@ == final(self.cache)@.resolve(self.keys@),
    {
        let now = now_nanos();
        self.or_insert_at(default, now)
    }

    /// Refreshes the keys that are not fresh at `now` with one call of
    /// `default`, stamps them `now`, and returns the values of all
    /// requested keys in the order of the request.
    ///
    /// `default` is called only if a key needs a refresh, with exactly
    /// those keys, and has to return one value for each, in their order.
    pub fn or_insert_with_at<F: FnOnce(&[K]) -> Vec<V>>(self, default: F, now: u128) -> (out: Vec<
        V,
    >)
        requires
            obeys_key_model::<K>(),
            self.cache@.missing_keys(self.keys@, now).len() > 0 ==> serves(
                default,
                self.cache@.missing_keys(self.keys@, now),
            ),
        ensures
            exists|values: Seq<V>|
                {
                    &&& final(self.cache)@ == #[trigger] old(self.cache)@.refresh(
                        self.keys@,
                        values,
                        now,
                        now,
                    )
                    &&& produced_for(
                        default,
                        old(self.cache)@.missing_keys(self.keys@, now),
                        values,
                    )
                },
            out@ == final(self.cache)@.resolve(self.keys@),
    {
        let missing = self.missing_at(now);
        let values = if missing.len() == 0 {
            Vec::new()
        } else {
            default(missing.as_slice())
        };
        proof {
            self.cache@.lemma_refresh(self.keys@, values@, now, now);
        }
        self.merge_at(missing.as_slice(), values, now)
    }

    /// Refreshes the keys that have expired by the clock or are absent with
    /// one call of `default`, and returns the values of all requested keys
    /// in the order of the request.
    ///
    /// The clock is read before the keys are checked, and again, once
    /// `default` has returned, to stamp what it produced. `default` is
    /// called only if a key needs a refresh, with exactly those keys, and
    /// has to return one value for each, in their order.
    pub fn or_insert_with<F: FnOnce(&[K]) -> Vec<V>>(self, default: F) -> (out: Vec<V>)
        requires
            obeys_key_model::<K>(),
            forall|now: u128|
                (#[trigger] self.cache@.missing_keys(self.keys@, now)).len() > 0 ==> serves(
                    default,
                    self.cache@.missing_keys(self.keys@, now),
                ),
        ensures
            exists|now: u128, stamp: u128, values: Seq<V>|
                {
                    &&& final(self.cache)@ == #[trigger] old(self.cache)@.refresh(
                        self.keys@,
                        values,
                        now,
                        stamp,
                    )
                    &&& produced_for(
                        default,
                        old(self.cache)@.missing_keys(self.keys@, now),
                        values,
                    )
                },
            out@ == final(self.cache)@.resolve(self.keys@),
    {
        let now = now_nanos();
        let missing = self.missing_at(now);
        let values = if missing.len() == 0 {
            Vec::new()
        } else {
            default(missing.as_slice())
        };
        let stamp = now_nanos();
        proof {
            self.cache@.lemma_refresh(self.keys@, values@, now, stamp);
        }
        self.merge_at(missing.as_slice(), values, stamp)
    }

    /// Refreshes the keys that are not fresh at `now` with one call of
    /// `default`, which may fail, stamps them `now`, and returns the values
    /// of all requested keys in the order of the request.
    ///
    /// `default` is called only if a key needs a refresh, with exactly
    /// those keys, and on success has to return one value for each, in
    /// their order. Where it fails, its error is returned and the cache is
    /// left as it was.
    pub fn or_try_insert_with_at<E, F: FnOnce(&[K]) -> Result<Vec<V>, E>>(
        self,
        default: F,
        now: u128,
    ) -> (r: Result<Vec<V>, E>)
        requires
            obeys_key_model::<K>(),
            self.cache@.missing_keys(self.keys@, now).len() > 0 ==> try_serves::<K, V, E, F>(
                default,
                self.cache@.missing_keys(self.keys@, now),
            ),
        ensures
            match r {
                Ok(out) => {
                    &&& exists|values: Seq<V>|
                        {
                            &&& final(self.cache)@ == #[trigger] old(self.cache)@.refresh(
                                self.keys@,
                                values,
                                now,
                                now,
                            )
                            &&& try_produced_for::<K, V, E, F>(
                                default,
                                old(self.cache)@.missing_keys(self.keys@, now),
                                values,
                            )
                        }
                    &&& out@ == final(self.cache)@.resolve(self.keys@)
                },
                Err(e) => {
                    &&& old(self.cache)@.missing_keys(self.keys@, now).len() > 0
                    &&& may_return(
                        default,
                        old(self.cache)@.missing_keys(self.keys@, now),
                        Err::<Vec<V>, E>(e),
                    )
                    &&& final(self.cache)@ == old(self.cache)@
                },
            },
    {
        let missing = self.missing_at(now);
        let produced = if missing.len() == 0 {
            Ok(Vec::new())
        } else {
            default(missing.as_slice())
        };
        match produced {
            Ok(values) => {
                proof {
                    self.cache@.lemma_refresh(self.keys@, values@, now, now);
                }
                Ok(self.merge_at(missing.as_slice(), values, now))
            },
            Err(e) => Err(e),
        }
    }

    /// Refreshes the keys that have expired by the clock or are absent with
    /// one call of `default`, which may fail, and returns the values of all
    /// requested keys in the order of the request.
    ///
    /// The clock is read before the keys are checked, and again, once
    /// `default` has succeeded, to stamp what it produced. `default` is
    /// called only if a key needs a refresh, with exactly those keys, and
    /// on success has to return one value for each, in their order. Where
    /// it fails, its error is returned and the cache is left as it was.
    pub fn or_try_insert_with<E, F: FnOnce(&[K]) -> Result<Vec<V>, E>>(self, default: F) -> (r:
        Result<Vec<V>, E>)
        requires
            obeys_key_model::<K>(),
            forall|now: u128|
                (#[trigger] self.cache@.missing_keys(self.keys@, now)).len() > 0
                    ==> try_serves::<K, V, E, F>(
                    default,
                    self.cache@.missing_keys(self.keys@, now),
                ),
        ensures
            match r {
                Ok(out) => {
                    &&& exists|now: u128, stamp: u128, values: Seq<V>|
                        {
                            &&& final(self.cache)@ == #[trigger] old(self.cache)@.refresh(
                                self.keys@,
                                values,
                                now,
                                stamp,
                            )
                            &&& try_produced_for::<K, V, E, F>(
                                default,
                                old(self.cache)@.missing_keys(self.keys@, now),
                                values,
                            )
                        }
                    &&& out@ == final(self.cache)@.resolve(self.keys@)
                },
                Err(e) => {
                    &&& final(self.cache)@ == old(self.cache)@
                    &&& exists|now: u128|
                        {
                            &&& (#[trigger] old(self.cache)@.missing_keys(self.keys@, now)).len()
                                > 0
                            &&& may_return(
                                default,
                                old(self.cache)@.missing_keys(self.keys@, now),
                                Err::<Vec<V>, E>(e),
                            )
                        }
                },
            },
    {
        let now = now_nanos();
        let missing = self.missing_at(now);
        let produced = if missing.len() == 0 {
            Ok(Vec::new())
        } else {
            default(missing.as_slice())
        };
        match produced {
            Ok(values) => {
                let stamp = now_nanos();
                proof {
                    self.cache@.lemma_refresh(self.keys@, values@, now, stamp);
                }
                Ok(self.merge_at(missing.as_slice(), values, stamp))
            },
            Err(e) => Err(e),
        }
    }
}

} // verus!
