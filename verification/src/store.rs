//! The mathematical model of a cache: a map from keys to stamped values,
//! together with the expiry policy, and what each operation does to it.

use vstd::prelude::*;

verus! {

/// A stored value and the clock reading taken when it was inserted.
pub struct Slot<V> {
    pub value: V,
    pub inserted_at: u128,
}

/// What a cache holds: every slot ever written and not overwritten, expired
/// or not, and the expiry duration in nanoseconds (`None`: values never
/// expire).
#[verifier::reject_recursive_types(K)]
pub struct Store<K, V> {
    pub slots: Map<K, Slot<V>>,
    pub expiry: Option<u128>,
}

/// A value inserted at `inserted_at` has expired at `now` when an expiry
/// duration is set and strictly more than that has passed since. A reading
/// `now` that lies before `inserted_at` counts as no time passed.
pub open spec fn expired(expiry: Option<u128>, inserted_at: u128, now: u128) -> bool {
    match expiry {
        Some(d) => now - inserted_at > d,
        None => false,
    }
}

impl<K, V> Store<K, V> {
    /// The store with no slots.
    pub open spec fn empty(expiry: Option<u128>) -> Self {
        Store { slots: Map::empty(), expiry }
    }

    /// The value held under `k`, expired or not.
    pub open spec fn stored(self, k: K) -> Option<V> {
        if self.slots.contains_key(k) {
            Some(self.slots[k].value)
        } else {
            None
        }
    }

    /// `k` is present and has not expired at `now`.
    pub open spec fn fresh_at(self, k: K, now: u128) -> bool {
        self.slots.contains_key(k) && !expired(self.expiry, self.slots[k].inserted_at, now)
    }

    /// What a read of `k` at `now` sees: the value if `k` is fresh, else
    /// nothing.
    pub open spec fn lookup_at(self, k: K, now: u128) -> Option<V> {
        if self.fresh_at(k, now) {
            Some(self.slots[k].value)
        } else {
            None
        }
    }

    /// The store after `v` is written under `k` at `now`.
    pub open spec fn insert_at(self, k: K, v: V, now: u128) -> Self {
        Store { slots: self.slots.insert(k, Slot { value: v, inserted_at: now }), ..self }
    }

    /// The store after the value under `k` is replaced in place: the stamp
    /// stays as it was.
    pub open spec fn with_value(self, k: K, v: V) -> Self {
        Store {
            slots: self.slots.insert(
                k,
                Slot { value: v, inserted_at: self.slots[k].inserted_at },
            ),
            ..self
        }
    }

    /// The keys among `keys` that are not fresh at `now`, each once, in the
    /// order in which they first occur.
    pub open spec fn missing_keys(self, keys: Seq<K>, now: u128) -> Seq<K>
        decreases keys.len(),
    {
        if keys.len() == 0 {
            Seq::empty()
        } else {
            let earlier = self.missing_keys(keys.drop_last(), now);
            let k = keys.last();
            if self.fresh_at(k, now) || earlier.contains(k) {
                earlier
            } else {
                earlier.push(k)
            }
        }
    }

    /// The store after `values[i]` is written under `keys[i]` at `now`, for
    /// each `i` in turn.
    pub open spec fn fill(self, keys: Seq<K>, values: Seq<V>, now: u128) -> Self
        decreases keys.len(),
    {
        if keys.len() == 0 {
            self
        } else {
            self.fill(keys.drop_last(), values, now).insert_at(
                keys.last(),
                values[keys.len() - 1],
                now,
            )
        }
    }

    /// The store after a batch over `keys`: the keys that are not fresh at
    /// `now` are given `values`, one each in their order, stamped `stamp`.
    pub open spec fn refresh(self, keys: Seq<K>, values: Seq<V>, now: u128, stamp: u128) -> Self {
        self.fill(self.missing_keys(keys, now), values, stamp)
    }

    /// The store after every key of `keys` that is not fresh at `now` is
    /// given `default`, stamped `now`.
    pub open spec fn with_default(self, keys: Seq<K>, default: V, now: u128) -> Self {
        self.refresh(
            keys,
            Seq::new(self.missing_keys(keys, now).len(), |i: int| default),
            now,
            now,
        )
    }

    /// The stored value of each of `keys`, in their order.
    pub open spec fn resolve(self, keys: Seq<K>) -> Seq<V> {
        Seq::new(keys.len(), |i: int| self.slots[keys[i]].value)
    }

    /// What `missing_keys` holds: no key twice, and exactly the keys of
    /// `keys` that are not fresh at `now`.
    pub proof fn lemma_missing_keys(self, keys: Seq<K>, now: u128)
        ensures
            self.missing_keys(keys, now).no_duplicates(),
            self.missing_keys(keys, now).len() <= keys.len(),
            forall|k: K|
                #[trigger] self.missing_keys(keys, now).contains(k) <==> keys.contains(k)
                    && !self.fresh_at(k, now),
        decreases keys.len(),
    {
        if keys.len() > 0 {
            let front = keys.drop_last();
            let earlier = self.missing_keys(front, now);
            let last = keys.last();
            self.lemma_missing_keys(front, now);
            assert forall|k: K|
                #[trigger] self.missing_keys(keys, now).contains(k) <==> keys.contains(k)
                    && !self.fresh_at(k, now) by {
                if keys.contains(k) {
                    let i = choose|i: int| 0 <= i < keys.len() && keys[i] == k;
                    if i < keys.len() - 1 {
                        assert(front[i] == k);
                    }
                }
                if earlier.contains(k) {
                    let i = choose|i: int| 0 <= i < earlier.len() && earlier[i] == k;
                    assert(earlier.push(last)[i] == k);
                }
                assert(earlier.push(last)[earlier.len() as int] == last);
            }
        }
    }

    /// The missing keys stand in the order in which they first occur among
    /// `keys`: of two of them, the earlier one occurs in `keys` before the
    /// later one does for the first time.
    pub proof fn lemma_missing_keys_order(self, keys: Seq<K>, now: u128, i: int, j: int)
        requires
            0 <= i < j < self.missing_keys(keys, now).len(),
        ensures
            exists|p: int, q: int|
                {
                    &&& 0 <= p < q < keys.len()
                    &&& #[trigger] keys[p] == self.missing_keys(keys, now)[i]
                    &&& #[trigger] keys[q] == self.missing_keys(keys, now)[j]
                    &&& forall|r: int| 0 <= r < q ==> keys[r] != keys[q]
                },
        decreases keys.len(),
    {
        let front = keys.drop_last();
        let earlier = self.missing_keys(front, now);
        self.lemma_missing_keys(front, now);
        if j < earlier.len() {
            self.lemma_missing_keys_order(front, now, i, j);
            let (p, q) = choose|p: int, q: int|
                {
                    &&& 0 <= p < q < front.len()
                    &&& #[trigger] front[p] == earlier[i]
                    &&& #[trigger] front[q] == earlier[j]
                    &&& forall|r: int| 0 <= r < q ==> front[r] != front[q]
                };
            assert(keys[p] == front[p] && keys[q] == front[q]);
            assert forall|r: int| 0 <= r < q implies keys[r] != keys[q] by {
                assert(front[r] == keys[r]);
            }
        } else {
            let q = keys.len() - 1;
            assert(earlier.contains(earlier[i]));
            let p = choose|p: int| 0 <= p < front.len() && front[p] == earlier[i];
            assert(keys[p] == earlier[i] && keys[q] == keys.last());
            assert forall|r: int| 0 <= r < q implies keys[r] != keys[q] by {
                assert(front.contains(front[r]));
            }
        }
    }

    /// A prefix of the requested keys has a prefix of the missing keys.
    pub proof fn lemma_missing_keys_step(self, keys: Seq<K>, n: int, now: u128)
        requires
            0 <= n < keys.len(),
        ensures
            self.missing_keys(keys.take(n + 1), now) == {
                let earlier = self.missing_keys(keys.take(n), now);
                if self.fresh_at(keys[n], now) || earlier.contains(keys[n]) {
                    earlier
                } else {
                    earlier.push(keys[n])
                }
            },
    {
        assert(keys.take(n + 1).drop_last() =~= keys.take(n));
    }

    /// A refresh writes under the missing keys, and every requested key is
    /// either stored already or among them.
    pub proof fn lemma_refresh(self, keys: Seq<K>, values: Seq<V>, now: u128, stamp: u128)
        ensures
            self.refresh(keys, values, now, stamp) == self.fill(
                self.missing_keys(keys, now),
                values,
                stamp,
            ),
            forall|i: int|
                0 <= i < keys.len() ==> self.slots.contains_key(#[trigger] keys[i])
                    || self.missing_keys(keys, now).contains(keys[i]),
    {
        self.lemma_missing_keys(keys, now);
    }

    /// What `fill` leaves in the store: the policy as it was, the slots of
    /// the keys it was not given as they were, and under each key it was
    /// given the last value paired with it, stamped `now`.
    pub proof fn lemma_fill(self, keys: Seq<K>, values: Seq<V>, now: u128)
        ensures
            self.fill(keys, values, now).expiry == self.expiry,
            forall|k: K|
                #[trigger] self.fill(keys, values, now).slots.contains_key(k)
                    <==> self.slots.contains_key(k) || keys.contains(k),
            forall|k: K|
                !keys.contains(k) ==> #[trigger] self.fill(keys, values, now).slots[k]
                    == self.slots[k],
            forall|i: int|
                0 <= i < keys.len() && (forall|j: int| i < j < keys.len() ==> keys[j] != keys[i])
                    ==> #[trigger] self.fill(keys, values, now).slots[keys[i]] == (Slot {
                    value: values[i],
                    inserted_at: now,
                }),
        decreases keys.len(),
    {
        if keys.len() > 0 {
            let front = keys.drop_last();
            self.lemma_fill(front, values, now);
            let after = self.fill(keys, values, now);
            assert forall|k: K|
                #[trigger] after.slots.contains_key(k) <==> self.slots.contains_key(k)
                    || keys.contains(k) by {
                if keys.contains(k) {
                    let i = choose|i: int| 0 <= i < keys.len() && keys[i] == k;
                    if i < keys.len() - 1 {
                        assert(front[i] == k);
                    }
                }
            }
            assert forall|i: int|
                0 <= i < keys.len() && (forall|j: int|
                    i < j < keys.len() ==> keys[j] != keys[i]) implies #[trigger] after.slots[keys[i]]
                == (Slot { value: values[i], inserted_at: now }) by {
                if i < keys.len() - 1 {
                    assert forall|j: int| i < j < front.len() implies front[j] != front[i] by {}
                }
            }
        }
    }

    /// One more step of `fill`.
    pub proof fn lemma_fill_step(self, keys: Seq<K>, values: Seq<V>, n: int, now: u128)
        requires
            0 <= n < keys.len(),
        ensures
            self.fill(keys.take(n + 1), values, now) == self.fill(
                keys.take(n),
                values,
                now,
            ).insert_at(keys[n], values[n], now),
    {
        assert(keys.take(n + 1).drop_last() =~= keys.take(n));
    }
}

} // verus!
