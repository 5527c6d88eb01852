//! A fixed-capacity, least-recently-used cache. Entries are kept in recency
//! order (oldest first, most recently used last); a lookup refreshes the
//! entry's recency, and an insert at capacity evicts exactly the oldest
//! entry. Capacity zero disables caching: inserts are silently dropped.
//!
//! The cache is owned by exactly one connection worker and is only ever
//! touched from that worker's own task, so it needs no locking. The
//! asynchronous fetch-or-compute composition lives with the runtime shell:
//! look the key up, await the computation on a miss, insert on success.

use vstd::prelude::*;

verus! {

/// A cache key: equality and duplication with exact contracts over the
/// key's view, so the cache's behaviour can be stated precisely.
pub trait CacheKey: View + Sized {
    fn key_eq(&self, other: &Self) -> (r: bool)
        ensures
            r == (self@ == other@),
    ;

    fn key_dup(&self) -> (r: Self)
        ensures
            r@ == self@,
    ;
}

impl CacheKey for String {
    fn key_eq(&self, other: &Self) -> (r: bool) {
        self.eq(other)
    }

    fn key_dup(&self) -> (r: Self) {
        self.clone()
    }
}

impl CacheKey for u64 {
    fn key_eq(&self, other: &Self) -> (r: bool) {
        *self == *other
    }

    fn key_dup(&self) -> (r: Self) {
        *self
    }
}

/// A cached value: duplication with an exact contract, so a value can be
/// handed out while its entry stays cached.
pub trait CacheValue: Sized {
    fn dup(&self) -> (r: Self)
        ensures
            r == *self,
    ;
}

impl CacheValue for u64 {
    fn dup(&self) -> (r: Self) {
        *self
    }
}

impl CacheValue for String {
    fn dup(&self) -> (r: Self) {
        self.clone()
    }
}

/// The key views of an entry sequence, in order.
pub open spec fn entry_keys<K: CacheKey, V>(s: Seq<(K, V)>) -> Seq<K::V> {
    s.map_values(|e: (K, V)| e.0@)
}

/// The key views of an entry sequence are pairwise distinct.
pub open spec fn distinct_keys<K: CacheKey, V>(s: Seq<(K, V)>) -> bool {
    forall|a: int, b: int|
        0 <= a < b < s.len() ==> #[trigger] entry_keys(s)[a] != #[trigger] entry_keys(s)[b]
}

/// The fixed-capacity, least-recently-used cache. The entry sequence is the
/// recency order: index 0 is the eviction victim, the last entry the most
/// recently used.
pub struct LruCache<K, V> {
    capacity: usize,
    entries: Vec<(K, V)>,
}

impl<K: CacheKey, V> LruCache<K, V> {
    pub closed spec fn spec_entries(self) -> Seq<(K, V)> {
        self.entries@
    }

    pub closed spec fn spec_capacity(self) -> nat {
        self.capacity as nat
    }

    pub open spec fn spec_len(self) -> nat {
        self.spec_entries().len()
    }

    /// The keys in recency order, as views.
    pub open spec fn spec_keys(self) -> Seq<K::V> {
        entry_keys(self.spec_entries())
    }

    /// Keys are pairwise distinct and the entry count never exceeds the
    /// capacity.
    pub open spec fn wf(self) -> bool {
        &&& self.spec_entries().len() <= self.spec_capacity()
        &&& distinct_keys(self.spec_entries())
    }

    pub open spec fn spec_contains(self, k: K::V) -> bool {
        self.spec_keys().contains(k)
    }

    /// The value cached under key view `k`.
    pub open spec fn spec_at(self, k: K::V) -> V {
        self.spec_entries()[self.spec_keys().index_of(k)].1
    }

    pub fn new(capacity: usize) -> (c: Self)
        ensures
            c.wf(),
            c.spec_capacity() == capacity,
            c.spec_len() == 0,
    {
        LruCache { capacity, entries: Vec::new() }
    }

    pub fn len(&self) -> (n: usize)
        ensures
            n == self.spec_len(),
    {
        self.entries.len()
    }

    pub fn capacity(&self) -> (n: usize)
        ensures
            n == self.spec_capacity(),
    {
        self.capacity
    }

    fn find_index(&self, key: &K) -> (r: Option<usize>)
        requires
            self.wf(),
        ensures
            match r {
                Some(i) => i < self.spec_len() && self.spec_keys()[i as int] == key@ && i
                    == self.spec_keys().index_of(key@),
                None => !self.spec_contains(key@),
            },
    {
        let n: usize = self.entries.len();
        let mut i: usize = 0;
        while i < n
            invariant
                i <= n,
                n == self.spec_len(),
                self.wf(),
                forall|j: int| 0 <= j < i ==> self.spec_keys()[j] != key@,
            decreases n - i,
        {
            if self.entries[i].0.key_eq(key) {
                proof {
                    assert(self.spec_keys()[i as int] == key@);
                    self.spec_keys().index_of_first_ensures(key@);
                    assert(self.spec_keys().index_of(key@) == i as int);
                }
                return Some(i);
            }
            i = i + 1;
        }
        proof {
            assert(forall|j: int| 0 <= j < self.spec_keys().len() ==> self.spec_keys()[j] != key@);
            assert(!self.spec_contains(key@));
        }
        None
    }

    /// Marks the key as most recently used if present; untouched otherwise.
    pub fn touch(&mut self, key: &K)
        requires
            old(self).wf(),
        ensures
            final(self).wf(),
            final(self).spec_capacity() == old(self).spec_capacity(),
            old(self).spec_contains(key@) ==> final(self).spec_entries() == old(self).spec_entries().remove(old(self).spec_keys().index_of(key@)).push(
                old(self).spec_entries()[old(self).spec_keys().index_of(key@)],
            ),
            !old(self).spec_contains(key@) ==> *final(self) == *old(self),
    {
        let r = self.find_index(key);
        match r {
            Some(i) => {
                let pair = self.entries.remove(i);
                self.entries.push(pair);
                proof {
                    lemma_reorder_keeps_distinct::<K, V>(old(self).spec_entries(), i as int);
                    assert(self.wf());
                }
            },
            None => {},
        }
    }

    /// Looks the key up; on a hit the entry becomes the most recently used
    /// and a duplicate of the cached value is returned.
    pub fn get(&mut self, key: &K) -> (r: Option<V>) where V: CacheValue
        requires
            old(self).wf(),
        ensures
            final(self).wf(),
            final(self).spec_capacity() == old(self).spec_capacity(),
            match r {
                Some(v) => old(self).spec_contains(key@) && v == old(self).spec_at(key@) && final(self).spec_entries() == old(self).spec_entries().remove(
                    old(self).spec_keys().index_of(key@),
                ).push(old(self).spec_entries()[old(self).spec_keys().index_of(key@)]),
                None => !old(self).spec_contains(key@) && *final(self) == *old(self),
            },
    {
        let r = self.find_index(key);
        match r {
            Some(i) => {
                let pair = self.entries.remove(i);
                let v = pair.1.dup();
                self.entries.push(pair);
                proof {
                    lemma_reorder_keeps_distinct::<K, V>(old(self).spec_entries(), i as int);
                    assert(self.wf());
                }
                Some(v)
            },
            None => None,
        }
    }

    /// The fetch-or-compute operation: a present key is marked most
    /// recently used and its cached value returned, with no recomputation;
    /// a missing key is computed by the fetcher, and on success the result
    /// is cached (per the insertion policy) and returned, while a fetch
    /// failure propagates without inserting anything.
    pub fn get_or_fetch<E, F: FnOnce(&K) -> Result<V, E>>(&mut self, key: K, fetcher: F) -> (r:
        Result<V, E>) where V: CacheValue
        requires
            old(self).wf(),
            call_requires(fetcher, (&key,)),
        ensures
            final(self).wf(),
            final(self).spec_capacity() == old(self).spec_capacity(),
            old(self).spec_contains(key@) ==> (r matches Ok(v) && v == old(self).spec_at(key@)
                && final(self).spec_entries() == old(self).spec_entries().remove(
                old(self).spec_keys().index_of(key@),
            ).push(old(self).spec_entries()[old(self).spec_keys().index_of(key@)])),
            !old(self).spec_contains(key@) ==> (r matches Err(e) ==> call_ensures(
                fetcher,
                (&key,),
                Result::Err(e),
            ) && *final(self) == *old(self)),
            !old(self).spec_contains(key@) ==> (r matches Ok(v) ==> call_ensures(
                fetcher,
                (&key,),
                Result::Ok(v),
            ) && {
                &&& old(self).spec_capacity() == 0 ==> *final(self) == *old(self)
                &&& old(self).spec_capacity() > 0 && old(self).spec_len() >= old(
                    self,
                ).spec_capacity() ==> final(self).spec_entries() == old(
                    self,
                ).spec_entries().drop_first().push((key, v))
                &&& old(self).spec_capacity() > 0 && old(self).spec_len() < old(
                    self,
                ).spec_capacity() ==> final(self).spec_entries() == old(
                    self,
                ).spec_entries().push((key, v))
            }),
    {
        let cached = self.get(&key);
        match cached {
            Some(v) => Ok(v),
            None => {
                let computed = fetcher(&key);
                match computed {
                    Ok(v) => {
                        let out = v.dup();
                        self.insert(key, v);
                        Ok(out)
                    },
                    Err(e) => Err(e),
                }
            },
        }
    }

    /// Inserts per the cache policy: dropped at capacity zero; an existing
    /// key gets the new value and becomes most recently used; otherwise, at
    /// capacity, the oldest entry is evicted, and the new entry joins as
    /// the most recently used.
    pub fn insert(&mut self, key: K, val: V)
        requires
            old(self).wf(),
        ensures
            final(self).wf(),
            final(self).spec_capacity() == old(self).spec_capacity(),
            old(self).spec_capacity() == 0 ==> *final(self) == *old(self),
            old(self).spec_capacity() > 0 && old(self).spec_contains(key@) ==> final(self).spec_entries() == old(self).spec_entries().remove(
                old(self).spec_keys().index_of(key@),
            ).push((key, val)),
            old(self).spec_capacity() > 0 && !old(self).spec_contains(key@) && old(self).spec_len()
                >= old(self).spec_capacity() ==> final(self).spec_entries() == old(self).spec_entries().drop_first().push((key, val)),
            old(self).spec_capacity() > 0 && !old(self).spec_contains(key@) && old(self).spec_len()
                < old(self).spec_capacity() ==> final(self).spec_entries() == old(self).spec_entries().push((key, val)),
    {
        if self.capacity == 0 {
            return ;
        }
        let r = self.find_index(&key);
        proof {
            if r is None {
                assert forall|j: int| 0 <= j < old(self).spec_keys().len() implies #[trigger] old(
                    self,
                ).spec_keys()[j] != key@ by {
                    assert(!old(self).spec_keys().contains(key@));
                }
            }
        }
        match r {
            Some(i) => {
                self.entries.remove(i);
                proof {
                    lemma_remove_keeps_distinct::<K, V>(old(self).spec_entries(), i as int);
                    assert(entry_keys(old(self).spec_entries())[i as int] == key@);
                    assert(forall|j: int|
                        0 <= j < self.entries@.len() ==> #[trigger] entry_keys(self.entries@)[j]
                            != key@);
                }
                self.entries.push((key, val));
                proof {
                    lemma_push_fresh_keeps_distinct::<K, V>(
                        old(self).spec_entries().remove(i as int),
                        (key, val),
                    );
                    assert(self.wf());
                }
            },
            None => {
                if self.entries.len() >= self.capacity {
                    self.entries.remove(0);
                    proof {
                        lemma_remove_keeps_distinct::<K, V>(old(self).spec_entries(), 0);
                        assert(old(self).spec_entries().remove(0) =~= old(
                            self,
                        ).spec_entries().drop_first());
                        assert(forall|j: int|
                            0 <= j < self.entries@.len() ==> #[trigger] entry_keys(
                                self.entries@,
                            )[j] != key@);
                    }
                }
                let ghost pre: Seq<(K, V)> = self.entries@;
                self.entries.push((key, val));
                proof {
                    lemma_push_fresh_keeps_distinct::<K, V>(pre, (key, val));
                    assert(self.wf());
                }
            },
        }
    }
}

/// Removing one entry keeps the remaining key views pairwise distinct, and
/// none of them is the removed key when keys were distinct before.
proof fn lemma_remove_keeps_distinct<K: CacheKey, V>(s: Seq<(K, V)>, i: int)
    requires
        0 <= i < s.len(),
        distinct_keys(s),
    ensures
        distinct_keys(s.remove(i)),
        forall|a: int|
            0 <= a < s.remove(i).len() ==> #[trigger] entry_keys(s.remove(i))[a] == entry_keys(s)[
                if a < i {
                    a
                } else {
                    a + 1
                }
            ],
        forall|a: int|
            0 <= a < s.remove(i).len() ==> #[trigger] entry_keys(s.remove(i))[a] != entry_keys(
                s,
            )[i],
{
    let keys = entry_keys(s);
    let rkeys = entry_keys(s.remove(i));
    assert forall|a: int| 0 <= a < rkeys.len() implies rkeys[a] == keys[
        if a < i {
            a
        } else {
            a + 1
        }
    ] by {
        assert(s.remove(i)[a] == s[
            if a < i {
                a
            } else {
                a + 1
            }
        ]);
    }
}

/// Pushing an entry whose key view occurs nowhere keeps distinctness.
proof fn lemma_push_fresh_keeps_distinct<K: CacheKey, V>(s: Seq<(K, V)>, e: (K, V))
    requires
        distinct_keys(s),
        forall|a: int| 0 <= a < s.len() ==> #[trigger] entry_keys(s)[a] != e.0@,
    ensures
        distinct_keys(s.push(e)),
{
    let keys = entry_keys(s);
    let pkeys = entry_keys(s.push(e));
    assert forall|a: int| 0 <= a < pkeys.len() implies pkeys[a] == (if a < s.len() {
        keys[a]
    } else {
        e.0@
    }) by {
        if a < s.len() {
            assert(s.push(e)[a] == s[a]);
        } else {
            assert(s.push(e)[a] == e);
        }
    }
}

/// Moving one entry to the back keeps the key views pairwise distinct.
proof fn lemma_reorder_keeps_distinct<K: CacheKey, V>(s: Seq<(K, V)>, i: int)
    requires
        0 <= i < s.len(),
        distinct_keys(s),
    ensures
        distinct_keys(s.remove(i).push(s[i])),
{
    lemma_remove_keeps_distinct::<K, V>(s, i);
    assert(entry_keys(s)[i] == s[i].0@);
    lemma_push_fresh_keeps_distinct::<K, V>(s.remove(i), s[i]);
}

/// A cache built with capacity zero never retains an entry.
pub proof fn lemma_capacity_zero_empty<K: CacheKey, V>(c: LruCache<K, V>)
    requires
        c.wf(),
        c.spec_capacity() == 0,
    ensures
        c.spec_len() == 0,
{
}

} // verus!
