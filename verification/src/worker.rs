//! The per-connection worker's policy core: the counting permits that bound
//! concurrent in-flight queries, and the private prepared-statement cache
//! keyed by query text. The worker's accept loop — receiving commands,
//! awaiting statement compilation and query execution, delivering replies —
//! runs in the runtime shell, which consults this core for every decision:
//! admit one command per permit, look the statement up before compiling,
//! store it after a successful compilation, release the permit when the
//! command's execution settles.
//!
//! A compilation failure is per-command and non-fatal: the shell delivers
//! the error to that command's reply slot, releases the permit, and the
//! loop continues. The cache is owned by exactly one worker; statement
//! handles are connection-scoped and never shared across workers.

use crate::lru_cache::{CacheValue, LruCache};
use crate::permits::PermitCounter;
use vstd::prelude::*;

verus! {

/// Capacity of each worker's prepared-statement cache.
pub const STATEMENT_CACHE_CAPACITY: usize = 256;

/// One connection's verified policy state, generic over the opaque
/// compiled-statement handle the native driver hands back.
pub struct Worker<S> {
    cache: LruCache<String, S>,
    permits: PermitCounter,
}

impl<S: CacheValue> Worker<S> {
    pub closed spec fn spec_cache(self) -> LruCache<String, S> {
        self.cache
    }

    pub closed spec fn spec_permits(self) -> PermitCounter {
        self.permits
    }

    pub open spec fn wf(self) -> bool {
        self.spec_cache().wf() && self.spec_permits().wf()
    }

    /// A fresh worker: an empty statement cache and all permits free.
    pub fn new(inflight_per_conn: usize) -> (w: Self)
        requires
            inflight_per_conn >= 1,
        ensures
            w.wf(),
            w.spec_cache().spec_capacity() == STATEMENT_CACHE_CAPACITY,
            w.spec_cache().spec_len() == 0,
            w.spec_permits().spec_limit() == inflight_per_conn,
            w.spec_permits().spec_outstanding() == 0,
    {
        Worker {
            cache: LruCache::new(STATEMENT_CACHE_CAPACITY),
            permits: PermitCounter::new(inflight_per_conn),
        }
    }

    /// Admits the next command if a permit is free; with all permits
    /// outstanding the shell must suspend until one is released.
    pub fn try_admit(&mut self) -> (r: bool)
        requires
            old(self).wf(),
        ensures
            final(self).wf(),
            final(self).spec_cache() == old(self).spec_cache(),
            final(self).spec_permits().spec_limit() == old(self).spec_permits().spec_limit(),
            r == (old(self).spec_permits().spec_outstanding() < old(
                self,
            ).spec_permits().spec_limit()),
            r ==> final(self).spec_permits().spec_outstanding() == old(
                self,
            ).spec_permits().spec_outstanding() + 1,
            !r ==> *final(self) == *old(self),
    {
        self.permits.try_acquire()
    }

    /// Releases one permit when a command's execution settles.
    pub fn finish_one(&mut self)
        requires
            old(self).wf(),
            old(self).spec_permits().spec_outstanding() >= 1,
        ensures
            final(self).wf(),
            final(self).spec_cache() == old(self).spec_cache(),
            final(self).spec_permits().spec_limit() == old(self).spec_permits().spec_limit(),
            final(self).spec_permits().spec_outstanding() == old(
                self,
            ).spec_permits().spec_outstanding() - 1,
    {
        self.permits.release()
    }

    /// Looks the command's query text up in the statement cache. On a hit
    /// the entry becomes the most recently used and a duplicate of the
    /// cached handle is returned: no recompilation. On a miss the shell
    /// awaits compilation and, on success, stores the handle.
    pub fn cached_statement(&mut self, query: &String) -> (r: Option<S>)
        requires
            old(self).wf(),
        ensures
            final(self).wf(),
            final(self).spec_permits() == old(self).spec_permits(),
            final(self).spec_cache().spec_capacity() == old(self).spec_cache().spec_capacity(),
            match r {
                Some(v) => old(self).spec_cache().spec_contains(query@) && v == old(
                    self,
                ).spec_cache().spec_at(query@) && final(self).spec_cache().spec_entries() == old(
                    self,
                ).spec_cache().spec_entries().remove(
                    old(self).spec_cache().spec_keys().index_of(query@),
                ).push(
                    old(self).spec_cache().spec_entries()[old(
                        self,
                    ).spec_cache().spec_keys().index_of(query@)],
                ),
                None => !old(self).spec_cache().spec_contains(query@) && *final(self) == *old(
                    self,
                ),
            },
    {
        self.cache.get(query)
    }

    /// Stores a freshly compiled statement handle under its query text,
    /// per the cache policy (eviction of the oldest entry at capacity).
    pub fn store_statement(&mut self, query: String, stmt: S)
        requires
            old(self).wf(),
        ensures
            final(self).wf(),
            final(self).spec_permits() == old(self).spec_permits(),
            final(self).spec_cache().spec_capacity() == old(self).spec_cache().spec_capacity(),
            old(self).spec_cache().spec_capacity() == 0 ==> *final(self) == *old(self),
            old(self).spec_cache().spec_capacity() > 0 && old(self).spec_cache().spec_contains(
                query@,
            ) ==> final(self).spec_cache().spec_entries() == old(
                self,
            ).spec_cache().spec_entries().remove(
                old(self).spec_cache().spec_keys().index_of(query@),
            ).push((query, stmt)),
            old(self).spec_cache().spec_capacity() > 0 && !old(self).spec_cache().spec_contains(
                query@,
            ) && old(self).spec_cache().spec_len() >= old(self).spec_cache().spec_capacity()
                ==> final(self).spec_cache().spec_entries() == old(
                self,
            ).spec_cache().spec_entries().drop_first().push((query, stmt)),
            old(self).spec_cache().spec_capacity() > 0 && !old(self).spec_cache().spec_contains(
                query@,
            ) && old(self).spec_cache().spec_len() < old(self).spec_cache().spec_capacity()
                ==> final(self).spec_cache().spec_entries() == old(
                self,
            ).spec_cache().spec_entries().push((query, stmt)),
    {
        self.cache.insert(query, stmt)
    }
}

} // verus!
