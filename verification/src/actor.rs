//! The pool façade's twin under its actor naming: N database workers, each
//! behind its own bounded inbound queue, fed round-robin through a shared
//! wrapping counter. As with `Database`, the verified state is the decision
//! core — shard count, counter, shard selection, and the resolution of a
//! submission's outcome; queues and reply slots live in the runtime shell.

use crate::error::DatabaseError;
use crate::row_set::RowSet;
use crate::sql_args::SqlArg;
use vstd::prelude::*;

verus! {

/// Pool construction options. Immutable after pool creation.
#[derive(Debug, Clone, PartialEq, Eq)]
pub struct PgOptions {
    /// The shard count: one worker, one connection each.
    pub pool_size: usize,
    /// The connection URL, opaque to this layer.
    pub database_url: String,
    /// The per-connection bound on concurrently executing queries.
    pub inflight_per_conn: usize,
}

impl PgOptions {
    /// Construction-time invariants: zero shards or a zero concurrency
    /// bound are fatal at startup.
    pub open spec fn spec_valid(self) -> bool {
        self.pool_size >= 1 && self.inflight_per_conn >= 1
    }

    pub fn valid(&self) -> (r: bool)
        ensures
            r == self.spec_valid(),
    {
        self.pool_size >= 1 && self.inflight_per_conn >= 1
    }
}

/// One unit of work for a shard: the query text and its bound parameters.
/// The single-use reply sender travelling beside these is the runtime
/// shell's value.
#[derive(Debug, Clone, PartialEq, Eq)]
pub enum ActorMessage {
    Execute { query: String, args: Vec<SqlArg> },
}

/// The actor pool's verified state: shard count and wrapping round-robin
/// counter, shared by reference across all concurrent callers in the
/// running pool.
#[derive(Debug, Clone, PartialEq, Eq)]
pub struct PgActor {
    shards: usize,
    counter: usize,
}

impl PgActor {
    pub closed spec fn spec_shards(self) -> nat {
        self.shards as nat
    }

    pub closed spec fn spec_counter(self) -> nat {
        self.counter as nat
    }

    pub open spec fn wf(self) -> bool {
        self.spec_shards() >= 1
    }

    pub fn new(options: &PgOptions) -> (a: PgActor)
        requires
            options.spec_valid(),
        ensures
            a.wf(),
            a.spec_shards() == options.pool_size,
            a.spec_counter() == 0,
    {
        PgActor { shards: options.pool_size, counter: 0 }
    }

    pub fn shards(&self) -> (n: usize)
        ensures
            n == self.spec_shards(),
    {
        self.shards
    }

    /// One round-robin step: the shard for the next message is the counter
    /// modulo the shard count, and the counter increments, wrapping.
    /// Fairness of the resulting distribution is
    /// `crate::database::lemma_round_robin_fair`.
    pub fn next_shard(&mut self) -> (idx: usize)
        requires
            old(self).wf(),
        ensures
            final(self).wf(),
            final(self).spec_shards() == old(self).spec_shards(),
            idx == old(self).spec_counter() % old(self).spec_shards(),
            idx < old(self).spec_shards(),
            final(self).spec_counter() == if old(self).spec_counter() == usize::MAX {
                0nat
            } else {
                old(self).spec_counter() + 1
            },
    {
        let idx: usize = self.counter % self.shards;
        self.counter = self.counter.wrapping_add(1);
        idx
    }

    /// Resolves a submission's outcome into the caller's result, exactly
    /// as `Database::resolve_reply` does.
    pub fn resolve_reply(sent: bool, reply: Option<Result<RowSet, DatabaseError>>) -> (r: Result<
        RowSet,
        DatabaseError,
    >)
        ensures
            !sent ==> r == Result::<RowSet, DatabaseError>::Err(DatabaseError::PoolClosed),
            sent && reply is None ==> r == Result::<RowSet, DatabaseError>::Err(
                DatabaseError::NoResponse,
            ),
            sent && reply is Some ==> r == reply->0,
    {
        if !sent {
            Err(DatabaseError::PoolClosed)
        } else {
            match reply {
                None => Err(DatabaseError::NoResponse),
                Some(outcome) => outcome,
            }
        }
    }
}

} // verus!
