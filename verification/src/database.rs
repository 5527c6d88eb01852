//! The dispatcher (pool façade): N connection workers, each behind its own
//! bounded inbound queue, fed round-robin through a shared wrapping counter.
//! The verified state here is the dispatcher's decision core — the shard
//! count and the counter, the shard-selection step, and how a submission's
//! outcome resolves into the caller's result. The queues, the reply slots
//! and the suspension live in the runtime shell, which consults this core
//! for every decision.

use crate::error::DatabaseError;
use crate::row_set::RowSet;
use crate::sql_args::SqlArg;
use vstd::arithmetic::div_mod::{lemma_fundamental_div_mod, lemma_fundamental_div_mod_converse};
use vstd::prelude::*;

verus! {

/// Pool construction options. Immutable after pool creation.
#[derive(Debug, Clone, PartialEq, Eq)]
pub struct DatabaseOptions {
    /// The connection URL, opaque to this layer.
    pub url: String,
    /// The shard count: one worker, one connection each.
    pub threads: usize,
    /// The per-connection bound on concurrently executing queries.
    pub inflight_per_conn: usize,
}

impl DatabaseOptions {
    /// Construction-time invariants: zero shards or a zero concurrency
    /// bound are fatal at startup.
    pub open spec fn spec_valid(self) -> bool {
        self.threads >= 1 && self.inflight_per_conn >= 1
    }

    pub fn valid(&self) -> (r: bool)
        ensures
            r == self.spec_valid(),
    {
        self.threads >= 1 && self.inflight_per_conn >= 1
    }
}

/// One unit of work for a shard: the query text and its bound parameters.
/// The single-use reply slot travelling beside these is the runtime
/// shell's value; exactly one reply is produced per command, or none if
/// the pool is torn down first.
#[derive(Debug, Clone, PartialEq, Eq)]
pub enum DbCommand {
    Execute { query: String, args: Vec<SqlArg> },
}

/// The dispatcher's verified state: the shard count and the wrapping
/// round-robin counter. In the running pool the counter is a single shared
/// atomic; its fetch-and-increment steps are exactly the `next_shard`
/// steps of this model, in the order the hardware serializes them.
#[derive(Debug, Clone, PartialEq, Eq)]
pub struct Database {
    shards: usize,
    counter: usize,
}

impl Database {
    pub closed spec fn spec_shards(self) -> nat {
        self.shards as nat
    }

    pub closed spec fn spec_counter(self) -> nat {
        self.counter as nat
    }

    pub open spec fn wf(self) -> bool {
        self.spec_shards() >= 1
    }

    pub fn new(options: &DatabaseOptions) -> (d: Database)
        requires
            options.spec_valid(),
        ensures
            d.wf(),
            d.spec_shards() == options.threads,
            d.spec_counter() == 0,
    {
        Database { shards: options.threads, counter: 0 }
    }

    pub fn shards(&self) -> (n: usize)
        ensures
            n == self.spec_shards(),
    {
        self.shards
    }

    /// One round-robin step: the shard for the next command is the counter
    /// modulo the shard count, and the counter increments, wrapping.
    pub fn next_shard(&mut self) -> (idx: usize)
        requires
            old(self).wf(),
        ensures
            final(self).wf(),
            final(self).spec_shards() == old(self).spec_shards(),
            idx == old(self).spec_counter() % old(self).spec_shards(),
            idx < old(self).spec_shards(),
            final(self).spec_counter() == if old(self).spec_counter() == usize::MAX {
                0nat
            } else {
                old(self).spec_counter() + 1
            },
    {
        let idx: usize = self.counter % self.shards;
        self.counter = self.counter.wrapping_add(1);
        idx
    }

    /// Resolves a submission's outcome into the caller's result: a rejected
    /// enqueue (the queue was closed) fails with `PoolClosed`; an accepted
    /// command whose reply slot was dropped unanswered fails with
    /// `NoResponse`; otherwise the worker's own reply passes through.
    pub fn resolve_reply(sent: bool, reply: Option<Result<RowSet, DatabaseError>>) -> (r: Result<
        RowSet,
        DatabaseError,
    >)
        ensures
            !sent ==> r == Result::<RowSet, DatabaseError>::Err(DatabaseError::PoolClosed),
            sent && reply is None ==> r == Result::<RowSet, DatabaseError>::Err(
                DatabaseError::NoResponse,
            ),
            sent && reply is Some ==> r == reply->0,
    {
        if !sent {
            Err(DatabaseError::PoolClosed)
        } else {
            match reply {
                None => Err(DatabaseError::NoResponse),
                Some(outcome) => outcome,
            }
        }
    }
}

/// How many of the first `m` round-robin steps (counter starting at zero)
/// land on shard `k`.
pub open spec fn spec_routed_count(m: nat, n: nat, k: nat) -> nat
    decreases m,
{
    if m == 0 {
        0
    } else {
        spec_routed_count((m - 1) as nat, n, k) + if (m - 1) as nat % n == k {
            1nat
        } else {
            0nat
        }
    }
}

/// Round-robin fairness: over any `m` submissions to `n` shards with the
/// counter starting at zero, shard `k` receives `m / n` commands, plus one
/// when `k < m % n` — that is, every shard receives either ⌊m/n⌋ or ⌈m/n⌉.
pub proof fn lemma_round_robin_fair(m: nat, n: nat, k: nat)
    requires
        n >= 1,
        k < n,
    ensures
        spec_routed_count(m, n, k) == m / n + if k < m % n {
            1nat
        } else {
            0nat
        },
    decreases m,
{
    if m == 0 {
        lemma_fundamental_div_mod_converse(0, n as int, 0, 0);
        assert(m / n == 0 && m % n == 0);
    } else {
        let p = (m - 1) as nat;
        lemma_round_robin_fair(p, n, k);
        lemma_fundamental_div_mod(p as int, n as int);
        let q0 = p as int / n as int;
        let r0 = p as int % n as int;
        if r0 == n - 1 {
            assert(n as int * (q0 + 1) == n as int * q0 + n as int) by (nonlinear_arith);
            assert(m as int == (q0 + 1) * n as int + 0) by (nonlinear_arith)
                requires
                    m == p + 1,
                    p as int == n as int * q0 + r0,
                    r0 == n - 1,
            ;
            lemma_fundamental_div_mod_converse(m as int, n as int, q0 + 1, 0);
            assert(m % n == 0);
            assert(m / n == q0 + 1);
            assert(spec_routed_count(m, n, k) == spec_routed_count(p, n, k) + if p % n == k {
                1nat
            } else {
                0nat
            });
            assert(p % n == r0);
            assert(p / n == q0);
        } else {
            assert(m as int == q0 * n as int + (r0 + 1)) by (nonlinear_arith)
                requires
                    m == p + 1,
                    p as int == n as int * q0 + r0,
            ;
            lemma_fundamental_div_mod_converse(m as int, n as int, q0, r0 + 1);
            assert(m % n == r0 + 1);
            assert(m / n == q0);
            assert(p % n == r0);
            assert(p / n == q0);
        }
    }
}

} // verus!
