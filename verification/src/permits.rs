//! Counting permits: the admission-control primitive bounding how many
//! queries may be in flight against one connection at once. The worker
//! acquires a permit before dispatching a command and releases it when the
//! command's execution finishes; the blocking wait for a free permit is the
//! runtime shell's concern.

use vstd::prelude::*;

verus! {

/// A bounded counter of outstanding permits.
#[derive(Debug, Clone, PartialEq, Eq)]
pub struct PermitCounter {
    limit: usize,
    outstanding: usize,
}

impl PermitCounter {
    pub closed spec fn spec_limit(self) -> nat {
        self.limit as nat
    }

    pub closed spec fn spec_outstanding(self) -> nat {
        self.outstanding as nat
    }

    /// Outstanding permits never exceed the limit.
    pub open spec fn wf(self) -> bool {
        self.spec_outstanding() <= self.spec_limit()
    }

    pub fn new(limit: usize) -> (c: Self)
        ensures
            c.wf(),
            c.spec_limit() == limit,
            c.spec_outstanding() == 0,
    {
        PermitCounter { limit, outstanding: 0 }
    }

    pub fn limit(&self) -> (n: usize)
        ensures
            n == self.spec_limit(),
    {
        self.limit
    }

    pub fn outstanding(&self) -> (n: usize)
        ensures
            n == self.spec_outstanding(),
    {
        self.outstanding
    }

    /// Admits one more in-flight query if and only if the bound allows it.
    pub fn try_acquire(&mut self) -> (r: bool)
        requires
            old(self).wf(),
        ensures
            final(self).wf(),
            final(self).spec_limit() == old(self).spec_limit(),
            r == (old(self).spec_outstanding() < old(self).spec_limit()),
            r ==> final(self).spec_outstanding() == old(self).spec_outstanding() + 1,
            !r ==> *final(self) == *old(self),
    {
        if self.outstanding < self.limit {
            self.outstanding = self.outstanding + 1;
            true
        } else {
            false
        }
    }

    /// Returns one permit when an in-flight query completes.
    pub fn release(&mut self)
        requires
            old(self).wf(),
            old(self).spec_outstanding() >= 1,
        ensures
            final(self).wf(),
            final(self).spec_limit() == old(self).spec_limit(),
            final(self).spec_outstanding() == old(self).spec_outstanding() - 1,
    {
        self.outstanding = self.outstanding - 1;
    }
}

/// The per-worker concurrency bound: at any instant at most `limit` queries
/// are admitted, and with all permits outstanding no further query is
/// admitted until one completes and releases its permit.
pub proof fn lemma_concurrency_bound(c: PermitCounter)
    requires
        c.wf(),
    ensures
        c.spec_outstanding() <= c.spec_limit(),
        c.spec_outstanding() == c.spec_limit() ==> !(c.spec_outstanding() < c.spec_limit()),
{
}

} // verus!
