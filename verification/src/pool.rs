//! Connection acquisition: a fixed-capacity pool of pre-established
//! handles to one backend instance, and the strategy-polymorphic acquirer
//! that the request path depends on.
//!
//! The pool counts the handles currently leased out. A lease is granted
//! only while fewer than `capacity` handles are live; a caller that finds
//! the pool full waits or times out into `BackendUnavailable` upstream —
//! the count itself can never pass the capacity. Releasing on every exit
//! path, success or failure, is the caller's side of the contract and is
//! what `release`'s precondition expresses.

use vstd::prelude::*;

verus! {

/// A fixed-capacity pool of connection handles to a single instance.
pub struct BoundedPool {
    capacity: usize,
    in_use: usize,
}

impl BoundedPool {
    /// The fixed number of handles the pool was built with.
    pub closed spec fn spec_capacity(&self) -> int {
        self.capacity as int
    }

    /// How many handles are currently leased out.
    pub closed spec fn spec_in_use(&self) -> int {
        self.in_use as int
    }

    /// The pool never has more handles leased out than its capacity.
    pub open spec fn wf(&self) -> bool {
        0 <= self.spec_in_use() <= self.spec_capacity()
    }

    /// A fresh pool: all handles free.
    pub fn new(capacity: usize) -> (pool: Self)
        ensures
            pool.wf(),
            pool.spec_capacity() == capacity,
            pool.spec_in_use() == 0,
    {
        BoundedPool { capacity, in_use: 0 }
    }

    pub fn capacity(&self) -> (c: usize)
        ensures
            c == self.spec_capacity(),
    {
        self.capacity
    }

    pub fn in_use(&self) -> (n: usize)
        ensures
            n == self.spec_in_use(),
    {
        self.in_use
    }

    /// Leases one handle if any is free. A grant is given exactly when the
    /// pool is not yet at capacity; a refusal leaves the pool unchanged and
    /// is reported upstream as `BackendUnavailable` once the caller's
    /// timeout elapses.
    pub fn try_acquire(&mut self) -> (granted: bool)
        requires
            old(self).wf(),
        ensures
            final(self).wf(),
            final(self).spec_capacity() == old(self).spec_capacity(),
            granted <==> old(self).spec_in_use() < old(self).spec_capacity(),
            granted ==> final(self).spec_in_use() == old(self).spec_in_use() + 1,
            !granted ==> final(self).spec_in_use() == old(self).spec_in_use(),
    {
        if self.in_use < self.capacity {
            self.in_use = self.in_use + 1;
            true
        } else {
            false
        }
    }

    /// Returns one leased handle to the pool. Callers release on every exit
    /// path of an operation, so a release without a live lease cannot
    /// happen; the precondition records that.
    pub fn release(&mut self)
        requires
            old(self).wf(),
            old(self).spec_in_use() > 0,
        ensures
            final(self).wf(),
            final(self).spec_capacity() == old(self).spec_capacity(),
            final(self).spec_in_use() == old(self).spec_in_use() - 1,
    {
        self.in_use = self.in_use - 1;
    }
}

/// The connection-acquisition capability the request path depends on:
/// one of three interchangeable strategies, selected by deployment
/// configuration. Callers see only `try_lease` and `release`, never which
/// strategy is active.
pub enum ConnectionAcquirer {
    /// A fresh logical session per request over a shared multiplexed
    /// transport; no explicit pool.
    Multiplexed,
    /// A fixed-capacity pool of pre-established handles to one instance.
    Pooled(BoundedPool),
    /// One long-lived cluster-aware client reused across all requests; the
    /// store manages its connections internally.
    ClusterNative,
}

impl ConnectionAcquirer {
    pub open spec fn wf(&self) -> bool {
        self matches ConnectionAcquirer::Pooled(pool) ==> pool.wf()
    }

    /// Obtains a usable handle for one operation. `transport_up` is the
    /// environment's answer on whether a session to the routed instance
    /// could be established; the pooled strategy leases one of its
    /// pre-established handles instead and refuses exactly when the pool
    /// is exhausted. A refusal surfaces upstream as `BackendUnavailable`,
    /// never as a silent retry.
    pub fn try_lease(&mut self, transport_up: bool) -> (granted: bool)
        requires
            old(self).wf(),
        ensures
            final(self).wf(),
            *old(self) is Multiplexed ==> *final(self) is Multiplexed && granted == transport_up,
            *old(self) is ClusterNative ==> *final(self) is ClusterNative && granted
                == transport_up,
            *old(self) matches ConnectionAcquirer::Pooled(pool) ==> (*final(self)
                matches ConnectionAcquirer::Pooled(after) && after.spec_capacity()
                == pool.spec_capacity() && (granted <==> pool.spec_in_use()
                < pool.spec_capacity()) && after.spec_in_use() == if granted {
                pool.spec_in_use() + 1
            } else {
                pool.spec_in_use()
            }),
    {
        match self {
            ConnectionAcquirer::Multiplexed => transport_up,
            ConnectionAcquirer::ClusterNative => transport_up,
            ConnectionAcquirer::Pooled(pool) => pool.try_acquire(),
        }
    }

    /// Gives the handle back once the operation is over, on every exit
    /// path, success or failure.
    pub fn release(&mut self)
        requires
            old(self).wf(),
            *old(self) matches ConnectionAcquirer::Pooled(pool) ==> pool.spec_in_use() > 0,
        ensures
            final(self).wf(),
            *old(self) is Multiplexed ==> *final(self) is Multiplexed,
            *old(self) is ClusterNative ==> *final(self) is ClusterNative,
            *old(self) matches ConnectionAcquirer::Pooled(pool) ==> (*final(self)
                matches ConnectionAcquirer::Pooled(after) && after.spec_capacity()
                == pool.spec_capacity() && after.spec_in_use() == pool.spec_in_use() - 1),
    {
        match self {
            ConnectionAcquirer::Pooled(pool) => pool.release(),
            _ => {
            },
        }
    }
}

/// One acquisition or release observed at the pool, in arrival order.
#[derive(Debug, Clone, Copy, PartialEq, Eq)]
pub enum PoolEvent {
    Acquire,
    Release,
}

/// The live-handle count after one event under the pool's policy: an
/// acquisition beyond capacity is refused (the request waits or times out),
/// and a release never drops the count below zero.
pub open spec fn pool_step(in_use: int, capacity: int, event: PoolEvent) -> int {
    match event {
        PoolEvent::Acquire => if in_use < capacity {
            in_use + 1
        } else {
            in_use
        },
        PoolEvent::Release => if in_use > 0 {
            in_use - 1
        } else {
            in_use
        },
    }
}

/// The live-handle count after a whole sequence of events.
pub open spec fn pool_run(in_use: int, capacity: int, events: Seq<PoolEvent>) -> int
    decreases events.len(),
{
    if events.len() == 0 {
        in_use
    } else {
        pool_step(pool_run(in_use, capacity, events.drop_last()), capacity, events.last())
    }
}

/// Law: however many acquisitions and releases arrive, in any order, the
/// number of live handles never exceeds the pool's capacity and never goes
/// negative — requests beyond capacity are refused, never served with an
/// extra handle.
pub proof fn lemma_live_handles_bounded(in_use: int, capacity: int, events: Seq<PoolEvent>)
    requires
        0 <= in_use <= capacity,
    ensures
        0 <= pool_run(in_use, capacity, events) <= capacity,
    decreases events.len(),
{
    if events.len() > 0 {
        lemma_live_handles_bounded(in_use, capacity, events.drop_last());
    }
}

} // verus!
