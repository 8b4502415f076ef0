//! Tiered reusable byte-buffer pool. Buffers come in three fixed sizes;
//! a buffer is owned by at most one session at a time and returns to its
//! tier's free list on release. When a tier is at capacity the pool either
//! hands out a non-poolable overflow buffer or rejects, per policy.

use vstd::prelude::*;
use crate::error::ProxyError;
use crate::{SMALL_BUFFER_SIZE, MEDIUM_BUFFER_SIZE, LARGE_BUFFER_SIZE};

verus! {

/// The size class of a buffer.
#[derive(Clone, Copy, Debug, PartialEq, Eq, Structural)]
pub enum Tier {
    Small,
    Medium,
    Large,
}

/// What `acquire` does when the selected tier is at capacity.
#[derive(Clone, Copy, Debug, PartialEq, Eq, Structural)]
pub enum PoolPolicy {
    /// Hand out a fresh buffer tagged as overflow; it is never pooled.
    Overflow,
    /// Fail with `PoolExhausted`.
    Reject,
}

/// A byte region checked out of the pool. `overflow` buffers were handed out
/// beyond a tier's capacity and are discarded, never pooled, on release.
#[derive(Debug)]
pub struct Buffer {
    pub tier: Tier,
    pub overflow: bool,
    pub data: Vec<u8>,
}

impl Buffer {
    /// Number of bytes this buffer can hold.
    pub fn capacity(&self) -> (n: usize)
        ensures
            n == self.data@.len(),
    {
        self.data.len()
    }

    /// Whether this buffer was handed out beyond its tier's capacity.
    pub fn is_overflow(&self) -> (r: bool)
        ensures
            r == self.overflow,
    {
        self.overflow
    }
}

/// Bookkeeping of one size class: its buffer size, the cap on outstanding
/// pooled buffers, the free list, and how many pooled buffers are out.
pub struct TierPool {
    pub size: usize,
    pub capacity: usize,
    pub free: Vec<Vec<u8>>,
    pub outstanding: usize,
}

impl TierPool {
    /// Pooled buffers (out plus free) never exceed the configured capacity,
    /// and every free buffer has exactly this tier's size.
    pub open spec fn wf(self) -> bool {
        &&& self.outstanding + self.free@.len() <= self.capacity
        &&& forall|i: int| 0 <= i < self.free@.len() ==> (#[trigger] self.free@[i])@.len() == self.size
    }
}

/// The tiered pool: small, medium and large size classes plus the
/// at-capacity policy.
pub struct BufferPool {
    pub small: TierPool,
    pub medium: TierPool,
    pub large: TierPool,
    pub policy: PoolPolicy,
}

impl BufferPool {
    /// The bookkeeping of one tier.
    pub open spec fn tier(self, t: Tier) -> TierPool {
        match t {
            Tier::Small => self.small,
            Tier::Medium => self.medium,
            Tier::Large => self.large,
        }
    }

    /// Every tier is well formed and the tier sizes grow strictly.
    pub open spec fn wf(self) -> bool {
        &&& self.small.wf()
        &&& self.medium.wf()
        &&& self.large.wf()
        &&& 0 < self.small.size < self.medium.size < self.large.size
    }

    /// The smallest tier whose buffer size covers `hint`
    /// (meaningful when `hint <= self.large.size`).
    pub open spec fn tier_of_hint(self, hint: int) -> Tier {
        if hint <= self.small.size {
            Tier::Small
        } else if hint <= self.medium.size {
            Tier::Medium
        } else {
            Tier::Large
        }
    }

    /// A tier is at capacity: nothing free and all capacity checked out.
    pub open spec fn at_capacity(self, t: Tier) -> bool {
        self.tier(t).free@.len() == 0 && self.tier(t).outstanding == self.tier(t).capacity
    }

    /// Total pooled buffers currently checked out, over all tiers.
    pub open spec fn outstanding_total(self) -> int {
        self.small.outstanding + self.medium.outstanding + self.large.outstanding
    }

    /// The configuration (sizes, capacities, policy) of `self` and `other`
    /// agree; only free lists and outstanding counts may differ.
    pub open spec fn same_config(self, other: BufferPool) -> bool {
        &&& self.small.size == other.small.size
        &&& self.medium.size == other.medium.size
        &&& self.large.size == other.large.size
        &&& self.small.capacity == other.small.capacity
        &&& self.medium.capacity == other.medium.capacity
        &&& self.large.capacity == other.large.capacity
        &&& self.policy == other.policy
    }

    /// A pool with the standard tier sizes, the given per-tier capacities,
    /// and the given at-capacity policy. Nothing is preallocated.
    pub fn new_with_policy(
        small_capacity: usize,
        medium_capacity: usize,
        large_capacity: usize,
        policy: PoolPolicy,
    ) -> (p: BufferPool)
        ensures
            p.wf(),
            p.small.size == SMALL_BUFFER_SIZE,
            p.medium.size == MEDIUM_BUFFER_SIZE,
            p.large.size == LARGE_BUFFER_SIZE,
            p.small.capacity == small_capacity,
            p.medium.capacity == medium_capacity,
            p.large.capacity == large_capacity,
            p.small.outstanding == 0 && p.medium.outstanding == 0 && p.large.outstanding == 0,
            p.small.free@.len() == 0 && p.medium.free@.len() == 0 && p.large.free@.len() == 0,
            p.policy == policy,
    {
        BufferPool {
            small: TierPool {
                size: SMALL_BUFFER_SIZE,
                capacity: small_capacity,
                free: Vec::new(),
                outstanding: 0,
            },
            medium: TierPool {
                size: MEDIUM_BUFFER_SIZE,
                capacity: medium_capacity,
                free: Vec::new(),
                outstanding: 0,
            },
            large: TierPool {
                size: LARGE_BUFFER_SIZE,
                capacity: large_capacity,
                free: Vec::new(),
                outstanding: 0,
            },
            policy,
        }
    }

    /// A pool with the standard tier sizes and the overflow policy.
    pub fn new(
        small_capacity: usize,
        medium_capacity: usize,
        large_capacity: usize,
    ) -> (p: BufferPool)
        ensures
            p.wf(),
            p.small.size == SMALL_BUFFER_SIZE,
            p.medium.size == MEDIUM_BUFFER_SIZE,
            p.large.size == LARGE_BUFFER_SIZE,
            p.small.capacity == small_capacity,
            p.medium.capacity == medium_capacity,
            p.large.capacity == large_capacity,
            p.small.outstanding == 0 && p.medium.outstanding == 0 && p.large.outstanding == 0,
            p.small.free@.len() == 0 && p.medium.free@.len() == 0 && p.large.free@.len() == 0,
            p.policy == PoolPolicy::Overflow,
    {
        BufferPool::new_with_policy(
            small_capacity,
            medium_capacity,
            large_capacity,
            PoolPolicy::Overflow,
        )
    }

    /// Check out a buffer whose capacity is at least `size_hint`.
    ///
    /// The smallest tier that covers the hint is used. A free buffer is
    /// reused; otherwise one is allocated while the tier is below capacity.
    /// At capacity the policy decides: an overflow buffer (never pooled),
    /// or `PoolExhausted`. A hint larger than every tier always yields an
    /// overflow buffer of exactly the hinted size.
    pub fn acquire(&mut self, size_hint: usize) -> (r: Result<Buffer, ProxyError>)
        requires
            old(self).wf(),
        ensures
            final(self).wf(),
            final(self).same_config(*old(self)),
            r is Err <==> (old(self).policy == PoolPolicy::Reject
                && size_hint <= old(self).large.size
                && old(self).at_capacity(old(self).tier_of_hint(size_hint as int))),
            match r {
                Ok(b) => {
                    &&& b.data@.len() >= size_hint
                    &&& b.overflow ==> *final(self) == *old(self)
                    &&& (b.overflow <==> (size_hint > old(self).large.size
                        || old(self).at_capacity(old(self).tier_of_hint(size_hint as int))))
                    &&& !b.overflow ==> {
                        &&& b.tier == old(self).tier_of_hint(size_hint as int)
                        &&& b.data@.len() == old(self).tier(b.tier).size
                        &&& final(self).tier(b.tier).outstanding
                            == old(self).tier(b.tier).outstanding + 1
                        &&& final(self).tier(b.tier).outstanding
                            <= final(self).tier(b.tier).capacity
                        &&& (old(self).tier(b.tier).free@.len() > 0 ==> {
                            &&& b.data == old(self).tier(b.tier).free@.last()
                            &&& final(self).tier(b.tier).free@
                                == old(self).tier(b.tier).free@.drop_last()
                        })
                        &&& (old(self).tier(b.tier).free@.len() == 0 ==> final(self).tier(
                            b.tier,
                        ).free@ == old(self).tier(b.tier).free@)
                        &&& forall|t: Tier| t != b.tier
                            ==> #[trigger] final(self).tier(t) == old(self).tier(t)
                        &&& final(self).outstanding_total()
                            == old(self).outstanding_total() + 1
                    }
                },
                Err(e) => {
                    &&& e == ProxyError::PoolExhausted
                    &&& *final(self) == *old(self)
                },
            },
    {
        if size_hint > self.large.size {
            let data = zeroed(size_hint);
            return Ok(Buffer { tier: Tier::Large, overflow: true, data });
        }
        let t = if size_hint <= self.small.size {
            Tier::Small
        } else if size_hint <= self.medium.size {
            Tier::Medium
        } else {
            Tier::Large
        };
        let tp = match t {
            Tier::Small => &mut self.small,
            Tier::Medium => &mut self.medium,
            Tier::Large => &mut self.large,
        };
        if tp.free.len() > 0 {
            let data = tp.free.pop().unwrap();
            tp.outstanding = tp.outstanding + 1;
            Ok(Buffer { tier: t, overflow: false, data })
        } else if tp.outstanding < tp.capacity {
            let data = zeroed(tp.size);
            tp.outstanding = tp.outstanding + 1;
            Ok(Buffer { tier: t, overflow: false, data })
        } else {
            match self.policy {
                PoolPolicy::Overflow => {
                    let size = tp.size;
                    let data = zeroed(size);
                    Ok(Buffer { tier: t, overflow: true, data })
                },
                PoolPolicy::Reject => Err(ProxyError::PoolExhausted),
            }
        }
    }

    /// Return a buffer. A pooled buffer goes back to its tier's free list;
    /// an overflow buffer is discarded and the pool is untouched.
    pub fn release(&mut self, b: Buffer)
        requires
            old(self).wf(),
            !b.overflow ==> b.data@.len() == old(self).tier(b.tier).size
                && old(self).tier(b.tier).outstanding > 0,
        ensures
            final(self).wf(),
            final(self).same_config(*old(self)),
            b.overflow ==> *final(self) == *old(self),
            !b.overflow ==> {
                &&& final(self).tier(b.tier).outstanding
                    == old(self).tier(b.tier).outstanding - 1
                &&& final(self).tier(b.tier).free@ == old(self).tier(b.tier).free@.push(b.data)
                &&& final(self).tier(b.tier).free@.len()
                    == old(self).tier(b.tier).free@.len() + 1
                &&& forall|t: Tier| t != b.tier
                    ==> #[trigger] final(self).tier(t) == old(self).tier(t)
                &&& final(self).outstanding_total() == old(self).outstanding_total() - 1
            },
    {
        if b.overflow {
            return;
        }
        let Buffer { tier, overflow: _, data } = b;
        let tp = match tier {
            Tier::Small => &mut self.small,
            Tier::Medium => &mut self.medium,
            Tier::Large => &mut self.large,
        };
        tp.free.push(data);
        tp.outstanding = tp.outstanding - 1;
    }

    /// How many pooled buffers of tier `t` are checked out.
    pub fn outstanding_count(&self, t: Tier) -> (n: usize)
        ensures
            n == self.tier(t).outstanding,
    {
        match t {
            Tier::Small => self.small.outstanding,
            Tier::Medium => self.medium.outstanding,
            Tier::Large => self.large.outstanding,
        }
    }

    /// How many buffers of tier `t` sit on the free list.
    pub fn free_count(&self, t: Tier) -> (n: usize)
        ensures
            n == self.tier(t).free@.len(),
    {
        match t {
            Tier::Small => self.small.free.len(),
            Tier::Medium => self.medium.free.len(),
            Tier::Large => self.large.free.len(),
        }
    }

    /// The buffer size of tier `t`.
    pub fn tier_size(&self, t: Tier) -> (n: usize)
        ensures
            n == self.tier(t).size,
    {
        match t {
            Tier::Small => self.small.size,
            Tier::Medium => self.medium.size,
            Tier::Large => self.large.size,
        }
    }
}

/// Law (tier capacity): in a well-formed pool no tier ever has more pooled
/// buffers outstanding than its configured capacity; only overflow-tagged
/// buffers, which no free list ever takes back, live beyond it.
pub proof fn lemma_outstanding_bounded(p: BufferPool)
    requires
        p.wf(),
    ensures
        forall|t: Tier| #[trigger] p.tier(t).outstanding <= p.tier(t).capacity,
{
}

/// A fresh all-zero byte vector of length `n`.
fn zeroed(n: usize) -> (v: Vec<u8>)
    ensures
        v@.len() == n,
{
    let mut v: Vec<u8> = Vec::new();
    let mut i: usize = 0;
    while i < n
        invariant
            i <= n,
            v@.len() == i,
        decreases n - i,
    {
        v.push(0);
        i = i + 1;
    }
    v
}

/// The pool the proxy starts with: standard tier sizes, standard per-tier
/// capacities, overflow policy.
pub fn create_buffer_pool() -> (p: BufferPool)
    ensures
        p.wf(),
        p.small.size == SMALL_BUFFER_SIZE,
        p.medium.size == MEDIUM_BUFFER_SIZE,
        p.large.size == LARGE_BUFFER_SIZE,
        p.small.capacity == crate::SMALL_POOL_SIZE,
        p.medium.capacity == crate::MEDIUM_POOL_SIZE,
        p.large.capacity == crate::LARGE_POOL_SIZE,
        p.small.outstanding == 0 && p.medium.outstanding == 0 && p.large.outstanding == 0,
        p.outstanding_total() == 0,
        p.small.free@.len() == 0 && p.medium.free@.len() == 0 && p.large.free@.len() == 0,
        p.policy == PoolPolicy::Overflow,
{
    BufferPool::new(crate::SMALL_POOL_SIZE, crate::MEDIUM_POOL_SIZE, crate::LARGE_POOL_SIZE)
}

} // verus!
