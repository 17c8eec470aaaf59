//! The broadcast router: wires the deduplication cache and the
//! stake-weighted ranking together.
//!
//! For each inbound blob the router asks the cache whether the blob was
//! seen before. A duplicate is dropped silently: duplicate gossip is a
//! routine occurrence, not a fault, so nothing observable happens. A new
//! blob is recorded and handed to the broadcast path, which ranks the
//! current stake snapshot to pick the target pools for rebroadcast; the
//! caller then enqueues the blob for outbound delivery to those targets.

use vstd::prelude::*;

use crate::dedup::{observe_update, DedupCache};
use crate::ranking::{pool_order, stake_pools_sorted_by, PoolStakeInfo};

verus! {

/// How many blob identifiers the dedup cache of a router holds.
pub const CACHE_SIZE: usize = 1024;

/// The gossip dissemination component: a dedup cache plus the ranking
/// decision, reached only through `handle_blob` so all cache access is
/// serialized through one owner.
pub struct BottleRack {
    cache: DedupCache,
}

impl BottleRack {
    /// The blob identifiers seen recently, least recently touched first.
    pub closed spec fn seen(&self) -> Seq<u64> {
        self.cache@
    }

    /// The bound on how many identifiers are remembered.
    pub closed spec fn capacity(&self) -> nat {
        self.cache.capacity()
    }

    /// The router invariant: each seen identifier is remembered at most
    /// once, within the bound.
    pub open spec fn wf(&self) -> bool {
        &&& self.seen().no_duplicates()
        &&& self.seen().len() <= self.capacity()
        &&& self.capacity() >= 1
    }

    /// Creates a router with an empty cache of the standard size.
    pub fn new() -> (r: BottleRack)
        ensures
            r.wf(),
            r.seen() == Seq::<u64>::empty(),
            r.capacity() == CACHE_SIZE as nat,
    {
        BottleRack { cache: DedupCache::new(CACHE_SIZE) }
    }

    /// Handles one inbound blob. A blob seen before is dropped silently:
    /// the result is `None` and nothing else is observable. A new blob is
    /// recorded as seen and the ranked rebroadcast targets are returned:
    /// the pool identifiers of the snapshot in descending stake order, or
    /// no targets when no snapshot is available.
    pub fn handle_blob(&mut self, blob: u64, snapshot: Option<&Vec<PoolStakeInfo>>) -> (targets:
        Option<Vec<u64>>)
        requires
            old(self).wf(),
        ensures
            final(self).wf(),
            final(self).capacity() == old(self).capacity(),
            targets is Some <==> !old(self).seen().contains(blob),
            final(self).seen() == observe_update(old(self).seen(), old(self).capacity(), blob),
            final(self).seen().contains(blob),
            targets matches Some(t) ==> (match snapshot {
                None => t@ == Seq::<u64>::empty(),
                Some(pools) => t@ == pools@.sort_by(pool_order()).map_values(
                    |p: PoolStakeInfo| p.pool_id,
                ),
            }),
    {
        let fresh = self.cache.observe(blob);
        if fresh {
            Some(stake_pools_sorted_by(snapshot))
        } else {
            None
        }
    }
}

} // verus!
