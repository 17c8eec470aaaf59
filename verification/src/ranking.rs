//! Stake-weighted peer ranking: which stake pools should receive a
//! rebroadcast first.
//!
//! A ranking orders the stake snapshot so that the highest total stake
//! comes first. The underlying comparator orders ascending by total stake,
//! as a comparator does, and the ranking is its descending reading; ties
//! are broken by the smaller pool identifier first, so equal-stake pools
//! rank in a deterministic order rather than by incidental sort stability.
//! A missing snapshot ranks to the empty sequence: broadcast-target
//! selection then degrades to no stake-weighted targets.

use vstd::prelude::*;
use vstd::relations::{sorted_by, total_ordering};
use vstd::seq_lib::lemma_multiset_commutative;
use vstd::seq_lib::lemma_sorted_unique;

verus! {

/// One stake pool's point-in-time aggregate: its identifier and its total
/// stake. Supplied read-only by the chain state; never mutated here.
#[derive(Clone, Copy, Debug, PartialEq, Eq, Structural)]
pub struct PoolStakeInfo {
    pub pool_id: u64,
    pub total_stake: u64,
}

/// `a` ranks no later than `b`: strictly more stake first, and among equal
/// stakes the smaller pool identifier first.
pub open spec fn ranks_no_later(a: PoolStakeInfo, b: PoolStakeInfo) -> bool {
    a.total_stake > b.total_stake || (a.total_stake == b.total_stake && a.pool_id <= b.pool_id)
}

/// The ranking order as a relation, for use with sequence sorting.
pub open spec fn pool_order() -> spec_fn(PoolStakeInfo, PoolStakeInfo) -> bool {
    |a: PoolStakeInfo, b: PoolStakeInfo| ranks_no_later(a, b)
}

/// The ranking order is total: every two pools are comparable, and two
/// pools that rank no later than each other are the same pool entry.
pub proof fn lemma_pool_order_total()
    ensures
        total_ordering(pool_order()),
{
    let r = pool_order();
    assert forall|a: PoolStakeInfo, b: PoolStakeInfo| #[trigger] r(a, b) && #[trigger] r(
        b,
        a,
    ) implies a == b by {}
    assert forall|a: PoolStakeInfo, b: PoolStakeInfo| #[trigger] r(a, b) || #[trigger] r(
        b,
        a,
    ) by {}
}

/// Computes the ranking comparator on two pools: ascending by total stake.
pub fn cmp_pool_stake_information_by_stake_total(
    pool_a: &PoolStakeInfo,
    pool_b: &PoolStakeInfo,
) -> (r: core::cmp::Ordering)
    ensures
        r == (if pool_a.total_stake < pool_b.total_stake {
            core::cmp::Ordering::Less
        } else if pool_a.total_stake > pool_b.total_stake {
            core::cmp::Ordering::Greater
        } else {
            core::cmp::Ordering::Equal
        }),
{
    if pool_a.total_stake < pool_b.total_stake {
        core::cmp::Ordering::Less
    } else if pool_a.total_stake > pool_b.total_stake {
        core::cmp::Ordering::Greater
    } else {
        core::cmp::Ordering::Equal
    }
}

/// Computes the ranking order on two pools.
fn ranks_no_later_exec(a: &PoolStakeInfo, b: &PoolStakeInfo) -> (r: bool)
    ensures
        r == ranks_no_later(*a, *b),
{
    a.total_stake > b.total_stake || (a.total_stake == b.total_stake && a.pool_id <= b.pool_id)
}

/// Inserting an element at its place in a sorted sequence keeps it sorted.
proof fn lemma_sorted_insert(s: Seq<PoolStakeInfo>, x: PoolStakeInfo, j: int)
    requires
        sorted_by(s, pool_order()),
        0 <= j <= s.len(),
        forall|k: int| 0 <= k < j ==> ranks_no_later(#[trigger] s[k], x),
        j < s.len() ==> ranks_no_later(x, s[j]),
    ensures
        sorted_by(s.insert(j, x), pool_order()),
        s.insert(j, x).to_multiset() == s.to_multiset().insert(x),
{
    broadcast use vstd::seq_lib::group_to_multiset_ensures;
    broadcast use vstd::multiset::group_multiset_axioms;

    s.insert_ensures(j, x);
    let t = s.insert(j, x);
    assert forall|p: int, q: int| 0 <= p < q < t.len() implies #[trigger] pool_order()(
        t[p],
        t[q],
    ) by {
        if q < j {
            assert(t[p] == s[p] && t[q] == s[q]);
        } else if q == j {
            assert(t[p] == s[p] && t[q] == x);
        } else if p < j {
            assert(t[p] == s[p] && t[q] == s[q - 1]);
            assert(pool_order()(s[p], s[q - 1]));
        } else if p == j {
            assert(t[p] == x && t[q] == s[q - 1]);
            assert(q - 1 >= j);
            if q - 1 > j {
                assert(pool_order()(s[j], s[q - 1]));
            }
        } else {
            assert(t[p] == s[p - 1] && t[q] == s[q - 1]);
        }
    }
    let a = s.subrange(0, j);
    let b = s.subrange(j, s.len() as int);
    assert(t =~= a.push(x) + b);
    assert(s =~= a + b);
    lemma_multiset_commutative(a.push(x), b);
    lemma_multiset_commutative(a, b);
    assert(t.to_multiset() =~= s.to_multiset().insert(x));
}

/// Sorts a stake snapshot by the ranking order: highest total stake first,
/// ties broken by the smaller pool identifier. The result is exactly the
/// mathematical sort of the snapshot.
pub fn sort_pools_by_stake(pools: &Vec<PoolStakeInfo>) -> (r: Vec<PoolStakeInfo>)
    ensures
        r@ == pools@.sort_by(pool_order()),
        sorted_by(r@, pool_order()),
        r@.to_multiset() == pools@.to_multiset(),
        r@.len() == pools@.len(),
{
    broadcast use vstd::seq_lib::group_to_multiset_ensures;

    let mut out: Vec<PoolStakeInfo> = Vec::new();
    let mut i: usize = 0;
    while i < pools.len()
        invariant
            i <= pools@.len(),
            sorted_by(out@, pool_order()),
            out@.to_multiset() == pools@.take(i as int).to_multiset(),
            out@.len() == i,
        decreases pools@.len() - i,
    {
        let x = pools[i];
        let mut j: usize = 0;
        while j < out.len() && ranks_no_later_exec(&out[j], &x)
            invariant
                j <= out@.len(),
                forall|k: int| 0 <= k < j ==> ranks_no_later(#[trigger] out@[k], x),
            decreases out@.len() - j,
        {
            j = j + 1;
        }
        proof {
            broadcast use vstd::seq_lib::group_to_multiset_ensures;

            let ghost s = out@;
            if (j as int) < s.len() {
                assert(!ranks_no_later(s[j as int], x));
                assert(ranks_no_later(x, s[j as int]));
            }
            lemma_sorted_insert(s, x, j as int);
            assert(pools@.take(i + 1) =~= pools@.take(i as int).push(pools@[i as int]));
        }
        out.insert(j, x);
        i = i + 1;
    }
    proof {
        assert(pools@.take(pools@.len() as int) =~= pools@);
        lemma_pool_order_total();
        pools@.lemma_sort_by_ensures(pool_order());
        lemma_sorted_unique(out@, pools@.sort_by(pool_order()), pool_order());
        assert(out@ =~= pools@.sort_by(pool_order()));
    }
    out
}

/// Ranks the stake snapshot for a rebroadcast: the pool identifiers in
/// descending order of total stake, ties broken by the smaller identifier
/// first. A missing snapshot (an epoch with no known stake distribution)
/// ranks to the empty sequence.
pub fn stake_pools_sorted_by(snapshot: Option<&Vec<PoolStakeInfo>>) -> (r: Vec<u64>)
    ensures
        snapshot is None ==> r@ == Seq::<u64>::empty(),
        snapshot matches Some(pools) ==> r@ == pools@.sort_by(pool_order()).map_values(
            |p: PoolStakeInfo| p.pool_id,
        ),
{
    match snapshot {
        None => Vec::new(),
        Some(pools) => {
            let sorted = sort_pools_by_stake(pools);
            let ghost target = pools@.sort_by(pool_order()).map_values(
                |p: PoolStakeInfo| p.pool_id,
            );
            let mut ids: Vec<u64> = Vec::new();
            let mut i: usize = 0;
            while i < sorted.len()
                invariant
                    i <= sorted@.len(),
                    sorted@ == pools@.sort_by(pool_order()),
                    ids@ == sorted@.take(i as int).map_values(|p: PoolStakeInfo| p.pool_id),
                decreases sorted@.len() - i,
            {
                ids.push(sorted[i].pool_id);
                proof {
                    assert(sorted@.take(i + 1) =~= sorted@.take(i as int).push(
                        sorted@[i as int],
                    ));
                    assert(sorted@.take(i + 1).map_values(|p: PoolStakeInfo| p.pool_id)
                        =~= sorted@.take(i as int).map_values(|p: PoolStakeInfo| p.pool_id).push(
                        sorted@[i as int].pool_id,
                    ));
                }
                i = i + 1;
            }
            proof {
                assert(sorted@.take(sorted@.len() as int) =~= sorted@);
            }
            ids
        },
    }
}

} // verus!
