use jormungandr_core::{
    cmp_pool_stake_information_by_stake_total, sort_pools_by_stake, stake_pools_sorted_by,
    BottleRack, DedupCache, PoolStakeInfo,
};
use std::cmp::Ordering;

fn pool(pool_id: u64, total_stake: u64) -> PoolStakeInfo {
    PoolStakeInfo { pool_id, total_stake }
}

#[test]
fn observe_same_id_twice_yields_true_then_false() {
    let mut cache = DedupCache::new(1024);
    assert_eq!(cache.observe(12345), true);
    assert_eq!(cache.observe(12345), false);
    assert_eq!(cache.len(), 1);
}

#[test]
fn observe_is_true_exactly_once_until_eviction() {
    let mut cache = DedupCache::new(1024);
    for id in 0..100u64 {
        assert!(cache.observe(id));
    }
    for id in 0..100u64 {
        assert!(!cache.observe(id));
    }
    assert_eq!(cache.len(), 100);
}

#[test]
fn full_cache_evicts_exactly_the_least_recently_touched() {
    let mut cache = DedupCache::new(3);
    assert!(cache.observe(1));
    assert!(cache.observe(2));
    assert!(cache.observe(3));
    assert_eq!(cache.len(), 3);
    // capacity + 1 distinct ids: exactly one eviction, size stays at capacity
    assert!(cache.observe(4));
    assert_eq!(cache.len(), 3);
    // the evicted id is the least recently touched one
    assert!(!cache.contains(1));
    assert!(cache.contains(2));
    assert!(cache.contains(3));
    assert!(cache.contains(4));
    // a reintroduced id counts as new again
    assert!(cache.observe(1));
}

#[test]
fn touching_an_id_refreshes_its_recency() {
    let mut cache = DedupCache::new(3);
    assert!(cache.observe(1));
    assert!(cache.observe(2));
    assert!(cache.observe(3));
    // touch 1: now 2 is the least recently touched
    assert!(!cache.observe(1));
    assert!(cache.observe(4));
    assert!(cache.contains(1));
    assert!(!cache.contains(2));
}

#[test]
fn ranking_descends_by_stake() {
    // stakes {A: 10, B: 50, C: 30} rank as [B, C, A]
    let pools = vec![pool(1, 10), pool(2, 50), pool(3, 30)];
    let ranked = stake_pools_sorted_by(Some(&pools));
    assert_eq!(ranked, vec![2, 3, 1]);
}

#[test]
fn ranking_of_no_snapshot_is_empty() {
    assert_eq!(stake_pools_sorted_by(None), Vec::<u64>::new());
    let empty: Vec<PoolStakeInfo> = Vec::new();
    assert_eq!(stake_pools_sorted_by(Some(&empty)), Vec::<u64>::new());
}

#[test]
fn equal_stakes_rank_by_pool_identifier() {
    let pools = vec![pool(9, 20), pool(4, 20), pool(7, 20), pool(1, 30)];
    let ranked = stake_pools_sorted_by(Some(&pools));
    assert_eq!(ranked, vec![1, 4, 7, 9]);
}

#[test]
fn sorted_pools_keep_every_entry() {
    let pools = vec![pool(5, 2), pool(6, 8), pool(7, 2), pool(8, 11)];
    let sorted = sort_pools_by_stake(&pools);
    assert_eq!(sorted.len(), 4);
    assert_eq!(sorted[0], pool(8, 11));
    assert_eq!(sorted[1], pool(6, 8));
    assert_eq!(sorted[2], pool(5, 2));
    assert_eq!(sorted[3], pool(7, 2));
}

#[test]
fn comparator_orders_ascending_by_total_stake() {
    assert_eq!(
        cmp_pool_stake_information_by_stake_total(&pool(1, 10), &pool(2, 50)),
        Ordering::Less
    );
    assert_eq!(
        cmp_pool_stake_information_by_stake_total(&pool(1, 50), &pool(2, 10)),
        Ordering::Greater
    );
    assert_eq!(
        cmp_pool_stake_information_by_stake_total(&pool(1, 30), &pool(2, 30)),
        Ordering::Equal
    );
}

#[test]
fn router_forwards_a_new_blob_to_ranked_targets() {
    let mut rack = BottleRack::new();
    let pools = vec![pool(1, 10), pool(2, 50), pool(3, 30)];
    let targets = rack.handle_blob(42, Some(&pools));
    assert_eq!(targets, Some(vec![2, 3, 1]));
}

#[test]
fn router_drops_a_duplicate_blob_silently() {
    let mut rack = BottleRack::new();
    let pools = vec![pool(1, 10)];
    assert!(rack.handle_blob(42, Some(&pools)).is_some());
    assert_eq!(rack.handle_blob(42, Some(&pools)), None);
}

#[test]
fn router_with_no_snapshot_selects_no_targets() {
    let mut rack = BottleRack::new();
    let targets = rack.handle_blob(7, None);
    assert_eq!(targets, Some(Vec::new()));
}
