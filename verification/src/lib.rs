//! The trust-root acquisition and gossip-dissemination core of a
//! blockchain node: resolving and authenticating block 0 from sources of
//! unequal trust before any chain state exists, bootstrapping the chain
//! from it, and deduplicating and fanning out gossiped blobs across a
//! peer-to-peer overlay using stake-weighted peer ranking.

mod block;
mod bootstrap;
mod dedup;
mod error;
mod genesis;
mod hash;
mod node_checks;
mod poll;
mod ranking;
mod router;
mod store;

pub use block::{blocks_hashes_to_tip, deserialize, lemma_block_roundtrip, spec_deserialize,
    Block, BlockView};
pub use bootstrap::{lemma_bootstrap_resume_idempotent, load_blockchain, spec_bootstrap,
    handle_wf, BootstrapModel, BootstrapPath, ChainHandle};
pub use dedup::{lemma_capacity_plus_one_evicts_once, lemma_fill_no_eviction,
    lemma_full_cache_eviction, lemma_observe_twice, observe_all, observe_update, DedupCache};
pub use error::StartupError;
pub use genesis::{accept_network_block_0, prepare_block_0, read_block_0_file, Block0Outcome,
    GenesisSpec};
pub use hash::{content_hash, hash_of, parse_hex_hash, spec_parse_hex_hash};
pub use node_checks::{assert_no_errors_in_logs, assert_nodes_are_in_sync,
    check_funds_transferred_to, check_transaction_was_processed, contains_subseq,
    find_subsequence, send_transaction_and_ensure_block_was_produced, NodeStuckError};
pub use poll::{is_up, wait_for_bootstrap_step, wait_for_shutdown_step, wait_fragment_step,
    FragmentStatus, WaitDecision};
pub use ranking::{cmp_pool_stake_information_by_stake_total, lemma_pool_order_total, pool_order,
    ranks_no_later, sort_pools_by_stake, stake_pools_sorted_by, PoolStakeInfo};
pub use router::BottleRack;
pub use store::{chain_reaches, BlockStore};
