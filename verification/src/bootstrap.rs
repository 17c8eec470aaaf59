//! Chain bootstrap: turning a verified block 0 and a store into an
//! initialized chain handle.
//!
//! Bootstrap is a state machine with two states and one transition. The
//! `Fresh` path initializes the chain as if block 0 were new; when the
//! store reports that block 0 is already present, that conflict is not an
//! error but the transition to the `Resume` path, which loads the chain
//! already rooted at block 0's hash. Exactly one of the two paths succeeds,
//! so a node never ends up with two divergent chain roots for the same
//! block 0.

use vstd::prelude::*;

use crate::block::{Block, BlockView};
use crate::error::StartupError;
use crate::store::{chain_reaches, BlockStore};

verus! {

/// Which of the two bootstrap paths ran.
#[derive(Clone, Copy, Debug, PartialEq, Eq, Structural)]
pub enum BootstrapPath {
    /// Block 0 was new: the chain was initialized from scratch.
    Fresh,
    /// Block 0 was already stored: the existing chain was resumed.
    Resume,
}

/// The initialized chain: its root (block 0's identifier) and its current
/// tip. The tip always names a stored block reachable from the root.
#[derive(Clone, Copy, Debug, PartialEq, Eq, Structural)]
pub struct ChainHandle {
    pub root: u64,
    pub tip: u64,
}

/// The handle invariant over a store's contents: root and tip are stored,
/// and the tip's parent chain reaches the root.
pub open spec fn handle_wf(h: ChainHandle, m: Map<u64, BlockView>) -> bool {
    &&& m.contains_key(h.root)
    &&& m.contains_key(h.tip)
    &&& chain_reaches(m, h.tip, h.root)
}

/// The transient signal that moves bootstrap from its first state to its
/// second; it never escapes this module.
enum FreshInitError {
    /// The store already holds block 0: resume instead of initializing.
    AlreadyInitializedConflict,
}

/// What one bootstrap run does, as a function of the store's prior
/// contents, its prior tip tag, and block 0.
#[verifier::ext_equal]
pub struct BootstrapModel {
    /// The store contents after the run.
    pub blocks: Map<u64, BlockView>,
    /// The tip tag after the run.
    pub tip_tag: Option<u64>,
    /// The handle produced, or `None` when the run fails.
    pub result: Option<ChainHandle>,
    /// Whether the run took the `Fresh` path.
    pub fresh: bool,
}

/// The mathematical description of one bootstrap run. A store without
/// block 0 takes the fresh path: block 0 is written once and becomes both
/// root and tip. A store that already holds block 0 is left untouched and
/// resumed: its recorded tip becomes the handle's tip, provided the tip's
/// parent chain reaches block 0; a store with no recorded tip, or a tip
/// not rooted at block 0, is inconsistent and the run fails.
pub open spec fn spec_bootstrap(
    m: Map<u64, BlockView>,
    tip: Option<u64>,
    b0: BlockView,
) -> BootstrapModel {
    let id0 = b0.id();
    if !m.contains_key(id0) {
        BootstrapModel {
            blocks: m.insert(id0, b0),
            tip_tag: Some(id0),
            result: Some(ChainHandle { root: id0, tip: id0 }),
            fresh: true,
        }
    } else {
        match tip {
            None => BootstrapModel { blocks: m, tip_tag: tip, result: None, fresh: false },
            Some(t) => {
                if chain_reaches(m, t, id0) {
                    BootstrapModel {
                        blocks: m,
                        tip_tag: tip,
                        result: Some(ChainHandle { root: id0, tip: t }),
                        fresh: false,
                    }
                } else {
                    BootstrapModel { blocks: m, tip_tag: tip, result: None, fresh: false }
                }
            },
        }
    }
}

/// The fresh path: initialize the chain as if block 0 were new. A store
/// that already holds block 0 is left untouched and the conflict is
/// reported to the caller, which treats it as the transition to the resume
/// path.
fn init_fresh(block0: Block, store: &mut BlockStore) -> (r: Result<ChainHandle, FreshInitError>)
    requires
        old(store).inv(),
        block0@.wf(),
    ensures
        final(store).inv(),
        old(store).blocks().contains_key(block0@.id()) ==> {
            &&& r is Err
            &&& final(store).blocks() == old(store).blocks()
            &&& final(store).tip_tag() == old(store).tip_tag()
        },
        !old(store).blocks().contains_key(block0@.id()) ==> {
            &&& final(store).blocks() == old(store).blocks().insert(block0@.id(), block0@)
            &&& final(store).tip_tag() == Some(block0@.id())
            &&& r matches Ok(h) && h == (ChainHandle { root: block0@.id(), tip: block0@.id() })
        },
{
    let id = block0.content_id();
    if store.block_exists(id) {
        Err(FreshInitError::AlreadyInitializedConflict)
    } else {
        store.put_block(block0);
        store.set_tip(id);
        Ok(ChainHandle { root: id, tip: id })
    }
}

/// Bootstraps the chain from a verified block 0: the fresh path when the
/// store does not hold block 0 yet, the resume path when it does. The run
/// behaves exactly as `spec_bootstrap` describes; in particular a resumed
/// store is not written at all, so bootstrapping twice never writes block 0
/// twice. Any produced handle satisfies `handle_wf` against the store.
pub fn load_blockchain(block0: Block, store: &mut BlockStore) -> (r: Result<
    (ChainHandle, BootstrapPath),
    StartupError,
>)
    requires
        old(store).inv(),
        block0@.wf(),
    ensures
        final(store).inv(),
        ({
            let model = spec_bootstrap(old(store).blocks(), old(store).tip_tag(), block0@);
            &&& final(store).blocks() == model.blocks
            &&& final(store).tip_tag() == model.tip_tag
            &&& match model.result {
                Some(h) => r matches Ok((rh, p)) && rh == h && (p == BootstrapPath::Fresh
                    <==> model.fresh),
                None => r matches Err(e) && e == StartupError::StorageBackendError,
            }
        }),
        r matches Ok((h, p)) ==> handle_wf(h, final(store).blocks()) && h.root == block0@.id(),
{
    let ghost id0 = block0@.id();
    let root = block0.content_id();
    match init_fresh(block0, store) {
        Ok(h) => Ok((h, BootstrapPath::Fresh)),
        Err(_) => {
            match store.get_tip() {
                None => Err(StartupError::StorageBackendError),
                Some(t) => {
                    if store.reaches_root(t, root) {
                        proof {
                            store.lemma_inv();
                        }
                        Ok((ChainHandle { root, tip: t }, BootstrapPath::Resume))
                    } else {
                        Err(StartupError::StorageBackendError)
                    }
                },
            }
        },
    }
}

/// Bootstrapping twice with the same block 0 against the same store yields
/// a handle with the same root and the same tip both times, takes the
/// resume path the second time, and does not write block 0 (or anything
/// else) again.
pub proof fn lemma_bootstrap_resume_idempotent(
    m: Map<u64, BlockView>,
    tip: Option<u64>,
    b0: BlockView,
)
    requires
        spec_bootstrap(m, tip, b0).result is Some,
    ensures
        ({
            let first = spec_bootstrap(m, tip, b0);
            let second = spec_bootstrap(first.blocks, first.tip_tag, b0);
            &&& second.result matches Some(h2) && first.result matches Some(h1) && h2 == h1
            &&& second.blocks == first.blocks
            &&& second.tip_tag == first.tip_tag
            &&& !second.fresh
        }),
{
    let id0 = b0.id();
    let first = spec_bootstrap(m, tip, b0);
    if !m.contains_key(id0) {
        assert(first.blocks.contains_key(id0));
        assert(chain_reaches(first.blocks, id0, id0));
    }
}

} // verus!
