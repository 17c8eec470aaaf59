//! Resolution of block 0 from one of several sources of unequal trust.
//!
//! The genesis block may arrive as inline bytes from an authoritative local
//! source, or as a bare hash that must be looked up. Resolution follows a
//! fixed priority: inline bytes are deserialized directly and never fall
//! back to another source; a hash is first looked up in the store, which is
//! trusted because every prior write was verified; only when the store
//! misses is a network fetch requested, and a network-sourced block is
//! accepted only after its recomputed identifier matches the requested
//! hash.

use vstd::prelude::*;

use crate::block::{deserialize, spec_deserialize, Block};
use crate::error::StartupError;
use crate::store::BlockStore;

verus! {

/// Where the genesis block comes from, fixed once at startup.
#[derive(Debug)]
pub enum GenesisSpec {
    /// Serialized block bytes from a trusted local source.
    Inline(Vec<u8>),
    /// A hash naming the wanted block; the block itself must be found.
    ByHash(u64),
}

/// What a resolution pass decided: either the block is in hand, or the
/// caller must fetch the named hash from the network and hand the outcome
/// to `accept_network_block_0`.
#[derive(Debug)]
pub enum Block0Outcome {
    /// The block was obtained without any network traffic.
    Resolved(Block),
    /// The store misses the hash: fetch it from peers.
    FetchFromNetwork(u64),
}

/// Resolves block 0 as far as local sources reach. Inline bytes are
/// deserialized directly, and a failure there is terminal: inline bytes are
/// authoritative, so no fallback follows. A hash held by the store resolves
/// to the stored block with no network involvement; only a hash the store
/// misses asks the caller for a network fetch.
pub fn prepare_block_0(genesis: &GenesisSpec, store: &BlockStore) -> (r: Result<
    Block0Outcome,
    StartupError,
>)
    requires
        store.inv(),
    ensures
        genesis matches GenesisSpec::Inline(bytes) ==> (match spec_deserialize(bytes@) {
            Some(v) => r matches Ok(Block0Outcome::Resolved(b)) && b@ == v,
            None => r matches Err(e) && e == StartupError::DeserializeError,
        }),
        genesis matches GenesisSpec::ByHash(h) ==> (if store.blocks().contains_key(*h) {
            r matches Ok(Block0Outcome::Resolved(b)) && b@ == store.blocks()[*h]
        } else {
            r matches Ok(Block0Outcome::FetchFromNetwork(fh)) && fh == h
        }),
        r matches Ok(Block0Outcome::Resolved(b)) ==> b@.wf(),
{
    match genesis {
        GenesisSpec::Inline(bytes) => {
            match deserialize(bytes) {
                Some(b) => Ok(Block0Outcome::Resolved(b)),
                None => Err(StartupError::DeserializeError),
            }
        },
        GenesisSpec::ByHash(h) => {
            match store.get_block(*h) {
                Some(b) => Ok(Block0Outcome::Resolved(b.duplicate())),
                None => Ok(Block0Outcome::FetchFromNetwork(*h)),
            }
        },
    }
}

/// Judges the outcome of the network fetch that `prepare_block_0` asked
/// for. No block means the hash is absent everywhere reachable: a network
/// miss and a timeout are indistinguishable here by design. A delivered
/// block is accepted only when its recomputed identifier equals the
/// requested hash, so an integrity violation from the network never
/// silently produces an accepted block.
pub fn accept_network_block_0(requested: u64, fetched: Option<Block>) -> (r: Result<
    Block,
    StartupError,
>)
    requires
        fetched matches Some(b) ==> b@.wf(),
    ensures
        fetched is None ==> (r matches Err(e) && e == (StartupError::NotFoundError {
            hash: requested,
        })),
        fetched matches Some(b) ==> (if b@.id() == requested {
            r matches Ok(rb) && rb@ == b@
        } else {
            r matches Err(e) && e == (StartupError::IntegrityError {
                requested,
                computed: b@.id(),
            })
        }),
        r matches Ok(rb) ==> (rb@.id() == requested && rb@.wf()),
{
    match fetched {
        None => Err(StartupError::NotFoundError { hash: requested }),
        Some(b) => {
            let computed = b.content_id();
            if computed == requested {
                Ok(b)
            } else {
                Err(StartupError::IntegrityError { requested, computed })
            }
        },
    }
}

/// Turns the outcome of reading the genesis file into inline genesis bytes:
/// a failed read is an I/O failure, and is reported as such rather than
/// falling back to any other source.
pub fn read_block_0_file(contents: Option<Vec<u8>>) -> (r: Result<GenesisSpec, StartupError>)
    ensures
        contents is None ==> (r matches Err(e) && e == StartupError::IoError),
        contents matches Some(bytes) ==> (r matches Ok(GenesisSpec::Inline(gb)) && gb@ == bytes@),
{
    match contents {
        None => Err(StartupError::IoError),
        Some(bytes) => Ok(GenesisSpec::Inline(bytes)),
    }
}

} // verus!
