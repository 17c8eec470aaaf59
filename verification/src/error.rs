//! Failures surfaced while acquiring and installing block 0.
//!
//! Each variant identifies the stage that failed and, where a hash was
//! being looked up, the requested hash, so an operator can tell a missing
//! file from a corrupt store or an unreachable network.

use vstd::prelude::*;

verus! {

/// A terminal failure of node startup.
#[derive(Clone, Copy, Debug, PartialEq, Eq, Structural)]
pub enum StartupError {
    /// The local source of the genesis bytes could not be read.
    IoError,
    /// Bytes from an authoritative local source were not a valid block;
    /// never retried against another source.
    DeserializeError,
    /// The requested hash was absent from the store and the network did
    /// not deliver it: a network miss and a network timeout both land here.
    NotFoundError { hash: u64 },
    /// A network-sourced block's recomputed identifier did not match the
    /// requested hash.
    IntegrityError { requested: u64, computed: u64 },
    /// The storage backend failed or holds an inconsistent chain.
    StorageBackendError,
}

impl StartupError {
    /// A short operator-readable description of the failed stage.
    pub fn describe(&self) -> (r: String)
    {
        match self {
            StartupError::IoError => String::from_str("cannot read the genesis source"),
            StartupError::DeserializeError => String::from_str("malformed genesis bytes"),
            StartupError::NotFoundError { .. } => String::from_str(
                "block 0 absent from storage and network",
            ),
            StartupError::IntegrityError { .. } => String::from_str(
                "network returned a block with the wrong hash",
            ),
            StartupError::StorageBackendError => String::from_str("storage backend failure"),
        }
    }
}

} // verus!
