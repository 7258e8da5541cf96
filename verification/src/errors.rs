//! The failures that the construction of a genesis state can end in.

use crate::arith::ArithError;
use vstd::prelude::*;

verus! {

/// A failure of the deposit tree.
#[derive(Debug, Clone, Copy, PartialEq, Eq, Structural)]
pub enum MerkleTreeError {
    /// Every leaf of the tree is taken.
    MerkleTreeFull,
    /// The count that is mixed into the root cannot grow further.
    ArithError(ArithError),
}

/// A failure in reading or changing a state.
#[derive(Debug, Clone, Copy, PartialEq, Eq, Structural)]
pub enum Error {
    /// There is no balance at this index of the registry.
    BalancesOutOfBounds(usize),
    /// There is no validator at this index of the registry.
    UnknownValidator(usize),
    /// The epoch lies outside what the state can answer for.
    EpochOutOfBounds,
    /// A field was asked of a state whose fork does not have it.
    IncorrectStateVariant,
    /// The commitment to a part of the state could not be computed.
    TreeHashError,
    /// A derived cache could not be built.
    CacheError,
    ArithError(ArithError),
}

/// A failure in processing the inputs of the genesis state.
#[derive(Debug, Clone, Copy, PartialEq, Eq, Structural)]
pub enum BlockProcessingError {
    /// The deposit at this index is malformed or inconsistent.
    DepositInvalid { index: usize },
    BeaconStateError(Error),
    MerkleTreeError(MerkleTreeError),
    ArithError(ArithError),
}

} // verus!
