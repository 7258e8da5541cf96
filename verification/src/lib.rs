//! Construction and validation of the genesis state of a proof-of-stake
//! beacon chain.
//!
//! The genesis state is built from a block of the external chain and the
//! deposits made up to it: the deposits are committed to in a Merkle tree and
//! taken into the state one by one, the validators with a full balance are
//! activated, the forks that are active from genesis on are applied in their
//! order, and the state is sealed with the commitment to its validators.
//! Whether such a state may start the chain is a test of its genesis time and
//! of the number of its active validators.
//!
//! - [`arith`]: checked arithmetic.
//! - [`types`], [`errors`]: the data model and the failures.
//! - [`hashing`], [`deposit_tree`]: Merkle hashing and the tree of the deposits.
//! - [`processing`]: the state processing that the construction calls on.
//! - [`forks`]: the forks at genesis.
//! - [`genesis`]: the construction and the test of validity.
//! - [`outcome`], [`determinism`]: what holds of the constructed state.

pub mod arith;
pub mod deposit_tree;
pub mod determinism;
pub mod errors;
pub mod forks;
pub mod genesis;
pub mod hashing;
pub mod outcome;
pub mod processing;
pub mod types;
