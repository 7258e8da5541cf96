//! The parts of state processing that the construction of a genesis state
//! calls on and does not itself define.

use crate::errors::{BlockProcessingError, Error};
use crate::types::{BeaconState, ChainSpec, Deposit, Epoch, ForkName, Hash256, Validator};
use vstd::prelude::*;

verus! {

/// The state transitions around the genesis state. Nothing is assumed of an
/// implementation: what is proved of the genesis state holds whatever these
/// methods do, and speaks of what they returned.
pub trait StateProcessing {
    /// Takes a deposit into the state: registers a validator or tops one up.
    /// With `skip_proof` set the proof of the deposit is not checked.
    fn process_deposit(
        &self,
        state: BeaconState,
        deposit: &Deposit,
        spec: &ChainSpec,
        skip_proof: bool,
    ) -> Result<BeaconState, BlockProcessingError>;

    /// Brings a state of the base shape into the shape of the Altair fork.
    fn upgrade_to_altair(&self, state: BeaconState, spec: &ChainSpec) -> Result<BeaconState, Error>;

    /// Brings a state of the Altair shape into the shape of the Bellatrix fork.
    fn upgrade_to_bellatrix(&self, state: BeaconState, spec: &ChainSpec) -> Result<BeaconState, Error>;

    /// Brings a state of the Bellatrix shape into the shape of the Capella fork.
    fn upgrade_to_capella(&self, state: BeaconState, spec: &ChainSpec) -> Result<BeaconState, Error>;

    /// Brings a state of the Capella shape into the shape of the Deneb fork.
    fn upgrade_to_deneb(&self, state: BeaconState, spec: &ChainSpec) -> Result<BeaconState, Error>;

    /// Rebuilds what the state derives from its validators.
    fn build_caches(&self, state: BeaconState, spec: &ChainSpec) -> Result<BeaconState, Error>;

    /// The commitment to a list of validators.
    fn validators_tree_hash_root(&self, validators: &Vec<Validator>) -> Result<Hash256, Error>;

    /// The indices of the validators that are active in the given epoch.
    fn get_active_validator_indices(
        &self,
        state: &BeaconState,
        epoch: Epoch,
        spec: &ChainSpec,
    ) -> Result<Vec<usize>, Error>;
}

/// `upgraded` is what the upgrade to the given fork returned for the state.
pub open spec fn upgrade_returned<P: StateProcessing>(
    processing: &P,
    fork: ForkName,
    state: BeaconState,
    spec: &ChainSpec,
    upgraded: Result<BeaconState, Error>,
) -> bool {
    match fork {
        ForkName::Base => false,
        ForkName::Altair => call_ensures(P::upgrade_to_altair, (processing, state, spec), upgraded),
        ForkName::Merge => call_ensures(P::upgrade_to_bellatrix, (processing, state, spec), upgraded),
        ForkName::Capella => call_ensures(P::upgrade_to_capella, (processing, state, spec), upgraded),
        ForkName::Deneb => call_ensures(P::upgrade_to_deneb, (processing, state, spec), upgraded),
    }
}

} // verus!
