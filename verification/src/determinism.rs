//! The construction of the genesis state is deterministic: where the state
//! processing that it calls on gives the same for the same, so does the
//! construction.

use crate::arith::checked_add;
use crate::errors::{BlockProcessingError, Error};
use crate::forks::{active_at_genesis, fork_applied, forks_applied, lemma_fork_steps, lemma_fork_upgrade};
use crate::genesis::{
    deposit_root_after, deposits_taken, genesis_state_built, lemma_deposits_taken_before, lemma_seal_steps,
    sealed, with_deposit_root,
};
use crate::outcome::lemma_steps;
use crate::processing::{upgrade_returned, StateProcessing};
use crate::types::{
    BeaconState, ChainSpec, Deposit, Epoch, EthSpec, ExecutionPayloadHeader, ForkName, Hash256, Validator,
};
use vstd::prelude::*;

verus! {

/// Two outcomes are the same: the same failure, or states that hold the same.
pub open spec fn same_outcome<E>(a: Result<BeaconState, E>, b: Result<BeaconState, E>) -> bool {
    match (a, b) {
        (Ok(x), Ok(y)) => x@ == y@,
        (Err(e), Err(f)) => e == f,
        _ => false,
    }
}

/// The state processing gives the same for the same: whenever it is called
/// twice on states that hold the same, and else on the same, what it returns
/// is the same.
pub open spec fn deterministic<P: StateProcessing>(processing: &P, spec: &ChainSpec) -> bool {
    &&& forall|
        a: BeaconState,
        b: BeaconState,
        deposit: &Deposit,
        skip_proof: bool,
        ra: Result<BeaconState, BlockProcessingError>,
        rb: Result<BeaconState, BlockProcessingError>,
    |
        #![trigger
            call_ensures(P::process_deposit, (processing, a, deposit, spec, skip_proof), ra),
            call_ensures(P::process_deposit, (processing, b, deposit, spec, skip_proof), rb),
        ]
        a@ == b@ && call_ensures(P::process_deposit, (processing, a, deposit, spec, skip_proof), ra)
            && call_ensures(P::process_deposit, (processing, b, deposit, spec, skip_proof), rb)
            ==> same_outcome(ra, rb)
    &&& forall|
        fork: ForkName,
        a: BeaconState,
        b: BeaconState,
        ra: Result<BeaconState, Error>,
        rb: Result<BeaconState, Error>,
    |
        #![trigger
            upgrade_returned(processing, fork, a, spec, ra),
            upgrade_returned(processing, fork, b, spec, rb),
        ]
        a@ == b@ && upgrade_returned(processing, fork, a, spec, ra) && upgrade_returned(
            processing,
            fork,
            b,
            spec,
            rb,
        ) ==> same_outcome(ra, rb)
    &&& forall|a: BeaconState, b: BeaconState, ra: Result<BeaconState, Error>, rb: Result<BeaconState, Error>|
        #![trigger
            call_ensures(P::build_caches, (processing, a, spec), ra),
            call_ensures(P::build_caches, (processing, b, spec), rb),
        ]
        a@ == b@ && call_ensures(P::build_caches, (processing, a, spec), ra) && call_ensures(
            P::build_caches,
            (processing, b, spec),
            rb,
        ) ==> same_outcome(ra, rb)
    &&& forall|a: &Vec<Validator>, b: &Vec<Validator>, ra: Result<Hash256, Error>, rb: Result<Hash256, Error>|
        #![trigger
            call_ensures(P::validators_tree_hash_root, (processing, a), ra),
            call_ensures(P::validators_tree_hash_root, (processing, b), rb),
        ]
        a@ == b@ && call_ensures(P::validators_tree_hash_root, (processing, a), ra) && call_ensures(
            P::validators_tree_hash_root,
            (processing, b),
            rb,
        ) ==> ra == rb
}

/// Taking the same deposits into states that hold the same leaves the same.
pub proof fn lemma_deposits_deterministic<P: StateProcessing>(
    processing: &P,
    spec: &ChainSpec,
    deposits: Seq<Deposit>,
    count: nat,
    start_a: BeaconState,
    start_b: BeaconState,
    after_a: Result<BeaconState, BlockProcessingError>,
    after_b: Result<BeaconState, BlockProcessingError>,
)
    requires
        deterministic(processing, spec),
        start_a@ == start_b@,
        deposits_taken(processing, spec, deposits, count, start_a, after_a),
        deposits_taken(processing, spec, deposits, count, start_b, after_b),
    ensures
        same_outcome(after_a, after_b),
    decreases count,
{
    if count > 0 {
        let index = (count - 1) as nat;
        let before_a = lemma_deposits_taken_before(processing, spec, deposits, count, start_a, after_a);
        let before_b = lemma_deposits_taken_before(processing, spec, deposits, count, start_b, after_b);
        lemma_deposits_deterministic(processing, spec, deposits, index, start_a, start_b, before_a, before_b);
        if let (Ok(a), Ok(b)) = (before_a, before_b) {
            let root = deposit_root_after(deposits, index + 1);
            assert(with_deposit_root(a, root)@ == with_deposit_root(b, root)@);
        }
    }
}

/// One fork applied to outcomes that are the same leaves the same.
pub proof fn lemma_fork_deterministic<P: StateProcessing>(
    processing: &P,
    fork: ForkName,
    genesis_epoch: Epoch,
    header: Option<ExecutionPayloadHeader>,
    spec: &ChainSpec,
    before_a: Result<BeaconState, BlockProcessingError>,
    before_b: Result<BeaconState, BlockProcessingError>,
    after_a: Result<BeaconState, BlockProcessingError>,
    after_b: Result<BeaconState, BlockProcessingError>,
)
    requires
        deterministic(processing, spec),
        same_outcome(before_a, before_b),
        fork_applied(processing, fork, genesis_epoch, header, spec, before_a, after_a),
        fork_applied(processing, fork, genesis_epoch, header, spec, before_b, after_b),
    ensures
        same_outcome(after_a, after_b),
{
    if let (Ok(a), Ok(b)) = (before_a, before_b) {
        if active_at_genesis(*spec, fork, genesis_epoch) {
            let upgraded_a = lemma_fork_upgrade(processing, fork, genesis_epoch, header, spec, a, after_a);
            let upgraded_b = lemma_fork_upgrade(processing, fork, genesis_epoch, header, spec, b, after_b);
            assert(same_outcome(upgraded_a, upgraded_b));
        }
    }
}

/// The forks applied to outcomes that are the same leave the same.
pub proof fn lemma_forks_deterministic<P: StateProcessing>(
    processing: &P,
    genesis_epoch: Epoch,
    header: Option<ExecutionPayloadHeader>,
    spec: &ChainSpec,
    before_a: Result<BeaconState, BlockProcessingError>,
    before_b: Result<BeaconState, BlockProcessingError>,
    after_a: Result<BeaconState, BlockProcessingError>,
    after_b: Result<BeaconState, BlockProcessingError>,
)
    requires
        deterministic(processing, spec),
        same_outcome(before_a, before_b),
        forks_applied(processing, genesis_epoch, header, spec, before_a, after_a),
        forks_applied(processing, genesis_epoch, header, spec, before_b, after_b),
    ensures
        same_outcome(after_a, after_b),
{
    let a = lemma_fork_steps(processing, genesis_epoch, header, spec, before_a, after_a);
    let b = lemma_fork_steps(processing, genesis_epoch, header, spec, before_b, after_b);
    lemma_fork_deterministic(
        processing,
        ForkName::Altair,
        genesis_epoch,
        header,
        spec,
        before_a,
        before_b,
        a.altair,
        b.altair,
    );
    lemma_fork_deterministic(
        processing,
        ForkName::Merge,
        genesis_epoch,
        header,
        spec,
        a.altair,
        b.altair,
        a.bellatrix,
        b.bellatrix,
    );
    lemma_fork_deterministic(
        processing,
        ForkName::Capella,
        genesis_epoch,
        header,
        spec,
        a.bellatrix,
        b.bellatrix,
        a.capella,
        b.capella,
    );
    lemma_fork_deterministic(
        processing,
        ForkName::Deneb,
        genesis_epoch,
        header,
        spec,
        a.capella,
        b.capella,
        after_a,
        after_b,
    );
}

/// Sealing outcomes that are the same leaves the same.
pub proof fn lemma_sealing_deterministic<P: StateProcessing>(
    processing: &P,
    spec: &ChainSpec,
    before_a: Result<BeaconState, BlockProcessingError>,
    before_b: Result<BeaconState, BlockProcessingError>,
    after_a: Result<BeaconState, BlockProcessingError>,
    after_b: Result<BeaconState, BlockProcessingError>,
)
    requires
        deterministic(processing, spec),
        same_outcome(before_a, before_b),
        sealed(processing, spec, before_a, after_a),
        sealed(processing, spec, before_b, after_b),
    ensures
        same_outcome(after_a, after_b),
{
    if let (Ok(a), Ok(b)) = (before_a, before_b) {
        let steps_a = lemma_seal_steps(processing, spec, a, after_a);
        let steps_b = lemma_seal_steps(processing, spec, b, after_b);
        assert(same_outcome(steps_a.cached, steps_b.cached));
        if let (Ok(ca), Ok(cb)) = (steps_a.cached, steps_b.cached) {
            assert(ca.validators@ == cb.validators@);
            assert(steps_a.root == steps_b.root);
        }
    }
}

/// Two constructions of the genesis state from the same inputs, with state
/// processing that gives the same for the same, end the same: in the same
/// failure, or in states that hold the same, the genesis validators root
/// among it.
pub proof fn lemma_genesis_deterministic<T: EthSpec, P: StateProcessing>(
    processing: &P,
    eth1_block_hash: Hash256,
    eth1_timestamp: u64,
    deposits: Seq<Deposit>,
    execution_payload_header: Option<ExecutionPayloadHeader>,
    spec: &ChainSpec,
    first: Result<BeaconState, BlockProcessingError>,
    second: Result<BeaconState, BlockProcessingError>,
)
    requires
        deterministic(processing, spec),
        genesis_state_built::<T, P>(
            processing,
            eth1_block_hash,
            eth1_timestamp,
            deposits,
            execution_payload_header,
            spec,
            first,
        ),
        genesis_state_built::<T, P>(
            processing,
            eth1_block_hash,
            eth1_timestamp,
            deposits,
            execution_payload_header,
            spec,
            second,
        ),
    ensures
        same_outcome(first, second),
        first matches Ok(a) ==> second matches Ok(b) && a.genesis_validators_root == b.genesis_validators_root,
{
    if checked_add(eth1_timestamp, spec.genesis_delay) is Ok {
        let a = lemma_steps::<T, P>(
            processing,
            eth1_block_hash,
            eth1_timestamp,
            deposits,
            execution_payload_header,
            spec,
            first,
        );
        let b = lemma_steps::<T, P>(
            processing,
            eth1_block_hash,
            eth1_timestamp,
            deposits,
            execution_payload_header,
            spec,
            second,
        );
        lemma_deposits_deterministic(processing, spec, deposits, deposits.len(), a.seed, b.seed, a.taken, b.taken);
        assert(same_outcome(a.activated, b.activated));
        lemma_forks_deterministic(
            processing,
            T::spec_genesis_epoch(),
            execution_payload_header,
            spec,
            a.activated,
            b.activated,
            a.upgraded,
            b.upgraded,
        );
        lemma_sealing_deterministic(processing, spec, a.upgraded, b.upgraded, first, second);
    }
}

} // verus!
