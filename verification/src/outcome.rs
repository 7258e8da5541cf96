//! What holds of the state that a construction returns, where the state
//! processing that it calls on leaves alone what is not its to change.

use crate::arith::checked_add;
use crate::deposit_tree::{capacity, DEPOSIT_TREE_DEPTH};
use crate::errors::BlockProcessingError;
use crate::forks::{
    active_at_genesis, fork_applied, forks_applied, last_active_at_genesis, lemma_fork_steps,
    lemma_fork_upgrade, lemma_last_fork_settled, lemma_no_fork_at_genesis, settled_in,
};
use crate::genesis::{
    activations_applied, deposit_root_after, deposits_keep_anchor, deposits_taken, genesis_state_built,
    lemma_activation_by_balance, lemma_anchor_after_deposits, lemma_deposits_taken_before, lemma_seal_steps,
    sealed, seeded, sufficient_for_genesis, with_deposit_root,
};
use crate::processing::{upgrade_returned, StateProcessing};
use crate::types::{
    BeaconState, BeaconStateView, ChainSpec, Deposit, Epoch, Eth1Data, EthSpec, ExecutionPayloadHeader, Fork,
    ForkName, Hash256, StateVariant,
};
use vstd::prelude::*;

verus! {

/// The steps of a construction that got past the genesis time: the seeded
/// state, and what the deposits, the activation pass and the forks left.
pub struct Steps {
    pub seed: BeaconState,
    pub taken: Result<BeaconState, BlockProcessingError>,
    pub activated: Result<BeaconState, BlockProcessingError>,
    pub upgraded: Result<BeaconState, BlockProcessingError>,
}

/// The steps that led a construction to its result.
pub proof fn lemma_steps<T: EthSpec, P: StateProcessing>(
    processing: &P,
    eth1_block_hash: Hash256,
    eth1_timestamp: u64,
    deposits: Seq<Deposit>,
    execution_payload_header: Option<ExecutionPayloadHeader>,
    spec: &ChainSpec,
    r: Result<BeaconState, BlockProcessingError>,
) -> (steps: Steps)
    requires
        genesis_state_built::<T, P>(
            processing,
            eth1_block_hash,
            eth1_timestamp,
            deposits,
            execution_payload_header,
            spec,
            r,
        ),
        checked_add(eth1_timestamp, spec.genesis_delay) is Ok,
    ensures
        seeded::<T>(
            checked_add(eth1_timestamp, spec.genesis_delay)->Ok_0,
            eth1_block_hash,
            deposits,
            *spec,
            steps.seed,
        ),
        deposits_taken(processing, spec, deposits, deposits.len(), steps.seed, steps.taken),
        activations_applied::<T>(spec, steps.taken, steps.activated),
        forks_applied(
            processing,
            T::spec_genesis_epoch(),
            execution_payload_header,
            spec,
            steps.activated,
            steps.upgraded,
        ),
        sealed(processing, spec, steps.upgraded, r),
        r is Ok ==> steps.taken is Ok && steps.activated is Ok && steps.upgraded is Ok,
{
    let genesis_time = checked_add(eth1_timestamp, spec.genesis_delay)->Ok_0;
    let (seed, taken, activated, upgraded) = choose|
        seed: BeaconState,
        taken: Result<BeaconState, BlockProcessingError>,
        activated: Result<BeaconState, BlockProcessingError>,
        upgraded: Result<BeaconState, BlockProcessingError>,
    |
        #![trigger
            deposits_taken(processing, spec, deposits, deposits.len(), seed, taken),
            activations_applied::<T>(spec, taken, activated),
            forks_applied(processing, T::spec_genesis_epoch(), execution_payload_header, spec, activated, upgraded),
        ]
        {
            &&& seeded::<T>(genesis_time, eth1_block_hash, deposits, *spec, seed)
            &&& deposits_taken(processing, spec, deposits, deposits.len(), seed, taken)
            &&& activations_applied::<T>(spec, taken, activated)
            &&& forks_applied(
                processing,
                T::spec_genesis_epoch(),
                execution_payload_header,
                spec,
                activated,
                upgraded,
            )
            &&& sealed(processing, spec, upgraded, r)
        };
    if r is Ok {
        assert(upgraded is Ok);
        lemma_fork_steps(processing, T::spec_genesis_epoch(), execution_payload_header, spec, activated, upgraded);
    }
    Steps { seed, taken, activated, upgraded }
}

/// Every state that an upgrade or the rebuilding of the caches returns has
/// the anchor record of the state that it was given.
pub open spec fn anchor_kept_after_deposits<P: StateProcessing>(processing: &P, spec: &ChainSpec) -> bool {
    &&& forall|fork: ForkName, state: BeaconState, after: BeaconState| #[trigger]
        upgrade_returned(processing, fork, state, spec, Ok(after)) ==> after.eth1_data == state.eth1_data
    &&& forall|state: BeaconState, after: BeaconState| #[trigger]
        call_ensures(P::build_caches, (processing, state, spec), Ok(after)) ==> after.eth1_data
            == state.eth1_data
}

/// Every state that the rebuilding of the caches returns has the fork marker
/// and the shape of the state that it was given.
pub open spec fn caches_keep_shape<P: StateProcessing>(processing: &P, spec: &ChainSpec) -> bool {
    forall|state: BeaconState, after: BeaconState| #[trigger]
        call_ensures(P::build_caches, (processing, state, spec), Ok(after)) ==> after.fork == state.fork
            && after.variant == state.variant
}

/// Every state that the processing of a deposit returns has the fork marker
/// and the shape of the state that it was given.
pub open spec fn deposits_keep_shape<P: StateProcessing>(processing: &P, spec: &ChainSpec) -> bool {
    forall|state: BeaconState, deposit: &Deposit, skip_proof: bool, after: BeaconState| #[trigger]
        call_ensures(P::process_deposit, (processing, state, deposit, spec, skip_proof), Ok(after))
            ==> after.fork == state.fork && after.variant == state.variant
}

/// One fork keeps the anchor record where the upgrades do.
proof fn lemma_fork_keeps_anchor<P: StateProcessing>(
    processing: &P,
    fork: ForkName,
    genesis_epoch: Epoch,
    header: Option<ExecutionPayloadHeader>,
    spec: &ChainSpec,
    before: BeaconState,
    after: BeaconState,
)
    requires
        anchor_kept_after_deposits(processing, spec),
        fork_applied(processing, fork, genesis_epoch, header, spec, Ok(before), Ok(after)),
    ensures
        after.eth1_data == before.eth1_data,
{
    if active_at_genesis(*spec, fork, genesis_epoch) {
        let upgraded = lemma_fork_upgrade(processing, fork, genesis_epoch, header, spec, before, Ok(after));
        assert(upgrade_returned(processing, fork, before, spec, Ok(upgraded->Ok_0)));
    }
}

/// The forks keep the anchor record where the upgrades do.
proof fn lemma_forks_keep_anchor<P: StateProcessing>(
    processing: &P,
    genesis_epoch: Epoch,
    header: Option<ExecutionPayloadHeader>,
    spec: &ChainSpec,
    before: BeaconState,
    after: BeaconState,
)
    requires
        anchor_kept_after_deposits(processing, spec),
        forks_applied(processing, genesis_epoch, header, spec, Ok(before), Ok(after)),
    ensures
        after.eth1_data == before.eth1_data,
{
    let steps = lemma_fork_steps(processing, genesis_epoch, header, spec, Ok(before), Ok(after));
    let altair = steps.altair->Ok_0;
    let bellatrix = steps.bellatrix->Ok_0;
    let capella = steps.capella->Ok_0;
    lemma_fork_keeps_anchor(processing, ForkName::Altair, genesis_epoch, header, spec, before, altair);
    lemma_fork_keeps_anchor(processing, ForkName::Merge, genesis_epoch, header, spec, altair, bellatrix);
    lemma_fork_keeps_anchor(processing, ForkName::Capella, genesis_epoch, header, spec, bellatrix, capella);
    lemma_fork_keeps_anchor(processing, ForkName::Deneb, genesis_epoch, header, spec, capella, after);
}

/// What sealing leaves of a state: what the rebuilding of the caches
/// returned, with another genesis validators root.
proof fn lemma_sealed_from_cached<P: StateProcessing>(
    processing: &P,
    spec: &ChainSpec,
    before: BeaconState,
    after: BeaconState,
) -> (cached: BeaconState)
    requires
        sealed(processing, spec, Ok(before), Ok(after)),
    ensures
        call_ensures(P::build_caches, (processing, before, spec), Ok(cached)),
        after == (BeaconState { genesis_validators_root: after.genesis_validators_root, ..cached }),
{
    let steps = lemma_seal_steps(processing, spec, before, Ok(after));
    steps.cached->Ok_0
}

/// The anchor record of a genesis state, where the state processing keeps
/// the anchor record: its count is the number of the deposits, its root is the
/// root of the deposit tree with all the deposits in it, in their order, and
/// its block is the block that was given. The tree had room for the deposits.
pub proof fn lemma_genesis_anchor<T: EthSpec, P: StateProcessing>(
    processing: &P,
    eth1_block_hash: Hash256,
    eth1_timestamp: u64,
    deposits: Seq<Deposit>,
    execution_payload_header: Option<ExecutionPayloadHeader>,
    spec: &ChainSpec,
    state: BeaconState,
)
    requires
        deposits_keep_anchor(processing, spec),
        anchor_kept_after_deposits(processing, spec),
        genesis_state_built::<T, P>(
            processing,
            eth1_block_hash,
            eth1_timestamp,
            deposits,
            execution_payload_header,
            spec,
            Ok(state),
        ),
    ensures
        deposits.len() <= capacity(DEPOSIT_TREE_DEPTH as nat),
        state.eth1_data == (Eth1Data {
            deposit_root: deposit_root_after(deposits, deposits.len()),
            deposit_count: deposits.len() as u64,
            block_hash: eth1_block_hash,
        }),
{
    let steps = lemma_steps::<T, P>(
        processing,
        eth1_block_hash,
        eth1_timestamp,
        deposits,
        execution_payload_header,
        spec,
        Ok(state),
    );
    let taken = steps.taken->Ok_0;
    let activated = steps.activated->Ok_0;
    let upgraded = steps.upgraded->Ok_0;
    lemma_anchor_after_deposits(processing, spec, deposits, deposits.len(), steps.seed, taken);
    assert(activated@.eth1_data == taken@.eth1_data);
    lemma_forks_keep_anchor(
        processing,
        T::spec_genesis_epoch(),
        execution_payload_header,
        spec,
        activated,
        upgraded,
    );
    let cached = lemma_sealed_from_cached(processing, spec, upgraded, state);
}

/// The fork marker and the shape of a genesis state, where the rebuilding of
/// the caches keeps both: they are those of the last fork that is active from
/// genesis on, never those of a fork before it.
pub proof fn lemma_genesis_fork<T: EthSpec, P: StateProcessing>(
    processing: &P,
    fork: ForkName,
    eth1_block_hash: Hash256,
    eth1_timestamp: u64,
    deposits: Seq<Deposit>,
    execution_payload_header: Option<ExecutionPayloadHeader>,
    spec: &ChainSpec,
    state: BeaconState,
)
    requires
        last_active_at_genesis(*spec, fork, T::spec_genesis_epoch()),
        caches_keep_shape(processing, spec),
        genesis_state_built::<T, P>(
            processing,
            eth1_block_hash,
            eth1_timestamp,
            deposits,
            execution_payload_header,
            spec,
            Ok(state),
        ),
    ensures
        settled_in(processing, fork, execution_payload_header, spec, state),
{
    let steps = lemma_steps::<T, P>(
        processing,
        eth1_block_hash,
        eth1_timestamp,
        deposits,
        execution_payload_header,
        spec,
        Ok(state),
    );
    let upgraded = steps.upgraded->Ok_0;
    lemma_last_fork_settled(
        processing,
        fork,
        T::spec_genesis_epoch(),
        execution_payload_header,
        spec,
        steps.activated,
        upgraded,
    );
    let cached = lemma_sealed_from_cached(processing, spec, upgraded, state);
}

/// Taking deposits keeps the fork marker and the shape where the processing
/// of deposits does.
proof fn lemma_deposits_keep_shape<P: StateProcessing>(
    processing: &P,
    spec: &ChainSpec,
    deposits: Seq<Deposit>,
    count: nat,
    start: BeaconState,
    after: BeaconState,
)
    requires
        deposits_keep_shape(processing, spec),
        deposits_taken(processing, spec, deposits, count, start, Ok(after)),
    ensures
        after.fork == start.fork,
        after.variant == start.variant,
    decreases count,
{
    if count > 0 {
        let before = lemma_deposits_taken_before(processing, spec, deposits, count, start, Ok(after));
        let state = before->Ok_0;
        lemma_deposits_keep_shape(processing, spec, deposits, (count - 1) as nat, start, state);
        let handed = with_deposit_root(state, deposit_root_after(deposits, count));
        assert(call_ensures(
            P::process_deposit,
            (processing, handed, &deposits[count - 1], spec, true),
            Ok(after),
        ));
    }
}

/// The fork marker and the shape of a genesis state for which no fork is
/// active from genesis on, where the processing of deposits and the rebuilding
/// of the caches keep both: the state has the base shape, whatever header was
/// given, and its fork marker is that of genesis, with the genesis version as
/// both of its versions.
pub proof fn lemma_genesis_without_fork<T: EthSpec, P: StateProcessing>(
    processing: &P,
    eth1_block_hash: Hash256,
    eth1_timestamp: u64,
    deposits: Seq<Deposit>,
    execution_payload_header: Option<ExecutionPayloadHeader>,
    spec: &ChainSpec,
    state: BeaconState,
)
    requires
        forall|fork: ForkName|
            fork != ForkName::Base ==> !#[trigger] active_at_genesis(*spec, fork, T::spec_genesis_epoch()),
        deposits_keep_shape(processing, spec),
        caches_keep_shape(processing, spec),
        genesis_state_built::<T, P>(
            processing,
            eth1_block_hash,
            eth1_timestamp,
            deposits,
            execution_payload_header,
            spec,
            Ok(state),
        ),
    ensures
        state.variant == StateVariant::Base,
        state.fork == (Fork {
            previous_version: spec.genesis_fork_version,
            current_version: spec.genesis_fork_version,
            epoch: T::spec_genesis_epoch(),
        }),
{
    let steps = lemma_steps::<T, P>(
        processing,
        eth1_block_hash,
        eth1_timestamp,
        deposits,
        execution_payload_header,
        spec,
        Ok(state),
    );
    let taken = steps.taken->Ok_0;
    let activated = steps.activated->Ok_0;
    let upgraded = steps.upgraded->Ok_0;
    lemma_deposits_keep_shape(processing, spec, deposits, deposits.len(), steps.seed, taken);
    assert(steps.seed@.variant == StateVariant::Base);
    assert(activated@.variant == taken@.variant);
    lemma_no_fork_at_genesis(
        processing,
        T::spec_genesis_epoch(),
        execution_payload_header,
        spec,
        activated,
        steps.upgraded,
    );
    let cached = lemma_sealed_from_cached(processing, spec, upgraded, state);
}

/// The processing of the given deposit credits it as one new validator:
/// every state that it returns holds what the state that it was given held,
/// and one more validator, with the amount of the deposit as its balance, and
/// not yet eligible or active.
pub open spec fn credited_as_new_validator<P: StateProcessing>(
    processing: &P,
    spec: &ChainSpec,
    deposit: &Deposit,
) -> bool {
    forall|state: BeaconState, skip_proof: bool, after: BeaconState| #[trigger]
        call_ensures(P::process_deposit, (processing, state, deposit, spec, skip_proof), Ok(after)) ==> {
            &&& after@.validators.len() == state@.validators.len() + 1
            &&& after@.validators.last().activation_eligibility_epoch == spec.far_future_epoch
            &&& after@.validators.last().activation_epoch == spec.far_future_epoch
            &&& after@ == (BeaconStateView {
                validators: after@.validators,
                balances: state@.balances.push(deposit.data.amount),
                ..state@
            })
        }
}

/// Every state that the rebuilding of the caches returns holds what the
/// state that it was given held.
pub open spec fn caches_keep_state<P: StateProcessing>(processing: &P, spec: &ChainSpec) -> bool {
    forall|state: BeaconState, after: BeaconState| #[trigger]
        call_ensures(P::build_caches, (processing, state, spec), Ok(after)) ==> after@ == state@
}

/// The genesis state that is built from one deposit of exactly the maximum
/// effective balance, where that maximum is a multiple of the increment, no
/// fork is active from genesis on, the deposit is credited as one new
/// validator and the rebuilding of the caches keeps the state: it has the
/// base shape and one validator, whose effective balance is the maximum and
/// who is eligible and active from the genesis epoch on; its anchor record
/// counts one deposit and holds the root of the tree with that deposit in it;
/// and its genesis time is the timestamp delayed by the genesis delay. With
/// that one validator active, the state suffices to start the chain just
/// where the configured minimum of active validators is at most one and
/// the genesis time has reached the configured minimum.
pub proof fn lemma_single_full_deposit<T: EthSpec, P: StateProcessing>(
    processing: &P,
    eth1_block_hash: Hash256,
    eth1_timestamp: u64,
    deposits: Seq<Deposit>,
    execution_payload_header: Option<ExecutionPayloadHeader>,
    spec: &ChainSpec,
    state: BeaconState,
    active_validators: Vec<usize>,
)
    requires
        deposits.len() == 1,
        deposits[0].data.amount == spec.max_effective_balance,
        spec.effective_balance_increment != 0,
        spec.max_effective_balance % spec.effective_balance_increment == 0,
        forall|fork: ForkName|
            fork != ForkName::Base ==> !#[trigger] active_at_genesis(*spec, fork, T::spec_genesis_epoch()),
        credited_as_new_validator(processing, spec, &deposits[0]),
        caches_keep_state(processing, spec),
        genesis_state_built::<T, P>(
            processing,
            eth1_block_hash,
            eth1_timestamp,
            deposits,
            execution_payload_header,
            spec,
            Ok(state),
        ),
        active_validators@.len() == 1,
    ensures
        state@.validators.len() == 1,
        state@.balances == seq![spec.max_effective_balance],
        state@.validators[0].effective_balance == spec.max_effective_balance,
        state@.validators[0].activation_eligibility_epoch == T::spec_genesis_epoch(),
        state@.validators[0].activation_epoch == T::spec_genesis_epoch(),
        state.eth1_data == (Eth1Data {
            deposit_root: deposit_root_after(deposits, 1),
            deposit_count: 1,
            block_hash: eth1_block_hash,
        }),
        state.variant == StateVariant::Base,
        state.genesis_time == eth1_timestamp + spec.genesis_delay,
        sufficient_for_genesis(state.genesis_time, Ok(active_validators), *spec) == (
        spec.min_genesis_active_validator_count <= 1 && eth1_timestamp + spec.genesis_delay
            >= spec.min_genesis_time),
{
    let epoch = T::spec_genesis_epoch();
    let steps = lemma_steps::<T, P>(
        processing,
        eth1_block_hash,
        eth1_timestamp,
        deposits,
        execution_payload_header,
        spec,
        Ok(state),
    );
    let seed = steps.seed;
    let taken = steps.taken->Ok_0;
    let activated = steps.activated->Ok_0;
    let upgraded = steps.upgraded->Ok_0;

    // The one deposit is credited to the seeded state.
    let before = lemma_deposits_taken_before(processing, spec, deposits, 1, seed, Ok(taken));
    let handed = with_deposit_root(before->Ok_0, deposit_root_after(deposits, 1));
    assert(call_ensures(P::process_deposit, (processing, handed, &deposits[0], spec, true), Ok(taken)));
    assert(taken@.balances =~= seq![spec.max_effective_balance]);

    // Its balance is the maximum, so the activation pass activates it.
    lemma_activation_by_balance(taken@.validators, taken@.balances, *spec, epoch, 0);
    let maximum = spec.max_effective_balance as int;
    let increment = spec.effective_balance_increment as int;
    assert(maximum - maximum % increment == maximum);

    // No fork changes the state, and sealing keeps what it holds.
    lemma_no_fork_at_genesis(processing, epoch, execution_payload_header, spec, activated, steps.upgraded);
    let cached = lemma_sealed_from_cached(processing, spec, upgraded, state);
    assert(state@.balances =~= seq![spec.max_effective_balance]);
}

} // verus!
