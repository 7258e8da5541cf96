//! The genesis state: its construction from the deposits made on the external
//! chain, and the test of whether a candidate may start the chain.

use crate::arith::{checked_add, safe_add, safe_rem, safe_sub, ArithError};
use crate::deposit_tree::{capacity, deposit_tree_root, DepositDataTree, DEPOSIT_TREE_DEPTH};
use crate::errors::{BlockProcessingError, Error, MerkleTreeError};
use crate::forks::{apply_genesis_forks, fork_applied, forks_applied};
use crate::hashing::deposit_data_root;
use crate::processing::StateProcessing;
use crate::types::{
    new_state, BeaconState, BeaconStateView, ChainSpec, Deposit, Epoch, Eth1Data, EthSpec,
    ExecutionPayloadHeader, ForkName, Hash256, Validator,
};
use vstd::arithmetic::power2::{lemma2_to64, lemma2_to64_rest};
use vstd::prelude::*;

verus! {

/// The genesis time that belongs to a timestamp of the external chain: the
/// timestamp delayed by the configured genesis delay.
///
/// Does not ensure that the time reaches the configured minimum.
pub fn eth2_genesis_time(eth1_timestamp: u64, spec: &ChainSpec) -> (r: Result<u64, ArithError>)
    ensures
        r == checked_add(eth1_timestamp, spec.genesis_delay),
{
    safe_add(eth1_timestamp, spec.genesis_delay)
}

/// The stake that counts for a balance: the balance rounded down to a multiple
/// of the increment, and capped at the maximum.
pub open spec fn quantized_balance(balance: u64, spec: ChainSpec) -> u64
    recommends
        spec.effective_balance_increment != 0,
{
    let rounded = (balance - balance % spec.effective_balance_increment) as u64;
    if rounded <= spec.max_effective_balance {
        rounded
    } else {
        spec.max_effective_balance
    }
}

/// A validator after the activation pass, given its balance.
pub open spec fn activated(v: Validator, balance: u64, spec: ChainSpec, genesis_epoch: Epoch) -> Validator {
    let effective_balance = quantized_balance(balance, spec);
    if effective_balance == spec.max_effective_balance {
        Validator {
            effective_balance,
            activation_eligibility_epoch: genesis_epoch,
            activation_epoch: genesis_epoch,
            ..v
        }
    } else {
        Validator { effective_balance, ..v }
    }
}

/// The number of validators that the activation pass gets through: all of
/// them, or those before the first for which it fails.
pub open spec fn activations_done(validators: Seq<Validator>, balances: Seq<u64>, spec: ChainSpec) -> nat {
    if validators.len() == 0 {
        0
    } else if balances.len() == 0 || spec.effective_balance_increment == 0 {
        0
    } else if balances.len() < validators.len() {
        balances.len()
    } else {
        validators.len()
    }
}

/// What the activation pass returns.
pub open spec fn activations_result(validators: Seq<Validator>, balances: Seq<u64>, spec: ChainSpec) -> Result<(), Error> {
    if validators.len() == 0 {
        Ok(())
    } else if balances.len() == 0 {
        Err(Error::BalancesOutOfBounds(0))
    } else if spec.effective_balance_increment == 0 {
        Err(Error::ArithError(ArithError::DivisionByZero))
    } else if balances.len() < validators.len() {
        Err(Error::BalancesOutOfBounds(balances.len() as usize))
    } else {
        Ok(())
    }
}

/// The registry after the activation pass: the validators that the pass got
/// through are activated by their balances, the others are as they were.
pub open spec fn activated_registry(
    validators: Seq<Validator>,
    balances: Seq<u64>,
    spec: ChainSpec,
    genesis_epoch: Epoch,
) -> Seq<Validator> {
    let done = activations_done(validators, balances, spec);
    Seq::new(
        validators.len(),
        |i: int|
            if i < done {
                activated(validators[i], balances[i], spec, genesis_epoch)
            } else {
                validators[i]
            },
    )
}

/// Activates the genesis validators whose balance is acceptable.
///
/// Every validator gets its effective balance from its balance; one whose
/// effective balance is the maximum is eligible and active from the genesis
/// epoch on. The pass fails at the first validator that has no balance, or
/// at once where the increment is zero; the validators before that one stay
/// activated.
pub fn process_activations<T: EthSpec>(state: &mut BeaconState, spec: &ChainSpec) -> (r: Result<(), Error>)
    ensures
        r == activations_result(old(state)@.validators, old(state)@.balances, *spec),
        final(state)@ == (BeaconStateView {
            validators: activated_registry(
                old(state)@.validators,
                old(state)@.balances,
                *spec,
                T::spec_genesis_epoch(),
            ),
            ..old(state)@
        }),
{
    let genesis_epoch = T::genesis_epoch();
    let n = state.validators.len();
    let ghost before = state@;
    let mut index: usize = 0;
    while index < n
        invariant
            index <= n,
            before == old(state)@,
            n == before.validators.len(),
            genesis_epoch == T::spec_genesis_epoch(),
            index > 0 ==> spec.effective_balance_increment != 0,
            index <= before.balances.len(),
            state@.validators.len() == n,
            forall|i: int|
                0 <= i < index ==> #[trigger] state@.validators[i] == activated(
                    before.validators[i],
                    before.balances[i],
                    *spec,
                    genesis_epoch,
                ),
            forall|i: int| index <= i < n ==> #[trigger] state@.validators[i] == before.validators[i],
            state@ == (BeaconStateView { validators: state@.validators, ..before }),
        decreases n - index,
    {
        if index >= state.balances.len() {
            assert(state@.validators =~= activated_registry(
                before.validators,
                before.balances,
                *spec,
                genesis_epoch,
            ));
            return Err(Error::BalancesOutOfBounds(index));
        }
        let balance = state.balances[index];
        let remainder = match safe_rem(balance, spec.effective_balance_increment) {
            Ok(v) => v,
            Err(e) => {
                assert(state@.validators =~= activated_registry(
                    before.validators,
                    before.balances,
                    *spec,
                    genesis_epoch,
                ));
                return Err(Error::ArithError(e));
            },
        };
        assert(remainder <= balance) by (nonlinear_arith)
            requires
                spec.effective_balance_increment != 0,
                remainder == balance % spec.effective_balance_increment,
        ;
        let rounded = match safe_sub(balance, remainder) {
            Ok(v) => v,
            Err(e) => {
                return Err(Error::ArithError(e));
            },
        };
        let effective_balance = if rounded <= spec.max_effective_balance {
            rounded
        } else {
            spec.max_effective_balance
        };
        let mut validator = state.validators[index];
        validator.effective_balance = effective_balance;
        if effective_balance == spec.max_effective_balance {
            validator.activation_eligibility_epoch = genesis_epoch;
            validator.activation_epoch = genesis_epoch;
        }
        state.validators.set(index, validator);
        index += 1;
    }
    assert(state@.validators =~= activated_registry(
        before.validators,
        before.balances,
        *spec,
        genesis_epoch,
    ));
    Ok(())
}

/// What the activation pass makes of a validator of a registry with a balance
/// for each validator and an increment that is not zero: its effective balance
/// is its balance rounded down to the increment and capped at the maximum.
/// Where that is the maximum, the validator is eligible and active from the
/// genesis epoch on. Any other validator that was not yet eligible or active
/// remains so.
pub proof fn lemma_activation_by_balance(
    validators: Seq<Validator>,
    balances: Seq<u64>,
    spec: ChainSpec,
    genesis_epoch: Epoch,
    index: int,
)
    requires
        spec.effective_balance_increment != 0,
        validators.len() == balances.len(),
        0 <= index < validators.len(),
    ensures
        activations_result(validators, balances, spec) == Ok::<(), Error>(()),
        activated_registry(validators, balances, spec, genesis_epoch).len() == validators.len(),
        ({
            let before = validators[index];
            let after = activated_registry(validators, balances, spec, genesis_epoch)[index];
            let effective_balance = quantized_balance(balances[index], spec);
            &&& after.effective_balance == effective_balance
            &&& effective_balance <= spec.max_effective_balance
            &&& effective_balance <= balances[index]
            &&& effective_balance == spec.max_effective_balance ==> {
                &&& after.activation_eligibility_epoch == genesis_epoch
                &&& after.activation_epoch == genesis_epoch
            }
            &&& effective_balance != spec.max_effective_balance ==> {
                &&& after.activation_eligibility_epoch == before.activation_eligibility_epoch
                &&& after.activation_epoch == before.activation_epoch
            }
            &&& effective_balance != spec.max_effective_balance && before.activation_eligibility_epoch
                == spec.far_future_epoch && before.activation_epoch == spec.far_future_epoch ==> {
                &&& after.activation_eligibility_epoch == spec.far_future_epoch
                &&& after.activation_epoch == spec.far_future_epoch
            }
        }),
{
    let balance = balances[index];
    let increment = spec.effective_balance_increment;
    assert(0 <= balance % increment <= balance) by (nonlinear_arith)
        requires
            increment > 0,
            balance >= 0,
    ;
}

/// Where the maximum is a multiple of the increment, so is every effective
/// balance that the activation pass gives.
pub proof fn lemma_quantized_is_multiple(balance: u64, spec: ChainSpec)
    requires
        spec.effective_balance_increment != 0,
        spec.max_effective_balance % spec.effective_balance_increment == 0,
    ensures
        quantized_balance(balance, spec) % spec.effective_balance_increment == 0,
{
    let increment = spec.effective_balance_increment as int;
    let b = balance as int;
    assert((b - b % increment) % increment == 0) by {
        vstd::arithmetic::div_mod::lemma_fundamental_div_mod(b, increment);
        vstd::arithmetic::div_mod::lemma_mod_multiples_basic(b / increment, increment);
        assert(b - b % increment == increment * (b / increment));
        assert(increment * (b / increment) == (b / increment) * increment) by (nonlinear_arith);
    }
    assert(0 <= b % increment <= b) by (nonlinear_arith)
        requires
            increment > 0,
            b >= 0,
    ;
}

/// The leaves that the deposits add to the deposit tree, in their order.
pub open spec fn deposit_leaves(deposits: Seq<Deposit>) -> Seq<Hash256> {
    Seq::new(deposits.len(), |i: int| deposit_data_root(deposits[i].data))
}

/// The root of the deposit tree once the first `count` deposits are in it.
pub open spec fn deposit_root_after(deposits: Seq<Deposit>, count: nat) -> Hash256 {
    deposit_tree_root(deposit_leaves(deposits).take(count as int), count, DEPOSIT_TREE_DEPTH as nat)
}

/// The state with another deposit root in its anchor record.
pub open spec fn with_deposit_root(state: BeaconState, deposit_root: Hash256) -> BeaconState {
    BeaconState { eth1_data: Eth1Data { deposit_root, ..state.eth1_data }, ..state }
}

/// `after` is what the deposit of the given index leaves of `before`. A
/// failure passes through. A deposit for which the tree has no room left
/// fails. Any other is added to the tree and handed to the processing of
/// deposits, without a check of its proof, together with the state whose
/// anchor record holds the root of the tree with this deposit in it.
pub open spec fn deposit_taken<P: StateProcessing>(
    processing: &P,
    spec: &ChainSpec,
    deposits: Seq<Deposit>,
    index: nat,
    before: Result<BeaconState, BlockProcessingError>,
    after: Result<BeaconState, BlockProcessingError>,
) -> bool {
    match before {
        Err(e) => after == Err::<BeaconState, BlockProcessingError>(e),
        Ok(state) => if index >= capacity(DEPOSIT_TREE_DEPTH as nat) {
            after == Err::<BeaconState, BlockProcessingError>(
                BlockProcessingError::MerkleTreeError(MerkleTreeError::MerkleTreeFull),
            )
        } else {
            call_ensures(
                P::process_deposit,
                (
                    processing,
                    with_deposit_root(state, deposit_root_after(deposits, index + 1)),
                    &deposits[index as int],
                    spec,
                    true,
                ),
                after,
            )
        },
    }
}

/// `after` is what the first `count` deposits, taken in their order, leave of
/// `start`. Before the first deposit the anchor record holds the root of the
/// tree without deposits.
pub open spec fn deposits_taken<P: StateProcessing>(
    processing: &P,
    spec: &ChainSpec,
    deposits: Seq<Deposit>,
    count: nat,
    start: BeaconState,
    after: Result<BeaconState, BlockProcessingError>,
) -> bool
    decreases count,
{
    if count == 0 {
        after == Ok::<BeaconState, BlockProcessingError>(with_deposit_root(start, deposit_root_after(deposits, 0)))
    } else {
        exists|before: Result<BeaconState, BlockProcessingError>|
            {
                &&& deposits_taken(processing, spec, deposits, (count - 1) as nat, start, before)
                &&& #[trigger] deposit_taken(processing, spec, deposits, (count - 1) as nat, before, after)
            }
    }
}

/// What the first deposits leave, and what the next one leaves of that.
pub proof fn lemma_deposits_taken_next<P: StateProcessing>(
    processing: &P,
    spec: &ChainSpec,
    deposits: Seq<Deposit>,
    count: nat,
    start: BeaconState,
    before: Result<BeaconState, BlockProcessingError>,
    after: Result<BeaconState, BlockProcessingError>,
)
    requires
        deposits_taken(processing, spec, deposits, count, start, before),
        deposit_taken(processing, spec, deposits, count, before, after),
    ensures
        deposits_taken(processing, spec, deposits, count + 1, start, after),
{
    let next: nat = count + 1;
    assert(deposit_taken(processing, spec, deposits, (next - 1) as nat, before, after));
}

/// A failure among the first deposits is what all the deposits leave.
pub proof fn lemma_deposits_taken_failed<P: StateProcessing>(
    processing: &P,
    spec: &ChainSpec,
    deposits: Seq<Deposit>,
    count: nat,
    total: nat,
    start: BeaconState,
    e: BlockProcessingError,
)
    requires
        count <= total,
        deposits_taken(processing, spec, deposits, count, start, Err(e)),
    ensures
        deposits_taken(processing, spec, deposits, total, start, Err(e)),
    decreases total - count,
{
    if count < total {
        let failed = Err::<BeaconState, BlockProcessingError>(e);
        lemma_deposits_taken_next(processing, spec, deposits, count, start, failed, failed);
        lemma_deposits_taken_failed(processing, spec, deposits, count + 1, total, start, e);
    }
}

/// Every state that the processing of a deposit returns has the anchor record
/// of the state that it was given.
pub open spec fn deposits_keep_anchor<P: StateProcessing>(processing: &P, spec: &ChainSpec) -> bool {
    forall|state: BeaconState, deposit: &Deposit, skip_proof: bool, after: BeaconState| #[trigger]
        call_ensures(P::process_deposit, (processing, state, deposit, spec, skip_proof), Ok(after))
            ==> after.eth1_data == state.eth1_data
}

/// What the deposits before the last of the first `count` left, of which the
/// last one left `after`.
pub proof fn lemma_deposits_taken_before<P: StateProcessing>(
    processing: &P,
    spec: &ChainSpec,
    deposits: Seq<Deposit>,
    count: nat,
    start: BeaconState,
    after: Result<BeaconState, BlockProcessingError>,
) -> (before: Result<BeaconState, BlockProcessingError>)
    requires
        count > 0,
        deposits_taken(processing, spec, deposits, count, start, after),
    ensures
        deposits_taken(processing, spec, deposits, (count - 1) as nat, start, before),
        deposit_taken(processing, spec, deposits, (count - 1) as nat, before, after),
        after is Ok ==> before is Ok && count <= capacity(DEPOSIT_TREE_DEPTH as nat),
{
    choose|before: Result<BeaconState, BlockProcessingError>|
        {
            &&& deposits_taken(processing, spec, deposits, (count - 1) as nat, start, before)
            &&& #[trigger] deposit_taken(processing, spec, deposits, (count - 1) as nat, before, after)
        }
}

/// Where the first `count` deposits leave a state, the tree had room for
/// them. Where moreover the processing of deposits keeps the anchor record,
/// that record holds the root of the tree with those deposits in it, in
/// their order; its count and its block are those of the start.
pub proof fn lemma_anchor_after_deposits<P: StateProcessing>(
    processing: &P,
    spec: &ChainSpec,
    deposits: Seq<Deposit>,
    count: nat,
    start: BeaconState,
    after: BeaconState,
)
    requires
        deposits_taken(processing, spec, deposits, count, start, Ok(after)),
    ensures
        count <= capacity(DEPOSIT_TREE_DEPTH as nat),
        deposits_keep_anchor(processing, spec) ==> after.eth1_data == (Eth1Data {
            deposit_root: deposit_root_after(deposits, count),
            ..start.eth1_data
        }),
    decreases count,
{
    if count > 0 {
        let before = lemma_deposits_taken_before(processing, spec, deposits, count, start, Ok(after));
        let state = before->Ok_0;
        lemma_anchor_after_deposits(processing, spec, deposits, (count - 1) as nat, start, state);
        if deposits_keep_anchor(processing, spec) {
            let handed = with_deposit_root(state, deposit_root_after(deposits, count));
            assert(call_ensures(
                P::process_deposit,
                (processing, handed, &deposits[count - 1], spec, true),
                Ok(after),
            ));
        }
    }
}

/// Takes the deposits into the state, in their order. The anchor record of
/// the state holds the root of the deposit tree throughout: that of the tree
/// without deposits at first. Each deposit is added to the tree, the root of
/// the tree is written to the anchor record, and the deposit is then processed
/// without a check of its proof. The first failure ends it.
pub fn process_genesis_deposits<P: StateProcessing>(
    state: BeaconState,
    deposits: &Vec<Deposit>,
    spec: &ChainSpec,
    processing: &P,
) -> (r: Result<BeaconState, BlockProcessingError>)
    ensures
        deposits_taken(processing, spec, deposits@, deposits@.len(), state, r),
{
    let mut current = state;
    let none: Vec<Hash256> = Vec::new();
    proof {
        lemma2_to64();
        lemma2_to64_rest();
    }
    let mut deposit_tree = DepositDataTree::create(none.as_slice(), 0, DEPOSIT_TREE_DEPTH);
    assert(deposit_tree.leaves() =~= deposit_leaves(deposits@).take(0));
    current.eth1_data.deposit_root = deposit_tree.root();
    let mut index: usize = 0;
    while index < deposits.len()
        invariant
            index <= deposits@.len(),
            deposit_tree.wf(),
            deposit_tree.depth() == DEPOSIT_TREE_DEPTH,
            deposit_tree.count() == index,
            deposit_tree.leaves() == deposit_leaves(deposits@).take(index as int),
            deposits_taken(processing, spec, deposits@, index as nat, state, Ok(current)),
        decreases deposits@.len() - index,
    {
        let deposit = &deposits[index];
        let ghost before = Ok::<BeaconState, BlockProcessingError>(current);
        let pushed = deposit_tree.push_leaf(deposit.data.tree_hash_root());
        match pushed {
            Ok(()) => {},
            Err(e) => {
                proof {
                    let failed = Err::<BeaconState, BlockProcessingError>(
                        BlockProcessingError::MerkleTreeError(e),
                    );
                    lemma_deposits_taken_next(processing, spec, deposits@, index as nat, state, before, failed);
                    lemma_deposits_taken_failed(
                        processing,
                        spec,
                        deposits@,
                        (index + 1) as nat,
                        deposits@.len(),
                        state,
                        BlockProcessingError::MerkleTreeError(e),
                    );
                }
                return Err(BlockProcessingError::MerkleTreeError(e));
            },
        }
        assert(deposit_tree.leaves() =~= deposit_leaves(deposits@).take(index + 1));
        current.eth1_data.deposit_root = deposit_tree.root();
        let processed = processing.process_deposit(current, deposit, spec, true);
        proof {
            lemma_deposits_taken_next(processing, spec, deposits@, index as nat, state, before, processed);
        }
        match processed {
            Ok(s) => {
                current = s;
            },
            Err(e) => {
                proof {
                    lemma_deposits_taken_failed(
                        processing,
                        spec,
                        deposits@,
                        (index + 1) as nat,
                        deposits@.len(),
                        state,
                        e,
                    );
                }
                return Err(e);
            },
        }
        index += 1;
    }
    Ok(current)
}

/// The root of the deposit tree without deposits.
pub open spec fn empty_deposit_root() -> Hash256 {
    deposit_tree_root(Seq::empty(), 0, DEPOSIT_TREE_DEPTH as nat)
}

/// The root of the deposit tree before the first deposit is that of the tree
/// without deposits, whatever the deposits are.
pub proof fn lemma_deposit_root_before_first(deposits: Seq<Deposit>)
    ensures
        deposit_root_after(deposits, 0) == empty_deposit_root(),
{
    assert(deposit_leaves(deposits).take(0) =~= Seq::<Hash256>::empty());
}

/// Computes the root of the deposit tree without deposits.
pub fn compute_empty_deposit_root() -> (root: Hash256)
    ensures
        root == empty_deposit_root(),
{
    let none: Vec<Hash256> = Vec::new();
    proof {
        lemma2_to64();
        lemma2_to64_rest();
    }
    let deposit_tree = DepositDataTree::create(none.as_slice(), 0, DEPOSIT_TREE_DEPTH);
    assert(deposit_tree.leaves() =~= Seq::<Hash256>::empty());
    deposit_tree.root()
}

/// The state has been seeded: it is the new state for the genesis time and
/// the anchor record of the given block, whose root is that of the deposit
/// tree before the first deposit and whose count is the number of all the
/// deposits, and every entry of its randomness seed table is the hash of the
/// block.
pub open spec fn seeded<T: EthSpec>(
    genesis_time: u64,
    eth1_block_hash: Hash256,
    deposits: Seq<Deposit>,
    spec: ChainSpec,
    state: BeaconState,
) -> bool {
    let eth1_data = Eth1Data {
        deposit_root: deposit_root_after(deposits, 0),
        deposit_count: deposits.len() as u64,
        block_hash: eth1_block_hash,
    };
    state@ == (BeaconStateView {
        randao_mixes: Seq::new(T::spec_epochs_per_historical_vector() as nat, |i: int| eth1_block_hash),
        ..new_state::<T>(genesis_time, eth1_data, spec)
    })
}

/// `after` is what the activation pass leaves of `before`. A failure passes
/// through, and a failure of the pass is a failure of the state.
pub open spec fn activations_applied<T: EthSpec>(
    spec: &ChainSpec,
    before: Result<BeaconState, BlockProcessingError>,
    after: Result<BeaconState, BlockProcessingError>,
) -> bool {
    match before {
        Err(e) => after == Err::<BeaconState, BlockProcessingError>(e),
        Ok(state) => match activations_result(state@.validators, state@.balances, *spec) {
            Err(e) => after == Err::<BeaconState, BlockProcessingError>(
                BlockProcessingError::BeaconStateError(e),
            ),
            Ok(()) => after matches Ok(activated) && activated@ == (BeaconStateView {
                validators: activated_registry(
                    state@.validators,
                    state@.balances,
                    *spec,
                    T::spec_genesis_epoch(),
                ),
                ..state@
            }),
        },
    }
}

/// `after` is `before` sealed. A failure passes through. Otherwise the caches
/// of the state are rebuilt, and the commitment to the validators of what that
/// returned becomes the genesis validators root. A failure of either is a
/// failure of the state.
pub open spec fn sealed<P: StateProcessing>(
    processing: &P,
    spec: &ChainSpec,
    before: Result<BeaconState, BlockProcessingError>,
    after: Result<BeaconState, BlockProcessingError>,
) -> bool {
    match before {
        Err(e) => after == Err::<BeaconState, BlockProcessingError>(e),
        Ok(state) => exists|cached: Result<BeaconState, Error>|
            #[trigger] call_ensures(P::build_caches, (processing, state, spec), cached) && match cached {
                Err(e) => after == Err::<BeaconState, BlockProcessingError>(
                    BlockProcessingError::BeaconStateError(e),
                ),
                Ok(c) => exists|root: Result<Hash256, Error>|
                    #[trigger] call_ensures(P::validators_tree_hash_root, (processing, &c.validators), root)
                        && match root {
                        Err(e) => after == Err::<BeaconState, BlockProcessingError>(
                            BlockProcessingError::BeaconStateError(e),
                        ),
                        Ok(h) => after == Ok::<BeaconState, BlockProcessingError>(
                            BeaconState { genesis_validators_root: h, ..c },
                        ),
                    },
            },
    }
}

/// What the rebuilding of the caches and the commitment to the validators
/// returned where a state was sealed.
pub struct SealSteps {
    pub cached: Result<BeaconState, Error>,
    pub root: Result<Hash256, Error>,
}

/// The steps by which sealing led from `before` to `after`.
pub proof fn lemma_seal_steps<P: StateProcessing>(
    processing: &P,
    spec: &ChainSpec,
    before: BeaconState,
    after: Result<BeaconState, BlockProcessingError>,
) -> (steps: SealSteps)
    requires
        sealed(processing, spec, Ok(before), after),
    ensures
        call_ensures(P::build_caches, (processing, before, spec), steps.cached),
        match steps.cached {
            Err(e) => after == Err::<BeaconState, BlockProcessingError>(BlockProcessingError::BeaconStateError(e)),
            Ok(c) => call_ensures(P::validators_tree_hash_root, (processing, &c.validators), steps.root)
                && match steps.root {
                Err(e) => after == Err::<BeaconState, BlockProcessingError>(
                    BlockProcessingError::BeaconStateError(e),
                ),
                Ok(h) => after == Ok::<BeaconState, BlockProcessingError>(
                    BeaconState { genesis_validators_root: h, ..c },
                ),
            },
        },
{
    let cached = choose|cached: Result<BeaconState, Error>|
        #[trigger] call_ensures(P::build_caches, (processing, before, spec), cached) && match cached {
            Err(e) => after == Err::<BeaconState, BlockProcessingError>(BlockProcessingError::BeaconStateError(e)),
            Ok(c) => exists|root: Result<Hash256, Error>|
                #[trigger] call_ensures(P::validators_tree_hash_root, (processing, &c.validators), root)
                    && match root {
                    Err(e) => after == Err::<BeaconState, BlockProcessingError>(
                        BlockProcessingError::BeaconStateError(e),
                    ),
                    Ok(h) => after == Ok::<BeaconState, BlockProcessingError>(
                        BeaconState { genesis_validators_root: h, ..c },
                    ),
                },
        };
    let root = if let Ok(c) = cached {
        choose|root: Result<Hash256, Error>|
            #[trigger] call_ensures(P::validators_tree_hash_root, (processing, &c.validators), root)
                && match root {
                Err(e) => after == Err::<BeaconState, BlockProcessingError>(
                    BlockProcessingError::BeaconStateError(e),
                ),
                Ok(h) => after == Ok::<BeaconState, BlockProcessingError>(
                    BeaconState { genesis_validators_root: h, ..c },
                ),
            }
    } else {
        Err(Error::TreeHashError)
    };
    SealSteps { cached, root }
}

/// Seals the genesis state: rebuilds its caches and sets its genesis
/// validators root, the commitment to its validators that tells this chain
/// from every other.
pub fn seal_genesis_state<P: StateProcessing>(state: BeaconState, spec: &ChainSpec, processing: &P) -> (r: Result<
    BeaconState,
    BlockProcessingError,
>)
    ensures
        sealed(processing, spec, Ok(state), r),
{
    let cached = processing.build_caches(state, spec);
    let mut cached_state = match cached {
        Ok(c) => c,
        Err(e) => {
            return Err(BlockProcessingError::BeaconStateError(e));
        },
    };
    let root = processing.validators_tree_hash_root(&cached_state.validators);
    match root {
        Ok(h) => {
            cached_state.genesis_validators_root = h;
            Ok(cached_state)
        },
        Err(e) => Err(BlockProcessingError::BeaconStateError(e)),
    }
}

/// `r` is the genesis state built from the given inputs, or the failure that
/// ended its construction: the genesis time is computed, the state is seeded,
/// the deposits are taken in their order, the validators are activated, the
/// forks are applied and the state is sealed, each on what the step before
/// left.
pub open spec fn genesis_state_built<T: EthSpec, P: StateProcessing>(
    processing: &P,
    eth1_block_hash: Hash256,
    eth1_timestamp: u64,
    deposits: Seq<Deposit>,
    execution_payload_header: Option<ExecutionPayloadHeader>,
    spec: &ChainSpec,
    r: Result<BeaconState, BlockProcessingError>,
) -> bool {
    match checked_add(eth1_timestamp, spec.genesis_delay) {
        Err(e) => r == Err::<BeaconState, BlockProcessingError>(BlockProcessingError::ArithError(e)),
        Ok(genesis_time) => exists|
            seed: BeaconState,
            taken: Result<BeaconState, BlockProcessingError>,
            activated: Result<BeaconState, BlockProcessingError>,
            upgraded: Result<BeaconState, BlockProcessingError>,
        |
            #![trigger
                deposits_taken(processing, spec, deposits, deposits.len(), seed, taken),
                activations_applied::<T>(spec, taken, activated),
                forks_applied(processing, T::spec_genesis_epoch(), execution_payload_header, spec, activated, upgraded),
            ]
            {
                &&& seeded::<T>(genesis_time, eth1_block_hash, deposits, *spec, seed)
                &&& deposits_taken(processing, spec, deposits, deposits.len(), seed, taken)
                &&& activations_applied::<T>(spec, taken, activated)
                &&& forks_applied(
                    processing,
                    T::spec_genesis_epoch(),
                    execution_payload_header,
                    spec,
                    activated,
                    upgraded,
                )
                &&& sealed(processing, spec, upgraded, r)
            },
    }
}

/// A failure passes through the forks.
pub proof fn lemma_forks_pass_failure<P: StateProcessing>(
    processing: &P,
    genesis_epoch: Epoch,
    header: Option<ExecutionPayloadHeader>,
    spec: &ChainSpec,
    e: BlockProcessingError,
)
    ensures
        forks_applied(processing, genesis_epoch, header, spec, Err(e), Err(e)),
{
    let failed = Err::<BeaconState, BlockProcessingError>(e);
    assert(fork_applied(processing, ForkName::Altair, genesis_epoch, header, spec, failed, failed));
    assert(fork_applied(processing, ForkName::Merge, genesis_epoch, header, spec, failed, failed));
    assert(fork_applied(processing, ForkName::Capella, genesis_epoch, header, spec, failed, failed));
}

/// Initializes a state from the genesis data: the hash and the timestamp of
/// a block of the external chain, and the deposits made up to it.
///
/// The result is the state that the steps of the construction lead to, or the
/// first failure among them; no state is returned that a step has failed on.
pub fn initialize_beacon_state_from_eth1<T: EthSpec, P: StateProcessing>(
    eth1_block_hash: Hash256,
    eth1_timestamp: u64,
    deposits: Vec<Deposit>,
    execution_payload_header: Option<ExecutionPayloadHeader>,
    spec: &ChainSpec,
    processing: &P,
) -> (r: Result<BeaconState, BlockProcessingError>)
    ensures
        genesis_state_built::<T, P>(
            processing,
            eth1_block_hash,
            eth1_timestamp,
            deposits@,
            execution_payload_header,
            spec,
            r,
        ),
{
    let ghost epoch = T::spec_genesis_epoch();
    let genesis_time = match eth2_genesis_time(eth1_timestamp, spec) {
        Ok(t) => t,
        Err(e) => {
            return Err(BlockProcessingError::ArithError(e));
        },
    };
    let eth1_data = Eth1Data {
        deposit_root: compute_empty_deposit_root(),
        deposit_count: deposits.len() as u64,
        block_hash: eth1_block_hash,
    };
    let mut state = BeaconState::new::<T>(genesis_time, eth1_data, spec);

    // The hash of the block is the first source of randomness.
    state.fill_randao_mixes_with(eth1_block_hash);
    let ghost seed = state;
    assert(seeded::<T>(genesis_time, eth1_block_hash, deposits@, *spec, seed)) by {
        lemma_deposit_root_before_first(deposits@);
        assert(state@.randao_mixes =~= Seq::new(
            T::spec_epochs_per_historical_vector() as nat,
            |i: int| eth1_block_hash,
        ));
    }

    let taken = process_genesis_deposits(state, &deposits, spec, processing);
    let mut state = match taken {
        Ok(s) => s,
        Err(e) => {
            proof {
                let failed = Err::<BeaconState, BlockProcessingError>(e);
                assert(activations_applied::<T>(spec, taken, failed));
                lemma_forks_pass_failure(processing, epoch, execution_payload_header, spec, e);
                assert(sealed(processing, spec, failed, failed));
            }
            return Err(e);
        },
    };

    let ghost intaken = state;
    let activated = match process_activations::<T>(&mut state, spec) {
        Ok(()) => Ok(state),
        Err(e) => Err(BlockProcessingError::BeaconStateError(e)),
    };
    assert(activations_applied::<T>(spec, taken, activated));
    let state = match activated {
        Ok(s) => s,
        Err(e) => {
            proof {
                let failed = Err::<BeaconState, BlockProcessingError>(e);
                lemma_forks_pass_failure(processing, epoch, execution_payload_header, spec, e);
                assert(sealed(processing, spec, failed, failed));
            }
            return Err(e);
        },
    };

    // The forks must be applied after the deposits and the activations: an
    // upgrade may compute from the validators what the state of its fork holds.
    let upgraded = apply_genesis_forks::<T, P>(state, execution_payload_header, spec, processing);
    let state = match upgraded {
        Ok(s) => s,
        Err(e) => {
            proof {
                let failed = Err::<BeaconState, BlockProcessingError>(e);
                assert(sealed(processing, spec, failed, failed));
            }
            return Err(e);
        },
    };

    // Now that the validators are known, build the caches and set the genesis
    // validators root for domain separation and chain versioning.
    seal_genesis_state(state, spec, processing)
}

/// Whether a genesis time and a set of active validators suffice to start the
/// chain: the time has reached the configured minimum and the validators are
/// at least as many as the configured minimum. Where the active validators
/// could not be computed they do not suffice.
pub open spec fn sufficient_for_genesis(genesis_time: u64, active_validators: Result<Vec<usize>, Error>, spec: ChainSpec) -> bool {
    match active_validators {
        Ok(indices) => genesis_time >= spec.min_genesis_time && indices@.len()
            >= spec.min_genesis_active_validator_count,
        Err(_) => false,
    }
}

/// Decides whether a genesis time and the validators that are active at
/// genesis suffice to start the chain.
pub fn genesis_validity(genesis_time: u64, active_validators: &Result<Vec<usize>, Error>, spec: &ChainSpec) -> (valid:
    bool)
    ensures
        valid == sufficient_for_genesis(genesis_time, *active_validators, *spec),
{
    match active_validators {
        Ok(indices) => genesis_time >= spec.min_genesis_time && indices.len() as u64
            >= spec.min_genesis_active_validator_count,
        Err(_) => false,
    }
}

/// Determines whether a candidate genesis state is suitable for starting the
/// chain: whether its genesis time and the validators that are active in the
/// genesis epoch suffice.
pub fn is_valid_genesis_state<T: EthSpec, P: StateProcessing>(state: &BeaconState, spec: &ChainSpec, processing: &P) -> (valid:
    bool)
    ensures
        exists|active_validators: Result<Vec<usize>, Error>|
            #[trigger] call_ensures(
                P::get_active_validator_indices,
                (processing, state, T::spec_genesis_epoch(), spec),
                active_validators,
            ) && valid == sufficient_for_genesis(state.genesis_time, active_validators, *spec),
{
    let active_validators = processing.get_active_validator_indices(state, T::genesis_epoch(), spec);
    genesis_validity(state.genesis_time, &active_validators, spec)
}

/// At a genesis time that has reached the configured minimum, as many active
/// validators as the configured minimum suffice, and one fewer do not.
pub proof fn lemma_validity_threshold(genesis_time: u64, active_validators: Vec<usize>, spec: ChainSpec)
    requires
        genesis_time >= spec.min_genesis_time,
    ensures
        active_validators@.len() == spec.min_genesis_active_validator_count ==> sufficient_for_genesis(
            genesis_time,
            Ok(active_validators),
            spec,
        ),
        active_validators@.len() + 1 == spec.min_genesis_active_validator_count ==> !sufficient_for_genesis(
            genesis_time,
            Ok(active_validators),
            spec,
        ),
{
}

} // verus!
