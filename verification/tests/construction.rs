use beacon_genesis::arith::ArithError;
use beacon_genesis::deposit_tree::{DepositDataTree, DEPOSIT_TREE_DEPTH};
use beacon_genesis::errors::{BlockProcessingError, Error};
use beacon_genesis::forks::{apply_genesis_fork, apply_genesis_forks, is_active_at, settle_fork};
use beacon_genesis::genesis::{
    compute_empty_deposit_root, genesis_validity, initialize_beacon_state_from_eth1,
    is_valid_genesis_state, process_genesis_deposits, seal_genesis_state,
};
use beacon_genesis::processing::StateProcessing;
use beacon_genesis::types::{
    BeaconState, ChainSpec, Deposit, DepositData, Epoch, Eth1Data, ExecutionPayloadHeader,
    ExecutionPayloadHeaderCapella, ExecutionPayloadHeaderDeneb, ExecutionPayloadHeaderMerge, Fork,
    ForkName, Hash256, MainnetEthSpec, MinimalEthSpec, StateVariant, Validator,
};
use std::cell::RefCell;

const GWEI: u64 = 1_000_000_000;
const FAR_FUTURE: Epoch = Epoch(u64::MAX);
const GENESIS: Epoch = Epoch(0);

fn spec() -> ChainSpec {
    ChainSpec {
        far_future_epoch: FAR_FUTURE,
        min_genesis_active_validator_count: 2,
        min_genesis_time: 1_000,
        genesis_delay: 300,
        effective_balance_increment: GWEI,
        max_effective_balance: 32 * GWEI,
        genesis_fork_version: [0, 0, 0, 0],
        altair_fork_version: [1, 0, 0, 0],
        altair_fork_epoch: None,
        bellatrix_fork_version: [2, 0, 0, 0],
        bellatrix_fork_epoch: None,
        capella_fork_version: [3, 0, 0, 0],
        capella_fork_epoch: None,
        deneb_fork_version: [4, 0, 0, 0],
        deneb_fork_epoch: None,
    }
}

fn block_hash() -> Hash256 {
    Hash256 { bytes: [0x42; 32] }
}

fn deposit(key: u8, amount: u64) -> Deposit {
    Deposit {
        proof: vec![Hash256::zero(); 33],
        data: DepositData {
            pubkey: [key; 48],
            withdrawal_credentials: Hash256 { bytes: [key; 32] },
            amount,
            signature: [key; 96],
        },
    }
}

fn repeated_deposit() -> Deposit {
    let mut repeated = deposit(0xaa, 32 * GWEI);
    repeated.data.withdrawal_credentials = Hash256 { bytes: [0xbb; 32] };
    repeated.data.signature = [0xcc; 96];
    repeated
}

fn merge_header(n: u64) -> ExecutionPayloadHeaderMerge {
    ExecutionPayloadHeaderMerge {
        parent_hash: Hash256::zero(),
        state_root: Hash256::zero(),
        receipts_root: Hash256::zero(),
        prev_randao: Hash256::zero(),
        block_number: n,
        gas_limit: 30_000_000,
        gas_used: 0,
        timestamp: 0,
        block_hash: Hash256 { bytes: [n as u8; 32] },
        transactions_root: Hash256::zero(),
    }
}

fn capella_header(n: u64) -> ExecutionPayloadHeaderCapella {
    ExecutionPayloadHeaderCapella {
        parent_hash: Hash256::zero(),
        state_root: Hash256::zero(),
        receipts_root: Hash256::zero(),
        prev_randao: Hash256::zero(),
        block_number: n,
        gas_limit: 30_000_000,
        gas_used: 0,
        timestamp: 0,
        block_hash: Hash256 { bytes: [n as u8; 32] },
        transactions_root: Hash256::zero(),
        withdrawals_root: Hash256::zero(),
    }
}

fn deneb_header(n: u64) -> ExecutionPayloadHeaderDeneb {
    ExecutionPayloadHeaderDeneb {
        parent_hash: Hash256::zero(),
        state_root: Hash256::zero(),
        receipts_root: Hash256::zero(),
        prev_randao: Hash256::zero(),
        block_number: n,
        gas_limit: 30_000_000,
        gas_used: 0,
        timestamp: 0,
        block_hash: Hash256 { bytes: [n as u8; 32] },
        transactions_root: Hash256::zero(),
        withdrawals_root: Hash256::zero(),
        blob_gas_used: 0,
        excess_blob_gas: 0,
    }
}

/// Plain state processing for the tests: deposits register or top up, upgrades
/// reshape the state as their fork asks, and every call is recorded.
struct Processing {
    calls: RefCell<Vec<String>>,
    anchors: RefCell<Vec<Eth1Data>>,
    proofs_skipped: RefCell<Vec<bool>>,
    fail_deposit_at: Option<usize>,
    fail_upgrade: Option<ForkName>,
    keep_shape_in: Option<ForkName>,
    fail_caches: bool,
    fail_root: bool,
    fail_active: bool,
}

impl Processing {
    fn new() -> Self {
        Processing {
            calls: RefCell::new(Vec::new()),
            anchors: RefCell::new(Vec::new()),
            proofs_skipped: RefCell::new(Vec::new()),
            fail_deposit_at: None,
            fail_upgrade: None,
            keep_shape_in: None,
            fail_caches: false,
            fail_root: false,
            fail_active: false,
        }
    }

    fn calls(&self) -> Vec<String> {
        self.calls.borrow().clone()
    }

    fn upgrade(
        &self,
        mut state: BeaconState,
        fork: ForkName,
        version: [u8; 4],
        variant: StateVariant,
    ) -> Result<BeaconState, Error> {
        self.calls.borrow_mut().push(format!("upgrade {:?}", fork));
        if self.fail_upgrade == Some(fork) {
            return Err(Error::IncorrectStateVariant);
        }
        state.fork = Fork {
            previous_version: state.fork.current_version,
            current_version: version,
            epoch: GENESIS,
        };
        if self.keep_shape_in != Some(fork) {
            state.variant = variant;
        }
        Ok(state)
    }
}

impl StateProcessing for Processing {
    fn process_deposit(
        &self,
        mut state: BeaconState,
        deposit: &Deposit,
        spec: &ChainSpec,
        skip_proof: bool,
    ) -> Result<BeaconState, BlockProcessingError> {
        let index = self.anchors.borrow().len();
        self.calls.borrow_mut().push(format!("deposit {}", index));
        self.anchors.borrow_mut().push(state.eth1_data);
        self.proofs_skipped.borrow_mut().push(skip_proof);
        if self.fail_deposit_at == Some(index) {
            return Err(BlockProcessingError::DepositInvalid { index });
        }
        let known = state.validators.iter().position(|v| v.pubkey == deposit.data.pubkey);
        match known {
            Some(i) => state.balances[i] += deposit.data.amount,
            None => {
                state.validators.push(Validator {
                    pubkey: deposit.data.pubkey,
                    withdrawal_credentials: deposit.data.withdrawal_credentials,
                    effective_balance: 0,
                    slashed: false,
                    activation_eligibility_epoch: spec.far_future_epoch,
                    activation_epoch: spec.far_future_epoch,
                    exit_epoch: spec.far_future_epoch,
                    withdrawable_epoch: spec.far_future_epoch,
                });
                state.balances.push(deposit.data.amount);
            }
        }
        Ok(state)
    }

    fn upgrade_to_altair(&self, state: BeaconState, spec: &ChainSpec) -> Result<BeaconState, Error> {
        self.upgrade(state, ForkName::Altair, spec.altair_fork_version, StateVariant::Altair)
    }

    fn upgrade_to_bellatrix(&self, state: BeaconState, spec: &ChainSpec) -> Result<BeaconState, Error> {
        let variant = StateVariant::Merge { latest_execution_payload_header: merge_header(0) };
        self.upgrade(state, ForkName::Merge, spec.bellatrix_fork_version, variant)
    }

    fn upgrade_to_capella(&self, state: BeaconState, spec: &ChainSpec) -> Result<BeaconState, Error> {
        let variant = StateVariant::Capella { latest_execution_payload_header: capella_header(0) };
        self.upgrade(state, ForkName::Capella, spec.capella_fork_version, variant)
    }

    fn upgrade_to_deneb(&self, state: BeaconState, spec: &ChainSpec) -> Result<BeaconState, Error> {
        let variant = StateVariant::Deneb { latest_execution_payload_header: deneb_header(0) };
        self.upgrade(state, ForkName::Deneb, spec.deneb_fork_version, variant)
    }

    fn build_caches(&self, state: BeaconState, _spec: &ChainSpec) -> Result<BeaconState, Error> {
        self.calls.borrow_mut().push("caches".to_string());
        if self.fail_caches {
            return Err(Error::CacheError);
        }
        Ok(state)
    }

    fn validators_tree_hash_root(&self, validators: &Vec<Validator>) -> Result<Hash256, Error> {
        self.calls.borrow_mut().push("root".to_string());
        if self.fail_root {
            return Err(Error::TreeHashError);
        }
        let mut bytes = [0xee; 32];
        bytes[0] = validators.len() as u8;
        for (i, v) in validators.iter().enumerate() {
            bytes[1 + i % 31] ^= v.pubkey[0] ^ (v.effective_balance / GWEI) as u8;
        }
        Ok(Hash256 { bytes })
    }

    fn get_active_validator_indices(
        &self,
        state: &BeaconState,
        epoch: Epoch,
        _spec: &ChainSpec,
    ) -> Result<Vec<usize>, Error> {
        if self.fail_active {
            return Err(Error::EpochOutOfBounds);
        }
        Ok(state
            .validators
            .iter()
            .enumerate()
            .filter(|(_, v)| v.activation_epoch.0 <= epoch.0 && epoch.0 < v.exit_epoch.0)
            .map(|(i, _)| i)
            .collect())
    }
}

fn roots_after_each(deposits: &[Deposit]) -> Vec<Hash256> {
    let mut tree = DepositDataTree::create(&[], 0, DEPOSIT_TREE_DEPTH);
    deposits
        .iter()
        .map(|d| {
            tree.push_leaf(d.data.tree_hash_root()).unwrap();
            tree.root()
        })
        .collect()
}

fn build(
    deposits: Vec<Deposit>,
    header: Option<ExecutionPayloadHeader>,
    spec: &ChainSpec,
    processing: &Processing,
) -> Result<BeaconState, BlockProcessingError> {
    initialize_beacon_state_from_eth1::<MinimalEthSpec, Processing>(
        block_hash(),
        1_000,
        deposits,
        header,
        spec,
        processing,
    )
}

#[test]
fn one_full_deposit_and_no_fork() {
    let processing = Processing::new();
    let deposits = vec![repeated_deposit()];
    let state = build(deposits.clone(), None, &spec(), &processing).unwrap();

    assert_eq!(state.validators.len(), 1);
    assert_eq!(state.balances, vec![32 * GWEI]);
    assert_eq!(state.validators[0].effective_balance, 32 * GWEI);
    assert_eq!(state.validators[0].activation_epoch, GENESIS);
    assert_eq!(state.validators[0].activation_eligibility_epoch, GENESIS);
    assert_eq!(state.eth1_data.deposit_count, 1);
    assert_eq!(state.eth1_data.block_hash, block_hash());
    assert_eq!(
        state.eth1_data.deposit_root,
        Hash256 {
            bytes: [
                29, 233, 225, 178, 147, 163, 13, 138, 95, 235, 154, 229, 206, 121, 176, 191, 15,
                16, 157, 25, 209, 195, 63, 121, 81, 255, 145, 84, 53, 215, 68, 249,
            ]
        }
    );
    assert_eq!(state.genesis_time, 1_300);
    assert_eq!(state.variant, StateVariant::Base);
    assert_eq!(
        state.fork,
        Fork { previous_version: [0, 0, 0, 0], current_version: [0, 0, 0, 0], epoch: GENESIS }
    );
    assert_eq!(state.randao_mixes, vec![block_hash(); 64]);
    assert_eq!(
        processing.validators_tree_hash_root(&state.validators),
        Ok(state.genesis_validators_root)
    );

    // Two active validators are asked for and one is there.
    assert!(!is_valid_genesis_state::<MinimalEthSpec, Processing>(&state, &spec(), &processing));
    let mut one = spec();
    one.min_genesis_active_validator_count = 1;
    assert!(is_valid_genesis_state::<MinimalEthSpec, Processing>(&state, &one, &processing));
    one.min_genesis_active_validator_count = 0;
    assert!(is_valid_genesis_state::<MinimalEthSpec, Processing>(&state, &one, &processing));
    // One validator is enough, but the genesis time is too early.
    one.min_genesis_active_validator_count = 1;
    one.min_genesis_time = 1_301;
    assert!(!is_valid_genesis_state::<MinimalEthSpec, Processing>(&state, &one, &processing));
    one.min_genesis_time = 1_300;
    assert!(is_valid_genesis_state::<MinimalEthSpec, Processing>(&state, &one, &processing));
}

#[test]
fn two_deposits_have_the_known_root() {
    let mut counting = deposit(0, 0x0102030405060708);
    for i in 0..48 {
        counting.data.pubkey[i] = i as u8;
    }
    for i in 0..32 {
        counting.data.withdrawal_credentials.bytes[i] = i as u8;
    }
    for i in 0..96 {
        counting.data.signature[i] = i as u8;
    }
    let processing = Processing::new();
    let state = build(vec![repeated_deposit(), counting], None, &spec(), &processing).unwrap();
    assert_eq!(state.eth1_data.deposit_count, 2);
    assert_eq!(
        state.eth1_data.deposit_root,
        Hash256 {
            bytes: [
                234, 253, 222, 163, 191, 54, 132, 206, 232, 240, 14, 68, 106, 46, 53, 212, 134,
                91, 103, 165, 162, 198, 203, 93, 172, 62, 57, 60, 203, 18, 150, 174,
            ]
        }
    );
}

#[test]
fn each_deposit_sees_the_root_that_includes_it() {
    let processing = Processing::new();
    let deposits: Vec<Deposit> = (1..=5).map(|k| deposit(k, 32 * GWEI)).collect();
    let state = build(deposits.clone(), None, &spec(), &processing).unwrap();
    let roots = roots_after_each(&deposits);
    let anchors = processing.anchors.borrow().clone();
    assert_eq!(anchors.len(), 5);
    for (anchor, root) in anchors.iter().zip(roots.iter()) {
        assert_eq!(anchor.deposit_root, *root);
        assert_eq!(anchor.deposit_count, 5);
        assert_eq!(anchor.block_hash, block_hash());
    }
    assert_eq!(state.eth1_data.deposit_root, roots[4]);
    assert_eq!(state.eth1_data.deposit_count, 5);
    assert_eq!(processing.proofs_skipped.borrow().clone(), vec![true; 5]);
}

#[test]
fn steps_run_in_their_order() {
    let processing = Processing::new();
    let mut all = spec();
    all.altair_fork_epoch = Some(GENESIS);
    all.bellatrix_fork_epoch = Some(GENESIS);
    all.capella_fork_epoch = Some(GENESIS);
    all.deneb_fork_epoch = Some(GENESIS);
    let deposits = vec![deposit(1, 32 * GWEI), deposit(2, 32 * GWEI)];
    let state = build(deposits, None, &all, &processing).unwrap();
    assert_eq!(
        processing.calls(),
        vec![
            "deposit 0",
            "deposit 1",
            "upgrade Altair",
            "upgrade Merge",
            "upgrade Capella",
            "upgrade Deneb",
            "caches",
            "root",
        ]
    );
    assert_eq!(state.variant, StateVariant::Deneb { latest_execution_payload_header: deneb_header(0) });
    assert_eq!(
        state.fork,
        Fork { previous_version: [4, 0, 0, 0], current_version: [4, 0, 0, 0], epoch: GENESIS }
    );
    // The validators were activated before the forks were applied.
    assert_eq!(state.validators[1].activation_epoch, GENESIS);
}

const EMPTY_TREE_ROOT: [u8; 32] = [
    215, 10, 35, 71, 49, 40, 92, 104, 4, 194, 164, 245, 103, 17, 221, 184, 200, 44, 153, 116, 15, 32,
    120, 84, 137, 16, 40, 175, 52, 226, 126, 94,
];

#[test]
fn without_deposits_the_root_is_that_of_the_empty_tree() {
    let processing = Processing::new();
    let state = build(vec![], None, &spec(), &processing).unwrap();
    assert_eq!(state.eth1_data.deposit_root, Hash256 { bytes: EMPTY_TREE_ROOT });
    assert_eq!(
        state.eth1_data.deposit_root,
        DepositDataTree::create(&[], 0, DEPOSIT_TREE_DEPTH).root()
    );
    assert_eq!(state.eth1_data.deposit_count, 0);
    assert_eq!(state.eth1_data.block_hash, block_hash());
    assert!(state.validators.is_empty());
    assert_eq!(processing.calls(), vec!["caches", "root"]);
}

#[test]
fn taking_no_deposits_writes_the_root_of_the_empty_tree() {
    let processing = Processing::new();
    let eth1_data =
        Eth1Data { deposit_root: Hash256 { bytes: [1; 32] }, deposit_count: 0, block_hash: block_hash() };
    let state = BeaconState::new::<MinimalEthSpec>(5, eth1_data, &spec());
    let taken = process_genesis_deposits(state.clone(), &vec![], &spec(), &processing).unwrap();
    let mut expected = state;
    expected.eth1_data.deposit_root = Hash256 { bytes: EMPTY_TREE_ROOT };
    assert_eq!(taken, expected);
    assert_eq!(compute_empty_deposit_root(), Hash256 { bytes: EMPTY_TREE_ROOT });
}

#[test]
fn top_up_reaches_the_maximum() {
    let processing = Processing::new();
    let deposits = vec![deposit(1, 16 * GWEI), deposit(2, 31 * GWEI), deposit(1, 16 * GWEI)];
    let state = build(deposits, None, &spec(), &processing).unwrap();
    assert_eq!(state.validators.len(), 2);
    assert_eq!(state.balances, vec![32 * GWEI, 31 * GWEI]);
    assert_eq!(state.validators[0].activation_epoch, GENESIS);
    assert_eq!(state.validators[1].activation_epoch, FAR_FUTURE);
    assert_eq!(state.validators[1].activation_eligibility_epoch, FAR_FUTURE);
    assert_eq!(state.validators[1].effective_balance, 31 * GWEI);
    assert_eq!(state.eth1_data.deposit_count, 3);
}

#[test]
fn mainnet_seed_table_has_its_length() {
    let processing = Processing::new();
    let state = initialize_beacon_state_from_eth1::<MainnetEthSpec, Processing>(
        block_hash(),
        7,
        vec![deposit(1, 32 * GWEI)],
        None,
        &spec(),
        &processing,
    )
    .unwrap();
    assert_eq!(state.randao_mixes.len(), 65536);
    assert!(state.randao_mixes.iter().all(|mix| *mix == block_hash()));
    assert_eq!(state.genesis_time, 307);
}

#[test]
fn genesis_time_overflow_ends_the_construction() {
    let processing = Processing::new();
    let r = initialize_beacon_state_from_eth1::<MinimalEthSpec, Processing>(
        block_hash(),
        u64::MAX,
        vec![deposit(1, 32 * GWEI)],
        None,
        &spec(),
        &processing,
    );
    assert_eq!(r, Err(BlockProcessingError::ArithError(ArithError::Overflow)));
    assert!(processing.calls().is_empty());
}

#[test]
fn failed_deposit_ends_the_construction() {
    let mut processing = Processing::new();
    processing.fail_deposit_at = Some(1);
    let deposits = vec![deposit(1, 32 * GWEI), deposit(2, 32 * GWEI), deposit(3, 32 * GWEI)];
    let r = build(deposits, None, &spec(), &processing);
    assert_eq!(r, Err(BlockProcessingError::DepositInvalid { index: 1 }));
    assert_eq!(processing.calls(), vec!["deposit 0", "deposit 1"]);
}

#[test]
fn zero_increment_ends_the_construction() {
    let processing = Processing::new();
    let mut zero = spec();
    zero.effective_balance_increment = 0;
    let r = build(vec![deposit(1, 32 * GWEI)], None, &zero, &processing);
    assert_eq!(
        r,
        Err(BlockProcessingError::BeaconStateError(Error::ArithError(ArithError::DivisionByZero)))
    );
    assert_eq!(processing.calls(), vec!["deposit 0"]);
}

#[test]
fn failed_upgrade_ends_the_construction() {
    let mut processing = Processing::new();
    processing.fail_upgrade = Some(ForkName::Merge);
    let mut all = spec();
    all.altair_fork_epoch = Some(GENESIS);
    all.bellatrix_fork_epoch = Some(GENESIS);
    all.capella_fork_epoch = Some(GENESIS);
    let r = build(vec![deposit(1, 32 * GWEI)], None, &all, &processing);
    assert_eq!(r, Err(BlockProcessingError::BeaconStateError(Error::IncorrectStateVariant)));
    assert_eq!(processing.calls(), vec!["deposit 0", "upgrade Altair", "upgrade Merge"]);
}

#[test]
fn failed_caches_and_failed_root_end_the_construction() {
    let mut processing = Processing::new();
    processing.fail_caches = true;
    let r = build(vec![deposit(1, 32 * GWEI)], None, &spec(), &processing);
    assert_eq!(r, Err(BlockProcessingError::BeaconStateError(Error::CacheError)));
    assert_eq!(processing.calls(), vec!["deposit 0", "caches"]);

    let mut processing = Processing::new();
    processing.fail_root = true;
    let r = build(vec![deposit(1, 32 * GWEI)], None, &spec(), &processing);
    assert_eq!(r, Err(BlockProcessingError::BeaconStateError(Error::TreeHashError)));
    assert_eq!(processing.calls(), vec!["deposit 0", "caches", "root"]);
}

#[test]
fn fork_at_genesis_collapses_the_marker() {
    for (fork, version) in [
        (ForkName::Altair, [1, 0, 0, 0]),
        (ForkName::Merge, [2, 0, 0, 0]),
        (ForkName::Capella, [3, 0, 0, 0]),
        (ForkName::Deneb, [4, 0, 0, 0]),
    ] {
        let processing = Processing::new();
        let mut s = spec();
        match fork {
            ForkName::Altair => s.altair_fork_epoch = Some(GENESIS),
            ForkName::Merge => s.bellatrix_fork_epoch = Some(GENESIS),
            ForkName::Capella => s.capella_fork_epoch = Some(GENESIS),
            _ => s.deneb_fork_epoch = Some(GENESIS),
        }
        let state = build(vec![deposit(1, 32 * GWEI)], None, &s, &processing).unwrap();
        assert_eq!(
            state.fork,
            Fork { previous_version: version, current_version: version, epoch: GENESIS }
        );
        assert_eq!(processing.calls()[1], format!("upgrade {:?}", fork));
        assert_eq!(processing.calls().len(), 4);
    }
}

#[test]
fn fork_at_a_later_epoch_is_skipped() {
    let processing = Processing::new();
    let mut later = spec();
    later.altair_fork_epoch = Some(Epoch(1));
    later.bellatrix_fork_epoch = Some(Epoch(10));
    later.capella_fork_epoch = Some(FAR_FUTURE);
    let state = build(vec![deposit(1, 32 * GWEI)], None, &later, &processing).unwrap();
    assert_eq!(state.variant, StateVariant::Base);
    assert_eq!(state.fork.previous_version, [0, 0, 0, 0]);
    assert_eq!(state.fork.current_version, [0, 0, 0, 0]);
    assert_eq!(processing.calls(), vec!["deposit 0", "caches", "root"]);
}

#[test]
fn header_of_the_fork_replaces_the_header() {
    let processing = Processing::new();
    let mut s = spec();
    s.altair_fork_epoch = Some(GENESIS);
    s.bellatrix_fork_epoch = Some(GENESIS);
    let header = Some(ExecutionPayloadHeader::Merge(merge_header(7)));
    let state = build(vec![deposit(1, 32 * GWEI)], header, &s, &processing).unwrap();
    assert_eq!(state.variant, StateVariant::Merge { latest_execution_payload_header: merge_header(7) });
    assert_eq!(state.fork.previous_version, [2, 0, 0, 0]);

    let processing = Processing::new();
    s.capella_fork_epoch = Some(GENESIS);
    let header = Some(ExecutionPayloadHeader::Capella(capella_header(8)));
    let state = build(vec![deposit(1, 32 * GWEI)], header, &s, &processing).unwrap();
    assert_eq!(state.variant, StateVariant::Capella { latest_execution_payload_header: capella_header(8) });

    let processing = Processing::new();
    s.deneb_fork_epoch = Some(GENESIS);
    let header = Some(ExecutionPayloadHeader::Deneb(deneb_header(9)));
    let state = build(vec![deposit(1, 32 * GWEI)], header, &s, &processing).unwrap();
    assert_eq!(state.variant, StateVariant::Deneb { latest_execution_payload_header: deneb_header(9) });
    assert_eq!(state.fork.previous_version, [4, 0, 0, 0]);
}

#[test]
fn header_of_another_fork_is_ignored() {
    let processing = Processing::new();
    let mut s = spec();
    s.altair_fork_epoch = Some(GENESIS);
    s.bellatrix_fork_epoch = Some(GENESIS);
    // A Capella header, but the chain starts at Bellatrix.
    let header = Some(ExecutionPayloadHeader::Capella(capella_header(8)));
    let state = build(vec![deposit(1, 32 * GWEI)], header, &s, &processing).unwrap();
    assert_eq!(state.variant, StateVariant::Merge { latest_execution_payload_header: merge_header(0) });

    // A header, but no fork at genesis at all.
    let processing = Processing::new();
    let header = Some(ExecutionPayloadHeader::Merge(merge_header(7)));
    let state = build(vec![deposit(1, 32 * GWEI)], header, &spec(), &processing).unwrap();
    assert_eq!(state.variant, StateVariant::Base);
}

#[test]
fn header_of_an_earlier_fork_is_overwritten_by_the_next_upgrade() {
    let processing = Processing::new();
    let mut s = spec();
    s.bellatrix_fork_epoch = Some(GENESIS);
    s.capella_fork_epoch = Some(GENESIS);
    let header = Some(ExecutionPayloadHeader::Merge(merge_header(7)));
    let state = build(vec![deposit(1, 32 * GWEI)], header, &s, &processing).unwrap();
    assert_eq!(state.variant, StateVariant::Capella { latest_execution_payload_header: capella_header(0) });
    assert_eq!(state.fork.previous_version, [3, 0, 0, 0]);
}

#[test]
fn header_for_a_state_of_the_wrong_shape_is_an_error() {
    let mut processing = Processing::new();
    processing.keep_shape_in = Some(ForkName::Merge);
    let mut s = spec();
    s.bellatrix_fork_epoch = Some(GENESIS);
    let header = Some(ExecutionPayloadHeader::Merge(merge_header(7)));
    let r = build(vec![deposit(1, 32 * GWEI)], header, &s, &processing);
    assert_eq!(r, Err(BlockProcessingError::BeaconStateError(Error::IncorrectStateVariant)));
    assert_eq!(processing.calls(), vec!["deposit 0", "upgrade Merge"]);
}

#[test]
fn same_inputs_give_the_same_state() {
    let mut s = spec();
    s.altair_fork_epoch = Some(GENESIS);
    s.bellatrix_fork_epoch = Some(GENESIS);
    let deposits: Vec<Deposit> = (1..=9).map(|k| deposit(k % 4, (8 + k as u64) * GWEI)).collect();
    let header = Some(ExecutionPayloadHeader::Merge(merge_header(3)));
    let first = build(deposits.clone(), header, &s, &Processing::new());
    let second = build(deposits.clone(), header, &s, &Processing::new());
    assert!(first.is_ok());
    assert_eq!(first, second);
    let mut other = deposits;
    other[8].data.amount += 1;
    let third = build(other, header, &s, &Processing::new()).unwrap();
    assert_ne!(first.unwrap().eth1_data.deposit_root, third.eth1_data.deposit_root);
}

#[test]
fn deposits_alone_leave_the_validators_inactive() {
    let processing = Processing::new();
    let eth1_data = Eth1Data { deposit_root: Hash256::zero(), deposit_count: 2, block_hash: block_hash() };
    let state = BeaconState::new::<MinimalEthSpec>(5, eth1_data, &spec());
    let deposits = vec![deposit(1, 32 * GWEI), deposit(2, 32 * GWEI)];
    let state = process_genesis_deposits(state, &deposits, &spec(), &processing).unwrap();
    assert_eq!(state.validators.len(), 2);
    assert_eq!(state.validators[0].activation_epoch, FAR_FUTURE);
    assert_eq!(state.eth1_data.deposit_root, roots_after_each(&deposits)[1]);
    assert_eq!(state.eth1_data.deposit_count, 2);
}

#[test]
fn settle_fork_sets_the_previous_version() {
    let eth1_data = Eth1Data { deposit_root: Hash256::zero(), deposit_count: 0, block_hash: block_hash() };
    let mut state = BeaconState::new::<MinimalEthSpec>(5, eth1_data, &spec());
    state.fork.current_version = [3, 0, 0, 0];
    state.fork.previous_version = [2, 0, 0, 0];
    state.variant = StateVariant::Capella { latest_execution_payload_header: capella_header(1) };
    let before = state.clone();

    let settled = settle_fork(state.clone(), ForkName::Capella, None, &spec()).unwrap();
    assert_eq!(settled.fork.previous_version, [3, 0, 0, 0]);
    assert_eq!(settled.fork.current_version, [3, 0, 0, 0]);
    assert_eq!(settled.variant, before.variant);
    assert_eq!(settled.validators, before.validators);

    let header = Some(ExecutionPayloadHeader::Capella(capella_header(5)));
    let settled = settle_fork(state.clone(), ForkName::Capella, header, &spec()).unwrap();
    assert_eq!(settled.variant, StateVariant::Capella { latest_execution_payload_header: capella_header(5) });

    // The header has the shape of Deneb, the state that of Capella.
    let header = Some(ExecutionPayloadHeader::Deneb(deneb_header(5)));
    assert_eq!(
        settle_fork(state.clone(), ForkName::Deneb, header, &spec()),
        Err(BlockProcessingError::BeaconStateError(Error::IncorrectStateVariant))
    );
    // A header of another shape than the fork's is not looked at.
    let settled = settle_fork(state, ForkName::Merge, header, &spec()).unwrap();
    assert_eq!(settled.fork.previous_version, [2, 0, 0, 0]);
    assert_eq!(settled.variant, before.variant);
}

#[test]
fn fork_is_active_only_at_its_own_epoch() {
    let mut s = spec();
    s.altair_fork_epoch = Some(GENESIS);
    s.capella_fork_epoch = Some(Epoch(3));
    assert!(is_active_at(&s, ForkName::Altair, GENESIS));
    assert!(!is_active_at(&s, ForkName::Altair, Epoch(1)));
    assert!(!is_active_at(&s, ForkName::Merge, GENESIS));
    assert!(!is_active_at(&s, ForkName::Capella, GENESIS));
    assert!(is_active_at(&s, ForkName::Capella, Epoch(3)));
    assert!(!is_active_at(&s, ForkName::Base, GENESIS));
}

#[test]
fn one_fork_and_all_forks_on_a_state() {
    let eth1_data = Eth1Data { deposit_root: Hash256::zero(), deposit_count: 0, block_hash: block_hash() };
    let state = BeaconState::new::<MinimalEthSpec>(5, eth1_data, &spec());
    let mut s = spec();
    s.capella_fork_epoch = Some(GENESIS);

    let processing = Processing::new();
    let skipped =
        apply_genesis_fork::<MinimalEthSpec, Processing>(state.clone(), ForkName::Altair, None, &s, &processing);
    assert_eq!(skipped, Ok(state.clone()));
    assert!(processing.calls().is_empty());

    let upgraded =
        apply_genesis_fork::<MinimalEthSpec, Processing>(state.clone(), ForkName::Capella, None, &s, &processing)
            .unwrap();
    assert_eq!(upgraded.fork.previous_version, [3, 0, 0, 0]);
    assert_eq!(upgraded.fork.current_version, [3, 0, 0, 0]);

    let processing = Processing::new();
    let all = apply_genesis_forks::<MinimalEthSpec, Processing>(state.clone(), None, &s, &processing);
    assert_eq!(all, Ok(upgraded));
    assert_eq!(processing.calls(), vec!["upgrade Capella"]);

    let processing = Processing::new();
    let none = apply_genesis_forks::<MinimalEthSpec, Processing>(state.clone(), None, &spec(), &processing);
    assert_eq!(none, Ok(state));
}

#[test]
fn sealing_sets_the_validators_root() {
    let processing = Processing::new();
    let eth1_data = Eth1Data { deposit_root: Hash256::zero(), deposit_count: 0, block_hash: block_hash() };
    let state = BeaconState::new::<MinimalEthSpec>(5, eth1_data, &spec());
    let sealed = seal_genesis_state(state.clone(), &spec(), &processing).unwrap();
    let mut expected = state;
    expected.genesis_validators_root = processing.validators_tree_hash_root(&expected.validators).unwrap();
    assert_ne!(expected.genesis_validators_root, Hash256::zero());
    assert_eq!(sealed, expected);
}

#[test]
fn validity_at_the_threshold() {
    let mut s = spec();
    s.min_genesis_active_validator_count = 3;
    assert!(!genesis_validity(1_000, &Ok(vec![0, 1]), &s));
    assert!(genesis_validity(1_000, &Ok(vec![0, 1, 2]), &s));
    assert!(genesis_validity(1_000, &Ok(vec![0, 1, 2, 3]), &s));
    assert!(!genesis_validity(999, &Ok(vec![0, 1, 2]), &s));
    assert!(genesis_validity(u64::MAX, &Ok(vec![0, 1, 2]), &s));
    assert!(!genesis_validity(1_000, &Err(Error::EpochOutOfBounds), &s));
    s.min_genesis_active_validator_count = 0;
    assert!(genesis_validity(1_000, &Ok(vec![]), &s));
    assert!(!genesis_validity(1_000, &Err(Error::EpochOutOfBounds), &s));
}

#[test]
fn state_is_valid_at_exactly_the_minimum() {
    let processing = Processing::new();
    let deposits: Vec<Deposit> =
        vec![deposit(1, 32 * GWEI), deposit(2, 32 * GWEI), deposit(3, 31 * GWEI), deposit(4, 40 * GWEI)];
    let state = build(deposits, None, &spec(), &processing).unwrap();
    let mut s = spec();
    s.min_genesis_active_validator_count = 3;
    assert!(is_valid_genesis_state::<MinimalEthSpec, Processing>(&state, &s, &processing));
    s.min_genesis_active_validator_count = 4;
    assert!(!is_valid_genesis_state::<MinimalEthSpec, Processing>(&state, &s, &processing));
}

#[test]
fn failed_query_makes_the_state_invalid() {
    let mut processing = Processing::new();
    let state = build(vec![deposit(1, 32 * GWEI)], None, &spec(), &processing).unwrap();
    let mut s = spec();
    s.min_genesis_active_validator_count = 0;
    assert!(is_valid_genesis_state::<MinimalEthSpec, Processing>(&state, &s, &processing));
    processing.fail_active = true;
    assert!(!is_valid_genesis_state::<MinimalEthSpec, Processing>(&state, &s, &processing));
}
