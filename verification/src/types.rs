//! The data model: hashes, epochs, the chain configuration, validators,
//! deposits and the beacon state.

use vstd::prelude::*;

verus! {

/// A 32-byte digest.
#[derive(Debug, Clone, Copy, PartialEq, Eq, Hash)]
pub struct Hash256 {
    pub bytes: [u8; 32],
}

impl View for Hash256 {
    type V = Seq<u8>;

    open spec fn view(&self) -> Seq<u8> {
        self.bytes@
    }
}

/// The digest that holds the given 32 bytes.
pub open spec fn hash_of_bytes(bytes: Seq<u8>) -> Hash256 {
    choose|h: Hash256| h@ == bytes
}

/// A digest is determined by its bytes.
pub proof fn lemma_hash_of_view(h: Hash256)
    ensures
        hash_of_bytes(h@) == h,
        h@.len() == 32,
{
    let g = hash_of_bytes(h@);
    assert(g@ == h@);
    assert(g.bytes =~= h.bytes);
}

/// Thirty-two zero bytes.
pub open spec fn zero_bytes() -> Seq<u8> {
    Seq::new(32, |i: int| 0u8)
}

impl Hash256 {
    /// The all-zero digest.
    pub open spec fn spec_zero() -> Hash256 {
        hash_of_bytes(zero_bytes())
    }

    /// The all-zero digest.
    pub fn zero() -> (h: Hash256)
        ensures
            h == Self::spec_zero(),
            h@ == zero_bytes(),
    {
        let h = Hash256 { bytes: [0u8; 32] };
        assert(h@ =~= zero_bytes());
        proof {
            lemma_hash_of_view(h);
        }
        h
    }
}

/// An epoch number.
#[derive(Debug, Clone, Copy, PartialEq, Eq, Structural)]
pub struct Epoch(pub u64);

/// The compile-time parameters of a network.
pub trait EthSpec {
    /// The epoch at which the chain begins.
    spec fn spec_genesis_epoch() -> Epoch;

    /// The number of entries of the randomness seed table.
    spec fn spec_epochs_per_historical_vector() -> usize;

    fn genesis_epoch() -> (e: Epoch)
        ensures
            e == Self::spec_genesis_epoch(),
    ;

    fn epochs_per_historical_vector() -> (n: usize)
        ensures
            n == Self::spec_epochs_per_historical_vector(),
    ;
}

/// The parameters of the main network.
#[derive(Debug, Clone, Copy, PartialEq, Eq)]
pub struct MainnetEthSpec;

impl EthSpec for MainnetEthSpec {
    open spec fn spec_genesis_epoch() -> Epoch {
        Epoch(0)
    }

    open spec fn spec_epochs_per_historical_vector() -> usize {
        65536
    }

    fn genesis_epoch() -> (e: Epoch) {
        Epoch(0)
    }

    fn epochs_per_historical_vector() -> (n: usize) {
        65536
    }
}

/// The parameters of the minimal test network.
#[derive(Debug, Clone, Copy, PartialEq, Eq)]
pub struct MinimalEthSpec;

impl EthSpec for MinimalEthSpec {
    open spec fn spec_genesis_epoch() -> Epoch {
        Epoch(0)
    }

    open spec fn spec_epochs_per_historical_vector() -> usize {
        64
    }

    fn genesis_epoch() -> (e: Epoch) {
        Epoch(0)
    }

    fn epochs_per_historical_vector() -> (n: usize) {
        64
    }
}

/// The run-time configuration of a chain.
#[derive(Debug, Clone, Copy, PartialEq, Eq)]
pub struct ChainSpec {
    pub far_future_epoch: Epoch,
    pub min_genesis_active_validator_count: u64,
    pub min_genesis_time: u64,
    pub genesis_delay: u64,
    pub effective_balance_increment: u64,
    pub max_effective_balance: u64,
    pub genesis_fork_version: [u8; 4],
    pub altair_fork_version: [u8; 4],
    pub altair_fork_epoch: Option<Epoch>,
    pub bellatrix_fork_version: [u8; 4],
    pub bellatrix_fork_epoch: Option<Epoch>,
    pub capella_fork_version: [u8; 4],
    pub capella_fork_epoch: Option<Epoch>,
    pub deneb_fork_version: [u8; 4],
    pub deneb_fork_epoch: Option<Epoch>,
}

/// The fork marker of a state.
#[derive(Debug, Clone, Copy, PartialEq, Eq)]
pub struct Fork {
    pub previous_version: [u8; 4],
    pub current_version: [u8; 4],
    pub epoch: Epoch,
}

/// The anchor record: the commitment to the deposits made on the external chain.
#[derive(Debug, Clone, Copy, PartialEq, Eq)]
pub struct Eth1Data {
    pub deposit_root: Hash256,
    pub deposit_count: u64,
    pub block_hash: Hash256,
}

/// A participant of the chain.
#[derive(Debug, Clone, Copy, PartialEq, Eq)]
pub struct Validator {
    pub pubkey: [u8; 48],
    pub withdrawal_credentials: Hash256,
    pub effective_balance: u64,
    pub slashed: bool,
    pub activation_eligibility_epoch: Epoch,
    pub activation_epoch: Epoch,
    pub exit_epoch: Epoch,
    pub withdrawable_epoch: Epoch,
}

/// What a deposit commits to.
#[derive(Debug, Clone, Copy, PartialEq, Eq)]
pub struct DepositData {
    pub pubkey: [u8; 48],
    pub withdrawal_credentials: Hash256,
    pub amount: u64,
    pub signature: [u8; 96],
}

/// A deposit, with the proof of its inclusion on the external chain.
#[derive(Debug, Clone, PartialEq, Eq)]
pub struct Deposit {
    pub proof: Vec<Hash256>,
    pub data: DepositData,
}

/// The header of the execution environment as of the Bellatrix fork.
#[derive(Debug, Clone, Copy, PartialEq, Eq)]
pub struct ExecutionPayloadHeaderMerge {
    pub parent_hash: Hash256,
    pub state_root: Hash256,
    pub receipts_root: Hash256,
    pub prev_randao: Hash256,
    pub block_number: u64,
    pub gas_limit: u64,
    pub gas_used: u64,
    pub timestamp: u64,
    pub block_hash: Hash256,
    pub transactions_root: Hash256,
}

/// The header of the execution environment as of the Capella fork.
#[derive(Debug, Clone, Copy, PartialEq, Eq)]
pub struct ExecutionPayloadHeaderCapella {
    pub parent_hash: Hash256,
    pub state_root: Hash256,
    pub receipts_root: Hash256,
    pub prev_randao: Hash256,
    pub block_number: u64,
    pub gas_limit: u64,
    pub gas_used: u64,
    pub timestamp: u64,
    pub block_hash: Hash256,
    pub transactions_root: Hash256,
    pub withdrawals_root: Hash256,
}

/// The header of the execution environment as of the Deneb fork.
#[derive(Debug, Clone, Copy, PartialEq, Eq)]
pub struct ExecutionPayloadHeaderDeneb {
    pub parent_hash: Hash256,
    pub state_root: Hash256,
    pub receipts_root: Hash256,
    pub prev_randao: Hash256,
    pub block_number: u64,
    pub gas_limit: u64,
    pub gas_used: u64,
    pub timestamp: u64,
    pub block_hash: Hash256,
    pub transactions_root: Hash256,
    pub withdrawals_root: Hash256,
    pub blob_gas_used: u64,
    pub excess_blob_gas: u64,
}

/// A header of the execution environment, tagged by the fork whose shape it has.
#[derive(Debug, Clone, Copy, PartialEq, Eq)]
pub enum ExecutionPayloadHeader {
    Merge(ExecutionPayloadHeaderMerge),
    Capella(ExecutionPayloadHeaderCapella),
    Deneb(ExecutionPayloadHeaderDeneb),
}

/// The forks that a state can have the shape of, in chronological order.
#[derive(Debug, Clone, Copy, PartialEq, Eq, Structural)]
pub enum ForkName {
    Base,
    Altair,
    Merge,
    Capella,
    Deneb,
}

/// The fields of a state whose shape depends on the fork.
#[derive(Debug, Clone, Copy, PartialEq, Eq)]
pub enum StateVariant {
    Base,
    Altair,
    Merge { latest_execution_payload_header: ExecutionPayloadHeaderMerge },
    Capella { latest_execution_payload_header: ExecutionPayloadHeaderCapella },
    Deneb { latest_execution_payload_header: ExecutionPayloadHeaderDeneb },
}

impl StateVariant {
    /// The fork whose shape these fields have.
    pub open spec fn fork_name(self) -> ForkName {
        match self {
            StateVariant::Base => ForkName::Base,
            StateVariant::Altair => ForkName::Altair,
            StateVariant::Merge { .. } => ForkName::Merge,
            StateVariant::Capella { .. } => ForkName::Capella,
            StateVariant::Deneb { .. } => ForkName::Deneb,
        }
    }
}

/// The state of the chain.
#[derive(Debug, Clone, PartialEq, Eq)]
pub struct BeaconState {
    pub genesis_time: u64,
    pub genesis_validators_root: Hash256,
    pub fork: Fork,
    pub eth1_data: Eth1Data,
    pub validators: Vec<Validator>,
    pub balances: Vec<u64>,
    pub randao_mixes: Vec<Hash256>,
    pub variant: StateVariant,
}

/// A state as a mathematical value.
pub struct BeaconStateView {
    pub genesis_time: u64,
    pub genesis_validators_root: Hash256,
    pub fork: Fork,
    pub eth1_data: Eth1Data,
    pub validators: Seq<Validator>,
    pub balances: Seq<u64>,
    pub randao_mixes: Seq<Hash256>,
    pub variant: StateVariant,
}

impl View for BeaconState {
    type V = BeaconStateView;

    open spec fn view(&self) -> BeaconStateView {
        BeaconStateView {
            genesis_time: self.genesis_time,
            genesis_validators_root: self.genesis_validators_root,
            fork: self.fork,
            eth1_data: self.eth1_data,
            validators: self.validators@,
            balances: self.balances@,
            randao_mixes: self.randao_mixes@,
            variant: self.variant,
        }
    }
}

impl BeaconStateView {
    /// Validators and balances are aligned by index.
    pub open spec fn aligned(self) -> bool {
        self.validators.len() == self.balances.len()
    }
}

/// The state that the construction of a genesis state starts from: of the
/// base shape, without validators, and with its randomness seed table filled
/// with the zero digest.
pub open spec fn new_state<T: EthSpec>(genesis_time: u64, eth1_data: Eth1Data, spec: ChainSpec) -> BeaconStateView {
    BeaconStateView {
        genesis_time,
        genesis_validators_root: Hash256::spec_zero(),
        fork: Fork {
            previous_version: spec.genesis_fork_version,
            current_version: spec.genesis_fork_version,
            epoch: T::spec_genesis_epoch(),
        },
        eth1_data,
        validators: Seq::empty(),
        balances: Seq::empty(),
        randao_mixes: Seq::new(T::spec_epochs_per_historical_vector() as nat, |i: int| Hash256::spec_zero()),
        variant: StateVariant::Base,
    }
}

impl BeaconState {
    /// Makes the state that the construction of a genesis state starts from.
    pub fn new<T: EthSpec>(genesis_time: u64, eth1_data: Eth1Data, spec: &ChainSpec) -> (state: BeaconState)
        ensures
            state@ == new_state::<T>(genesis_time, eth1_data, *spec),
            state@.aligned(),
    {
        let zero = Hash256::zero();
        let length = T::epochs_per_historical_vector();
        let mut randao_mixes: Vec<Hash256> = Vec::new();
        let mut i: usize = 0;
        while i < length
            invariant
                i <= length,
                randao_mixes@.len() == i,
                forall|j: int| 0 <= j < i ==> #[trigger] randao_mixes@[j] == zero,
            decreases length - i,
        {
            randao_mixes.push(zero);
            i += 1;
        }
        let state = BeaconState {
            genesis_time,
            genesis_validators_root: zero,
            fork: Fork {
                previous_version: spec.genesis_fork_version,
                current_version: spec.genesis_fork_version,
                epoch: T::genesis_epoch(),
            },
            eth1_data,
            validators: Vec::new(),
            balances: Vec::new(),
            randao_mixes,
            variant: StateVariant::Base,
        };
        assert(state@.randao_mixes =~= new_state::<T>(genesis_time, eth1_data, *spec).randao_mixes);
        assert(state@.validators =~= Seq::empty());
        assert(state@.balances =~= Seq::empty());
        state
    }

    /// Sets every entry of the randomness seed table to the given digest.
    pub fn fill_randao_mixes_with(&mut self, index_root: Hash256)
        ensures
            final(self)@ == (BeaconStateView {
                randao_mixes: Seq::new(old(self)@.randao_mixes.len(), |i: int| index_root),
                ..old(self)@
            }),
    {
        let length = self.randao_mixes.len();
        let mut i: usize = 0;
        while i < length
            invariant
                i <= length,
                self.randao_mixes@.len() == length,
                length == old(self)@.randao_mixes.len(),
                forall|j: int| 0 <= j < i ==> #[trigger] self.randao_mixes@[j] == index_root,
                self@ == (BeaconStateView { randao_mixes: self@.randao_mixes, ..old(self)@ }),
            decreases length - i,
        {
            self.randao_mixes.set(i, index_root);
            i += 1;
        }
        assert(self@.randao_mixes =~= Seq::new(old(self)@.randao_mixes.len(), |i: int| index_root));
    }
}

} // verus!
