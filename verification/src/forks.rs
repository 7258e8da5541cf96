//! The forks that may be active from genesis on, applied to the genesis state
//! one after the other in the order in which they were made.

use crate::errors::{BlockProcessingError, Error};
use crate::processing::{upgrade_returned, StateProcessing};
use crate::types::{
    BeaconState, ChainSpec, Epoch, EthSpec, ExecutionPayloadHeader, Fork, ForkName, StateVariant,
};
use vstd::prelude::*;

verus! {

/// The epoch at which the configuration activates a fork, if it does.
pub open spec fn fork_epoch(spec: ChainSpec, fork: ForkName) -> Option<Epoch> {
    match fork {
        ForkName::Base => None,
        ForkName::Altair => spec.altair_fork_epoch,
        ForkName::Merge => spec.bellatrix_fork_epoch,
        ForkName::Capella => spec.capella_fork_epoch,
        ForkName::Deneb => spec.deneb_fork_epoch,
    }
}

/// The version that the configuration gives a fork.
pub open spec fn fork_version(spec: ChainSpec, fork: ForkName) -> [u8; 4] {
    match fork {
        ForkName::Base => spec.genesis_fork_version,
        ForkName::Altair => spec.altair_fork_version,
        ForkName::Merge => spec.bellatrix_fork_version,
        ForkName::Capella => spec.capella_fork_version,
        ForkName::Deneb => spec.deneb_fork_version,
    }
}

/// The fork is active from genesis on: its epoch is set and is the genesis epoch.
pub open spec fn active_at_genesis(spec: ChainSpec, fork: ForkName, genesis_epoch: Epoch) -> bool {
    fork_epoch(spec, fork) == Some(genesis_epoch)
}

/// The fields of the given fork's shape that hold the given header, where the
/// header has that shape.
pub open spec fn header_for(fork: ForkName, header: Option<ExecutionPayloadHeader>) -> Option<StateVariant> {
    match (fork, header) {
        (ForkName::Merge, Some(ExecutionPayloadHeader::Merge(h))) => Some(
            StateVariant::Merge { latest_execution_payload_header: h },
        ),
        (ForkName::Capella, Some(ExecutionPayloadHeader::Capella(h))) => Some(
            StateVariant::Capella { latest_execution_payload_header: h },
        ),
        (ForkName::Deneb, Some(ExecutionPayloadHeader::Deneb(h))) => Some(
            StateVariant::Deneb { latest_execution_payload_header: h },
        ),
        _ => None,
    }
}

/// A state that was upgraded to a fork, settled in it: the previous version of
/// its fork marker is the fork's own, so that no fork between the one before
/// and this one shows, and a header given for this fork's shape takes the
/// place of the state's. Such a header is refused by a state of another shape.
pub open spec fn settled(
    upgraded: BeaconState,
    fork: ForkName,
    header: Option<ExecutionPayloadHeader>,
    spec: ChainSpec,
) -> Result<BeaconState, BlockProcessingError> {
    let fork_marker = Fork { previous_version: fork_version(spec, fork), ..upgraded.fork };
    match header_for(fork, header) {
        None => Ok(BeaconState { fork: fork_marker, ..upgraded }),
        Some(variant) => if upgraded.variant.fork_name() == fork {
            Ok(BeaconState { fork: fork_marker, variant, ..upgraded })
        } else {
            Err(BlockProcessingError::BeaconStateError(Error::IncorrectStateVariant))
        },
    }
}

/// Settles a state that was upgraded to a fork in that fork.
pub fn settle_fork(
    upgraded: BeaconState,
    fork: ForkName,
    header: Option<ExecutionPayloadHeader>,
    spec: &ChainSpec,
) -> (r: Result<BeaconState, BlockProcessingError>)
    ensures
        r == settled(upgraded, fork, header, *spec),
{
    let mut state = upgraded;
    state.fork.previous_version = match fork {
        ForkName::Base => spec.genesis_fork_version,
        ForkName::Altair => spec.altair_fork_version,
        ForkName::Merge => spec.bellatrix_fork_version,
        ForkName::Capella => spec.capella_fork_version,
        ForkName::Deneb => spec.deneb_fork_version,
    };
    match (fork, header) {
        (ForkName::Merge, Some(ExecutionPayloadHeader::Merge(h))) => {
            match state.variant {
                StateVariant::Merge { .. } => {
                    state.variant = StateVariant::Merge { latest_execution_payload_header: h };
                },
                _ => {
                    return Err(BlockProcessingError::BeaconStateError(Error::IncorrectStateVariant));
                },
            }
        },
        (ForkName::Capella, Some(ExecutionPayloadHeader::Capella(h))) => {
            match state.variant {
                StateVariant::Capella { .. } => {
                    state.variant = StateVariant::Capella { latest_execution_payload_header: h };
                },
                _ => {
                    return Err(BlockProcessingError::BeaconStateError(Error::IncorrectStateVariant));
                },
            }
        },
        (ForkName::Deneb, Some(ExecutionPayloadHeader::Deneb(h))) => {
            match state.variant {
                StateVariant::Deneb { .. } => {
                    state.variant = StateVariant::Deneb { latest_execution_payload_header: h };
                },
                _ => {
                    return Err(BlockProcessingError::BeaconStateError(Error::IncorrectStateVariant));
                },
            }
        },
        _ => {},
    }
    Ok(state)
}

/// Whether the configuration activates the fork at the given epoch.
pub fn is_active_at(spec: &ChainSpec, fork: ForkName, epoch: Epoch) -> (active: bool)
    ensures
        active == active_at_genesis(*spec, fork, epoch),
{
    let fork_epoch = match fork {
        ForkName::Base => None,
        ForkName::Altair => spec.altair_fork_epoch,
        ForkName::Merge => spec.bellatrix_fork_epoch,
        ForkName::Capella => spec.capella_fork_epoch,
        ForkName::Deneb => spec.deneb_fork_epoch,
    };
    match fork_epoch {
        Some(e) => e == epoch,
        None => false,
    }
}

/// `after` is what one fork leaves of `before`. A failure passes through. A
/// fork that is not active from genesis on leaves the state as it is. One that
/// is upgrades the state, and what the upgrade returned is settled in the fork.
pub open spec fn fork_applied<P: StateProcessing>(
    processing: &P,
    fork: ForkName,
    genesis_epoch: Epoch,
    header: Option<ExecutionPayloadHeader>,
    spec: &ChainSpec,
    before: Result<BeaconState, BlockProcessingError>,
    after: Result<BeaconState, BlockProcessingError>,
) -> bool {
    match before {
        Err(e) => after == Err::<BeaconState, BlockProcessingError>(e),
        Ok(state) => if !active_at_genesis(*spec, fork, genesis_epoch) {
            after == Ok::<BeaconState, BlockProcessingError>(state)
        } else {
            exists|upgraded: Result<BeaconState, Error>| #[trigger]
                upgrade_returned(processing, fork, state, spec, upgraded) && match upgraded {
                    Err(e) => after == Err::<BeaconState, BlockProcessingError>(
                        BlockProcessingError::BeaconStateError(e),
                    ),
                    Ok(u) => after == settled(u, fork, header, *spec),
                }
        },
    }
}

/// Applies one fork to the genesis state, if the fork is active from genesis on.
pub fn apply_genesis_fork<T: EthSpec, P: StateProcessing>(
    state: BeaconState,
    fork: ForkName,
    header: Option<ExecutionPayloadHeader>,
    spec: &ChainSpec,
    processing: &P,
) -> (r: Result<BeaconState, BlockProcessingError>)
    ensures
        fork_applied(processing, fork, T::spec_genesis_epoch(), header, spec, Ok(state), r),
{
    if !is_active_at(spec, fork, T::genesis_epoch()) {
        return Ok(state);
    }
    let upgraded = match fork {
        ForkName::Base => Ok(state),
        ForkName::Altair => processing.upgrade_to_altair(state, spec),
        ForkName::Merge => processing.upgrade_to_bellatrix(state, spec),
        ForkName::Capella => processing.upgrade_to_capella(state, spec),
        ForkName::Deneb => processing.upgrade_to_deneb(state, spec),
    };
    assert(upgrade_returned(processing, fork, state, spec, upgraded));
    match upgraded {
        Err(e) => Err(BlockProcessingError::BeaconStateError(e)),
        Ok(u) => settle_fork(u, fork, header, spec),
    }
}

/// `after` is what the forks leave of `before`: Altair, Bellatrix, Capella and
/// Deneb, each applied to what the one before it left.
pub open spec fn forks_applied<P: StateProcessing>(
    processing: &P,
    genesis_epoch: Epoch,
    header: Option<ExecutionPayloadHeader>,
    spec: &ChainSpec,
    before: Result<BeaconState, BlockProcessingError>,
    after: Result<BeaconState, BlockProcessingError>,
) -> bool {
    exists|
        altair: Result<BeaconState, BlockProcessingError>,
        bellatrix: Result<BeaconState, BlockProcessingError>,
        capella: Result<BeaconState, BlockProcessingError>,
    |
        {
            &&& #[trigger] fork_applied(processing, ForkName::Altair, genesis_epoch, header, spec, before, altair)
            &&& #[trigger] fork_applied(
                processing,
                ForkName::Merge,
                genesis_epoch,
                header,
                spec,
                altair,
                bellatrix,
            )
            &&& #[trigger] fork_applied(
                processing,
                ForkName::Capella,
                genesis_epoch,
                header,
                spec,
                bellatrix,
                capella,
            )
            &&& fork_applied(processing, ForkName::Deneb, genesis_epoch, header, spec, capella, after)
        }
}

/// Applies to the genesis state the forks that are active from genesis on,
/// in their order. The first failure ends it.
pub fn apply_genesis_forks<T: EthSpec, P: StateProcessing>(
    state: BeaconState,
    header: Option<ExecutionPayloadHeader>,
    spec: &ChainSpec,
    processing: &P,
) -> (r: Result<BeaconState, BlockProcessingError>)
    ensures
        forks_applied(processing, T::spec_genesis_epoch(), header, spec, Ok(state), r),
{
    let ghost epoch = T::spec_genesis_epoch();
    let altair = apply_genesis_fork::<T, P>(state, ForkName::Altair, header, spec, processing);
    let state = match altair {
        Ok(s) => s,
        Err(e) => {
            proof {
                let failed = Err::<BeaconState, BlockProcessingError>(e);
                assert(fork_applied(processing, ForkName::Merge, epoch, header, spec, failed, failed));
                assert(fork_applied(processing, ForkName::Capella, epoch, header, spec, failed, failed));
                assert(fork_applied(processing, ForkName::Deneb, epoch, header, spec, failed, failed));
            }
            return Err(e);
        },
    };
    let bellatrix = apply_genesis_fork::<T, P>(state, ForkName::Merge, header, spec, processing);
    let state = match bellatrix {
        Ok(s) => s,
        Err(e) => {
            proof {
                let failed = Err::<BeaconState, BlockProcessingError>(e);
                assert(fork_applied(processing, ForkName::Capella, epoch, header, spec, failed, failed));
                assert(fork_applied(processing, ForkName::Deneb, epoch, header, spec, failed, failed));
            }
            return Err(e);
        },
    };
    let capella = apply_genesis_fork::<T, P>(state, ForkName::Capella, header, spec, processing);
    let state = match capella {
        Ok(s) => s,
        Err(e) => {
            proof {
                let failed = Err::<BeaconState, BlockProcessingError>(e);
                assert(fork_applied(processing, ForkName::Deneb, epoch, header, spec, failed, failed));
            }
            return Err(e);
        },
    };
    apply_genesis_fork::<T, P>(state, ForkName::Deneb, header, spec, processing)
}

/// What the upgrade returned where a fork that is active from genesis on was
/// applied to a state: `after` is the failure of the upgrade, or the upgraded
/// state settled in the fork.
pub proof fn lemma_fork_upgrade<P: StateProcessing>(
    processing: &P,
    fork: ForkName,
    genesis_epoch: Epoch,
    header: Option<ExecutionPayloadHeader>,
    spec: &ChainSpec,
    before: BeaconState,
    after: Result<BeaconState, BlockProcessingError>,
) -> (upgraded: Result<BeaconState, Error>)
    requires
        active_at_genesis(*spec, fork, genesis_epoch),
        fork_applied(processing, fork, genesis_epoch, header, spec, Ok(before), after),
    ensures
        upgrade_returned(processing, fork, before, spec, upgraded),
        match upgraded {
            Err(e) => after == Err::<BeaconState, BlockProcessingError>(BlockProcessingError::BeaconStateError(e)),
            Ok(u) => after == settled(u, fork, header, *spec),
        },
{
    choose|upgraded: Result<BeaconState, Error>| #[trigger]
        upgrade_returned(processing, fork, before, spec, upgraded) && match upgraded {
            Err(e) => after == Err::<BeaconState, BlockProcessingError>(BlockProcessingError::BeaconStateError(e)),
            Ok(u) => after == settled(u, fork, header, *spec),
        }
}

/// What each fork but the last left, where the forks were applied.
pub struct ForkSteps {
    pub altair: Result<BeaconState, BlockProcessingError>,
    pub bellatrix: Result<BeaconState, BlockProcessingError>,
    pub capella: Result<BeaconState, BlockProcessingError>,
}

/// The steps by which the forks led from `before` to `after`. No step leaves
/// a state of a failure.
pub proof fn lemma_fork_steps<P: StateProcessing>(
    processing: &P,
    genesis_epoch: Epoch,
    header: Option<ExecutionPayloadHeader>,
    spec: &ChainSpec,
    before: Result<BeaconState, BlockProcessingError>,
    after: Result<BeaconState, BlockProcessingError>,
) -> (steps: ForkSteps)
    requires
        forks_applied(processing, genesis_epoch, header, spec, before, after),
    ensures
        fork_applied(processing, ForkName::Altair, genesis_epoch, header, spec, before, steps.altair),
        fork_applied(processing, ForkName::Merge, genesis_epoch, header, spec, steps.altair, steps.bellatrix),
        fork_applied(processing, ForkName::Capella, genesis_epoch, header, spec, steps.bellatrix, steps.capella),
        fork_applied(processing, ForkName::Deneb, genesis_epoch, header, spec, steps.capella, after),
        after is Ok ==> before is Ok && steps.altair is Ok && steps.bellatrix is Ok && steps.capella is Ok,
{
    let (altair, bellatrix, capella) = choose|
        altair: Result<BeaconState, BlockProcessingError>,
        bellatrix: Result<BeaconState, BlockProcessingError>,
        capella: Result<BeaconState, BlockProcessingError>,
    |
        {
            &&& #[trigger] fork_applied(processing, ForkName::Altair, genesis_epoch, header, spec, before, altair)
            &&& #[trigger] fork_applied(
                processing,
                ForkName::Merge,
                genesis_epoch,
                header,
                spec,
                altair,
                bellatrix,
            )
            &&& #[trigger] fork_applied(
                processing,
                ForkName::Capella,
                genesis_epoch,
                header,
                spec,
                bellatrix,
                capella,
            )
            &&& fork_applied(processing, ForkName::Deneb, genesis_epoch, header, spec, capella, after)
        };
    ForkSteps { altair, bellatrix, capella }
}

/// The place of a fork in the order in which the forks were made.
pub open spec fn fork_order(fork: ForkName) -> nat {
    match fork {
        ForkName::Base => 0,
        ForkName::Altair => 1,
        ForkName::Merge => 2,
        ForkName::Capella => 3,
        ForkName::Deneb => 4,
    }
}

/// The given fork is the last that is active from genesis on.
pub open spec fn last_active_at_genesis(spec: ChainSpec, fork: ForkName, genesis_epoch: Epoch) -> bool {
    &&& fork != ForkName::Base
    &&& active_at_genesis(spec, fork, genesis_epoch)
    &&& forall|later: ForkName|
        fork_order(later) > fork_order(fork) ==> !#[trigger] active_at_genesis(spec, later, genesis_epoch)
}

/// Every state that the upgrade to the given fork returns has that fork's shape.
pub open spec fn upgrade_gives_shape<P: StateProcessing>(processing: &P, fork: ForkName, spec: &ChainSpec) -> bool {
    forall|state: BeaconState, upgraded: BeaconState| #[trigger]
        upgrade_returned(processing, fork, state, spec, Ok(upgraded)) ==> upgraded.variant.fork_name() == fork
}

/// The current version of every state that the upgrade to the given fork
/// returns is that fork's own.
pub open spec fn upgrade_gives_version<P: StateProcessing>(processing: &P, fork: ForkName, spec: &ChainSpec) -> bool {
    forall|state: BeaconState, upgraded: BeaconState| #[trigger]
        upgrade_returned(processing, fork, state, spec, Ok(upgraded)) ==> upgraded.fork.current_version
            == fork_version(*spec, fork)
}

/// The fork marker and the shape of the state are those of the given fork:
/// the previous version is the fork's own; a header given for the fork's shape
/// is the header of the state; the state has the fork's shape where the
/// upgrade to the fork gives it; and the current version is the fork's own,
/// so that both versions are the same, where the upgrade gives it.
pub open spec fn settled_in<P: StateProcessing>(
    processing: &P,
    fork: ForkName,
    header: Option<ExecutionPayloadHeader>,
    spec: &ChainSpec,
    state: BeaconState,
) -> bool {
    &&& state.fork.previous_version == fork_version(*spec, fork)
    &&& header_for(fork, header) matches Some(variant) ==> state.variant == variant
    &&& header_for(fork, header) is Some ==> state.variant.fork_name() == fork
    &&& upgrade_gives_shape(processing, fork, spec) ==> state.variant.fork_name() == fork
    &&& upgrade_gives_version(processing, fork, spec) ==> state.fork.current_version == fork_version(
        *spec,
        fork,
    ) && state.fork.current_version == state.fork.previous_version
}

/// Where no fork is active from genesis on, the forks leave the state as it
/// is: it keeps the shape and the fork marker that it had, no upgrade is
/// applied to it, and a header that was given is not looked at.
pub proof fn lemma_no_fork_at_genesis<P: StateProcessing>(
    processing: &P,
    genesis_epoch: Epoch,
    header: Option<ExecutionPayloadHeader>,
    spec: &ChainSpec,
    state: BeaconState,
    after: Result<BeaconState, BlockProcessingError>,
)
    requires
        forall|fork: ForkName| fork != ForkName::Base ==> !#[trigger] active_at_genesis(*spec, fork, genesis_epoch),
        forks_applied(processing, genesis_epoch, header, spec, Ok(state), after),
    ensures
        after == Ok::<BeaconState, BlockProcessingError>(state),
{
    assert(!active_at_genesis(*spec, ForkName::Altair, genesis_epoch));
    assert(!active_at_genesis(*spec, ForkName::Merge, genesis_epoch));
    assert(!active_at_genesis(*spec, ForkName::Capella, genesis_epoch));
    assert(!active_at_genesis(*spec, ForkName::Deneb, genesis_epoch));
}

/// Where one fork that is active from genesis on leaves a state, the fork
/// marker and the shape of that state are the fork's.
pub proof fn lemma_fork_settled<P: StateProcessing>(
    processing: &P,
    fork: ForkName,
    genesis_epoch: Epoch,
    header: Option<ExecutionPayloadHeader>,
    spec: &ChainSpec,
    before: Result<BeaconState, BlockProcessingError>,
    after: BeaconState,
)
    requires
        fork != ForkName::Base,
        active_at_genesis(*spec, fork, genesis_epoch),
        fork_applied(processing, fork, genesis_epoch, header, spec, before, Ok(after)),
    ensures
        settled_in(processing, fork, header, spec, after),
{
    let upgraded = lemma_fork_upgrade(processing, fork, genesis_epoch, header, spec, before->Ok_0, Ok(after));
    assert(upgrade_returned(processing, fork, before->Ok_0, spec, Ok(upgraded->Ok_0)));
}

/// A fork that is not active from genesis on leaves a state as it is.
pub proof fn lemma_fork_skipped<P: StateProcessing>(
    processing: &P,
    fork: ForkName,
    genesis_epoch: Epoch,
    header: Option<ExecutionPayloadHeader>,
    spec: &ChainSpec,
    before: Result<BeaconState, BlockProcessingError>,
    after: BeaconState,
)
    requires
        !active_at_genesis(*spec, fork, genesis_epoch),
        fork_applied(processing, fork, genesis_epoch, header, spec, before, Ok(after)),
    ensures
        before == Ok::<BeaconState, BlockProcessingError>(after),
{
}

/// Where the forks leave a state, its fork marker and its shape are those of
/// the last fork that is active from genesis on, never those of a fork before
/// it.
pub proof fn lemma_last_fork_settled<P: StateProcessing>(
    processing: &P,
    fork: ForkName,
    genesis_epoch: Epoch,
    header: Option<ExecutionPayloadHeader>,
    spec: &ChainSpec,
    before: Result<BeaconState, BlockProcessingError>,
    after: BeaconState,
)
    requires
        last_active_at_genesis(*spec, fork, genesis_epoch),
        forks_applied(processing, genesis_epoch, header, spec, before, Ok(after)),
    ensures
        settled_in(processing, fork, header, spec, after),
{
    let steps = lemma_fork_steps(processing, genesis_epoch, header, spec, before, Ok(after));
    assert(fork_order(ForkName::Deneb) == 4 && fork_order(ForkName::Capella) == 3 && fork_order(ForkName::Merge) == 2);
    if fork == ForkName::Deneb {
        lemma_fork_settled(processing, fork, genesis_epoch, header, spec, steps.capella, after);
    } else {
        assert(!active_at_genesis(*spec, ForkName::Deneb, genesis_epoch));
        lemma_fork_skipped(processing, ForkName::Deneb, genesis_epoch, header, spec, steps.capella, after);
        if fork == ForkName::Capella {
            lemma_fork_settled(processing, fork, genesis_epoch, header, spec, steps.bellatrix, after);
        } else {
            assert(!active_at_genesis(*spec, ForkName::Capella, genesis_epoch));
            lemma_fork_skipped(processing, ForkName::Capella, genesis_epoch, header, spec, steps.bellatrix, after);
            if fork == ForkName::Merge {
                lemma_fork_settled(processing, fork, genesis_epoch, header, spec, steps.altair, after);
            } else {
                assert(!active_at_genesis(*spec, ForkName::Merge, genesis_epoch));
                lemma_fork_skipped(processing, ForkName::Merge, genesis_epoch, header, spec, steps.altair, after);
                lemma_fork_settled(processing, fork, genesis_epoch, header, spec, before, after);
            }
        }
    }
}

} // verus!
