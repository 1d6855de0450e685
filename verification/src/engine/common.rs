//! What all maintenance actions share: the phases of the coordinator, the frontiers of the log, and
//! how a step goes on.
use crate::device::DeviceCapabilities;
use crate::types::{CheckpointVersion, Error, LogAddress, MaintenanceId};
use vstd::prelude::*;

verus! {

/// The phases of the global maintenance action.
#[derive(Clone, Copy, Debug, PartialEq, Eq, Structural)]
pub enum Phase {
    Rest,
    PrepareIndex,
    IndexSnapshot,
    Prepare,
    InProgress,
    WaitPending,
    WaitFlush,
    Publish,
    GcIo,
    GcIndex,
    GrowPrepare,
    GrowCopy,
    Compacting,
    ReclaimCheckpoint,
    Failed,
}

/// The global maintenance actions.
#[derive(Clone, Copy, Debug, PartialEq, Eq, Structural)]
pub enum Action {
    CheckpointFull,
    CheckpointIndex,
    CheckpointLog,
    Gc,
    GrowIndex,
    Compact,
    ReleaseCheckpoint,
}

/// What the coordinator says of itself.
#[derive(Clone, Copy, Debug, PartialEq, Eq, Structural)]
pub struct CoordinatorState {
    pub id: Option<MaintenanceId>,
    pub action: Option<Action>,
    pub phase: Phase,
    pub version: CheckpointVersion,
}

/// The positions that divide the log.
#[derive(Clone, Copy, Debug, PartialEq, Eq, Structural)]
pub struct Frontiers {
    pub begin: LogAddress,
    pub head: LogAddress,
    pub safe_head: LogAddress,
    pub flushed_until: LogAddress,
    pub safe_read_only: LogAddress,
    pub read_only: LogAddress,
    pub tail: LogAddress,
}

/// What an attempt at a lock found.
#[derive(Clone, Copy, Debug, PartialEq, Eq, Structural)]
pub enum Gate {
    Free,
    Held,
    Poisoned,
}

/// How a step goes on after a reply.
#[derive(Clone, Copy, Debug, PartialEq, Eq, Structural)]
pub enum Flow {
    /// There is a further call.
    More,
    /// The step is over. It says whether anything advanced.
    Ended(bool),
}

/// A step that fails with anything but a busy resource fails; a busy one ends the step.
pub open spec fn retried(error: Error) -> Result<Flow, Error> {
    if error == Error::Busy {
        Ok(Flow::Ended(false))
    } else {
        Err(error)
    }
}

pub fn retry(error: Error) -> (r: Result<Flow, Error>)
    ensures
        r == retried(error),
{
    match error {
        Error::Busy => Ok(Flow::Ended(false)),
        error => Err(error),
    }
}

/// Whether a job is worked on whose lock is in this state: not while another holds the lock.
/// `poisoned` says what a broken lock is reported as, and `due` whether there is anything to do.
pub open spec fn entered(gate: Gate, poisoned: &'static str, due: bool) -> Result<bool, Error> {
    match gate {
        Gate::Free => Ok(due),
        Gate::Held => Ok(false),
        Gate::Poisoned => Err(Error::InvalidState(poisoned)),
    }
}

pub fn enter(gate: Gate, poisoned: &'static str, due: bool) -> (r: Result<bool, Error>)
    ensures
        r == entered(gate, poisoned, due),
{
    match gate {
        Gate::Free => Ok(due),
        Gate::Held => Ok(false),
        Gate::Poisoned => Err(Error::InvalidState(poisoned)),
    }
}

/// Whether an error means that the state of the engine itself is broken.
pub fn is_invalid_state(error: &Error) -> (r: bool)
    ensures
        r == (*error is InvalidState),
{
    match error {
        Error::InvalidState(_) => true,
        _ => false,
    }
}

/// Whether a device can keep a checkpoint.
pub open spec fn keeps_checkpoints(caps: DeviceCapabilities) -> bool {
    &&& caps.supports_files
    &&& caps.supports_file_sync
    &&& caps.supports_directory_sync
    &&& caps.supports_atomic_publish
    &&& caps.supports_file_locks
    &&& caps.transfer_alignment == 1
}

/// Checks that a device can keep a checkpoint.
pub fn checkpoint_capabilities(caps: &DeviceCapabilities) -> (r: Result<(), Error>)
    ensures
        r == (if keeps_checkpoints(*caps) {
            Ok::<(), Error>(())
        } else {
            Err::<(), Error>(Error::UnsupportedDurability)
        }),
{
    if !caps.supports_files || !caps.supports_file_sync || !caps.supports_directory_sync
        || !caps.supports_atomic_publish || !caps.supports_file_locks || caps.transfer_alignment
        != 1 {
        return Err(Error::UnsupportedDurability);
    }
    Ok(())
}

/// The start of the page in which `address` lies.
pub open spec fn page_start(address: LogAddress, page_bytes: u64) -> LogAddress {
    LogAddress((address.0 as int / page_bytes as int * page_bytes as int) as u64)
}

pub fn page_start_of(address: LogAddress, page_bytes: u64) -> (r: LogAddress)
    requires
        page_bytes > 0,
    ensures
        r == page_start(address, page_bytes),
        r.0 <= address.0 < r.0 + page_bytes,
        r.0 as int % page_bytes as int == 0,
{
    proof {
        let a = address.0 as int;
        let p = page_bytes as int;
        vstd::arithmetic::div_mod::lemma_fundamental_div_mod(a, p);
        vstd::arithmetic::div_mod::lemma_mod_multiples_basic(a / p, p);
        assert(p * (a / p) == a / p * p) by (nonlinear_arith);
        assert(0 <= a / p * p <= a);
    }
    LogAddress(address.0 / page_bytes * page_bytes)
}

/// Only a busy resource ends a step without an error, and then nothing advanced; every other error is
/// passed on as it is.
pub proof fn law_only_busy_is_retried(error: Error)
    ensures
        retried(error) is Ok <==> error == Error::Busy,
        retried(error) matches Ok(flow) ==> flow == Flow::Ended(false),
        retried(error) matches Err(e) ==> e == error,
{
}

/// A job is worked on exactly when its lock is free and there is something to do; a held lock is no
/// error, and a broken one always is.
pub proof fn law_entered_when_free(gate: Gate, poisoned: &'static str, due: bool)
    ensures
        entered(gate, poisoned, due) == Ok::<bool, Error>(true) <==> gate == Gate::Free && due,
        entered(gate, poisoned, due) is Err <==> gate == Gate::Poisoned,
        entered(gate, poisoned, due) matches Err(error) ==> error == Error::InvalidState(poisoned),
{
}

/// A device that lacks any one of what a checkpoint needs keeps none.
pub proof fn law_checkpoints_need_all(caps: DeviceCapabilities)
    ensures
        !caps.supports_files ==> !keeps_checkpoints(caps),
        !caps.supports_file_sync ==> !keeps_checkpoints(caps),
        !caps.supports_directory_sync ==> !keeps_checkpoints(caps),
        !caps.supports_atomic_publish ==> !keeps_checkpoints(caps),
        !caps.supports_file_locks ==> !keeps_checkpoints(caps),
        caps.transfer_alignment != 1 ==> !keeps_checkpoints(caps),
        caps.supports_files && caps.supports_file_sync && caps.supports_directory_sync
            && caps.supports_atomic_publish && caps.supports_file_locks && caps.transfer_alignment == 1
            ==> keeps_checkpoints(caps),
{
}

/// The start of a page is the last multiple of its size that is not past the address.
pub proof fn law_page_start(address: LogAddress, page_bytes: u64)
    requires
        page_bytes > 0,
    ensures
        page_start(address, page_bytes).0 as int % page_bytes as int == 0,
        page_start(address, page_bytes).0 <= address.0,
        address.0 < page_start(address, page_bytes).0 + page_bytes,
{
    let a = address.0 as int;
    let p = page_bytes as int;
    vstd::arithmetic::div_mod::lemma_fundamental_div_mod(a, p);
    vstd::arithmetic::div_mod::lemma_mod_multiples_basic(a / p, p);
    assert(p * (a / p) == a / p * p) by (nonlinear_arith);
    assert(0 <= a / p * p <= a);
}

} // verus!
