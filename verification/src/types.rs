//! Identifiers, log positions and the error type shared by the device and the engine.
use crate::clock::{not_before, now};
use crate::reports::{CheckpointReport, GcReport};
use vstd::prelude::*;

verus! {

/// A generation number. Slots that are never reused stay in generation zero.
#[derive(Clone, Copy, Debug, PartialEq, Eq, Structural)]
pub struct Generation(pub u64);

/// The number a device gives to an accepted request.
#[derive(Clone, Copy, Debug, PartialEq, Eq, Structural)]
pub struct IoId(pub u64);

/// A byte position in the log.
#[derive(Clone, Copy, Debug, PartialEq, Eq, Structural)]
pub struct LogAddress(pub u64);

/// The number of a log page.
#[derive(Clone, Copy, Debug, PartialEq, Eq, Structural)]
pub struct PageId(pub u64);

/// The hash of a key.
#[derive(Clone, Copy, Debug, PartialEq, Eq, Structural)]
pub struct KeyHash(pub u64);

/// The number of an operation within its session.
#[derive(Clone, Copy, Debug, PartialEq, Eq, Structural)]
pub struct Serial(pub u64);

/// The version that separates two checkpoints.
#[derive(Clone, Copy, Debug, PartialEq, Eq, Structural)]
pub struct CheckpointVersion(pub u64);

/// The number of a global maintenance action.
#[derive(Clone, Copy, Debug, PartialEq, Eq, Structural)]
pub struct MaintenanceId(pub u64);

/// Compares two identities byte by byte.
pub fn same_identity(a: &[u8; 16], b: &[u8; 16]) -> (r: bool)
    ensures
        r == (*a == *b),
{
    let mut i: usize = 0;
    while i < 16
        invariant
            i <= 16,
            forall|j: int| 0 <= j < i ==> a@[j] == b@[j],
        decreases 16 - i,
    {
        if a[i] != b[i] {
            assert(a@[i as int] != b@[i as int]);
            return false;
        }
        i += 1;
    }
    assert(a@ =~= b@);
    assert(*a =~= *b);
    true
}

/// Whether an identity has a byte that is not zero.
pub open spec fn is_set(id: [u8; 16]) -> bool {
    exists|i: int| 0 <= i < 16 && #[trigger] id@[i] != 0
}

fn validate_identity(id: &[u8; 16]) -> (r: Result<(), Error>)
    ensures
        r == (if is_set(*id) {
            Ok::<(), Error>(())
        } else {
            Err::<(), Error>(Error::InvalidFormat("an identity must not be zero"))
        }),
{
    let mut i: usize = 0;
    while i < 16
        invariant
            i <= 16,
            forall|j: int| 0 <= j < i ==> #[trigger] id@[j] == 0,
        decreases 16 - i,
    {
        if id[i] != 0 {
            assert(id@[i as int] != 0);
            return Ok(());
        }
        i += 1;
    }
    Err(Error::InvalidFormat("an identity must not be zero"))
}

/// The identity of a store.
#[derive(Clone, Copy, Debug, PartialEq, Eq)]
pub struct StoreId(pub [u8; 16]);

impl StoreId {
    pub fn validate(&self) -> (r: Result<(), Error>)
        ensures
            r == (if is_set(self.0) {
                Ok::<(), Error>(())
            } else {
                Err::<(), Error>(Error::InvalidFormat("an identity must not be zero"))
            }),
    {
        validate_identity(&self.0)
    }

    pub fn same(&self, other: &StoreId) -> (r: bool)
        ensures
            r == (*self == *other),
    {
        same_identity(&self.0, &other.0)
    }
}

/// The identity of a session.
#[derive(Clone, Copy, Debug, PartialEq, Eq)]
pub struct SessionId(pub [u8; 16]);

impl SessionId {
    pub fn validate(&self) -> (r: Result<(), Error>)
        ensures
            r == (if is_set(self.0) {
                Ok::<(), Error>(())
            } else {
                Err::<(), Error>(Error::InvalidFormat("an identity must not be zero"))
            }),
    {
        validate_identity(&self.0)
    }

    pub fn same(&self, other: &SessionId) -> (r: bool)
        ensures
            r == (*self == *other),
    {
        same_identity(&self.0, &other.0)
    }
}

/// The identity of a checkpoint.
#[derive(Clone, Copy, Debug, PartialEq, Eq)]
pub struct CheckpointToken(pub [u8; 16]);

impl CheckpointToken {
    pub fn validate(&self) -> (r: Result<(), Error>)
        ensures
            r == (if is_set(self.0) {
                Ok::<(), Error>(())
            } else {
                Err::<(), Error>(Error::InvalidFormat("an identity must not be zero"))
            }),
    {
        validate_identity(&self.0)
    }

    pub fn same(&self, other: &CheckpointToken) -> (r: bool)
        ensures
            r == (*self == *other),
    {
        same_identity(&self.0, &other.0)
    }
}

/// The identity of a request: who issued it, and in which slot it waits.
#[derive(Clone, Copy, Debug, PartialEq, Eq)]
pub struct RequestId {
    pub store: StoreId,
    pub session: SessionId,
    pub slot: u64,
    pub generation: Generation,
}

impl RequestId {
    pub fn same(&self, other: &RequestId) -> (r: bool)
        ensures
            r == (*self == *other),
    {
        self.slot == other.slot && self.generation == other.generation && self.store.same(
            &other.store,
        ) && self.session.same(&other.session)
    }
}

/// What a failed operation did to the store.
#[derive(Clone, Copy, Debug, PartialEq, Eq, Structural)]
pub enum Effect {
    NotApplied,
    Applied,
    Unknown,
}

/// How far the retirement of a checkpoint has come.
#[derive(Clone, Copy, Debug, PartialEq, Eq, Structural)]
pub enum CheckpointRetirement {
    NotAttempted,
    PossiblyRetired,
    Retired,
}

/// The kinds of input and output errors.
#[derive(Clone, Copy, Debug, PartialEq, Eq, Structural)]
pub enum IoErrorKind {
    NotFound,
    PermissionDenied,
    AlreadyExists,
    WouldBlock,
    InvalidInput,
    InvalidData,
    TimedOut,
    WriteZero,
    Interrupted,
    Unsupported,
    UnexpectedEof,
    OutOfMemory,
    /// A kind without a name of its own here, with the number the system gave it.
    Other(i32),
}

/// Why an operation, a request or a maintenance action failed.
#[derive(Debug, PartialEq, Eq)]
pub enum Error {
    Busy,
    CapacityExceeded,
    OutOfMemory,
    RangeTruncated,
    UnsupportedDurability,
    DeadlineExceeded,
    SessionAbandoned,
    InvalidConfig { field: &'static str, reason: &'static str },
    InvalidState(&'static str),
    InvalidFormat(&'static str),
    Codec(&'static str),
    Unimplemented(&'static str),
    Io(IoErrorKind),
    GcFailed { begin: LogAddress, index_cleaned: bool, deleted_segments: u64, cause: Box<Error> },
    CompactionFailed {
        until: LogAddress,
        copied: u64,
        checkpoint: Option<Box<CheckpointReport>>,
        gc: Option<Box<GcReport>>,
        cause: Box<Error>,
    },
    CheckpointReleaseFailed {
        token: CheckpointToken,
        retirement: CheckpointRetirement,
        confirmed_absent_materials: u64,
        cause: Box<Error>,
    },
}

impl Error {
    pub fn unimplemented(what: &'static str) -> (r: Error)
        ensures
            r == Error::Unimplemented(what),
    {
        Error::Unimplemented(what)
    }
}

/// A request that was not accepted, handed back whole.
#[derive(Debug)]
pub struct Rejected<T> {
    pub request: T,
    pub reason: Error,
}

/// The cause of a failed operation, and what the operation did before it failed.
#[derive(Debug, PartialEq, Eq)]
pub struct OperationError {
    pub cause: Error,
    pub effect: Effect,
}

/// How an operation ended that did not fail.
#[derive(Debug, PartialEq, Eq)]
pub enum Outcome<T> {
    Success(T),
    NotFound,
    Aborted(&'static str),
}

pub type OperationResult<T> = Result<Outcome<T>, OperationError>;

/// How many items one call may handle: at least one.
#[derive(Clone, Copy, Debug, PartialEq, Eq)]
pub struct PollBudget {
    count: usize,
}

impl PollBudget {
    #[verifier::type_invariant]
    spec fn positive(self) -> bool {
        self.count > 0
    }

    pub closed spec fn view(self) -> nat {
        self.count as nat
    }

    /// A budget of `count` items, unless `count` is zero.
    pub fn new(count: usize) -> (r: Option<PollBudget>)
        ensures
            count == 0 <==> r is None,
            r matches Some(budget) ==> budget@ == count,
    {
        if count == 0 {
            None
        } else {
            Some(PollBudget { count })
        }
    }

    pub fn get(&self) -> (r: usize)
        ensures
            r == self@,
            r > 0,
    {
        proof {
            use_type_invariant(self);
        }
        self.count
    }
}

impl Default for PollBudget {
    fn default() -> (r: PollBudget)
        ensures
            r@ == 64,
    {
        PollBudget { count: 64 }
    }
}

/// The point in time by which an action has to end.
#[derive(Clone, Copy, Debug)]
pub struct Deadline(pub std::time::Instant);

impl Deadline {
    /// Whether the clock has reached the deadline. This depends on the time of the call.
    pub(crate) fn expired(&self) -> bool {
        not_before(&now(), &self.0)
    }
}

/// An identity is set unless all of its bytes are zero.
pub proof fn law_only_zero_is_unset(id: [u8; 16])
    ensures
        !is_set(id) <==> forall|i: int| 0 <= i < 16 ==> #[trigger] id@[i] == 0,
{
}

} // verus!
