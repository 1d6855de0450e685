//! Copies one record to the end of the log, if it is still the newest of its key. The source is
//! looked up again, and the copy is published only where the index has not changed since. Between
//! two steps a copy holds only what it owns.
use crate::allocation::{reserve, Memory};
use crate::device::path::same_bytes;
use crate::device::IoCompletion;
use crate::engine::common::{Action, CoordinatorState, Frontiers, Gate, Phase};
use crate::engine::index::{EntrySnapshot, PublishResult, Resolved};
use crate::engine::io_hub::{give_back_error, given_back, CompletionHub, HubModel};
use crate::engine::metrics::{Completed, Kind, Metrics, MetricsModel, Monitor};
use crate::types::{
    CheckpointVersion, Effect, Error, KeyHash, LogAddress, MaintenanceId, RequestId, SessionId,
};
use vstd::prelude::*;

verus! {

/// How a step of a copy ended.
#[derive(Clone, Copy, Debug, PartialEq, Eq, Structural)]
pub enum CopyResult {
    Copied(LogAddress),
    /// The record is not the newest of its key.
    Obsolete,
    Retry,
}

/// The call that a step waits for.
#[derive(Clone, Copy, Debug, PartialEq, Eq, Structural)]
pub enum CopyCall {
    /// No step is under way.
    Idle,
    /// Look whether the version permit lets the copy go on.
    Permit,
    /// Take the lock of the key.
    Gate,
    /// Take what the device completed.
    Take,
    /// Hand the completion to the lookup.
    Complete,
    /// Find the entry of the key.
    Resolve,
    /// Start a lookup of the key along the chain.
    StartLookup { head: Option<LogAddress> },
    StepLookup,
    /// Find the entry once more, after the lookup.
    Confirm,
    /// Read the record that the lookup found.
    ReadSource,
    /// Look where the log begins, for a source that was not there.
    Frontiers,
    ReserveTombstone { head: Option<LogAddress> },
    /// Decode the value and plan its layout.
    Plan,
    /// Check that a record of this size can exist.
    Fits,
    Allocate { head: Option<LogAddress> },
    /// Write the value into what was allocated.
    WriteValue,
    /// The log is full: look whether it can be moved to files.
    SupportsFiles,
    /// Give the record its version and its address.
    Initialize,
    /// Replace the entry by the address.
    Publish { address: LogAddress },
    /// Take back a record that was not published.
    Retire { address: LogAddress },
}

/// What a step of a lookup found.
#[derive(Clone, Copy, Debug, PartialEq, Eq, Structural)]
pub enum LookupStep {
    AwaitingIo,
    Continue,
    /// A record with a value.
    Present,
    Tombstone,
    Missing,
    /// A value that is still being written.
    Active,
}

/// What is read of the source record.
#[derive(Debug, PartialEq, Eq)]
pub struct SourceRecord {
    pub key: Vec<u8>,
    pub version: CheckpointVersion,
    pub invalid: bool,
    pub tombstone: bool,
    pub previous: Option<LogAddress>,
}

/// The reply to a call that did not fail.
#[derive(Debug)]
pub enum CopyReply {
    Done,
    Flag(bool),
    Gate(Gate),
    Resolved(Resolved),
    Lookup { step: LookupStep, matched: Option<LogAddress> },
    Source(Result<SourceRecord, Error>),
    Frontiers(Frontiers),
    Address(LogAddress),
    Publish(PublishResult),
}

impl CopyReply {
    /// Whether this is the kind of reply that `call` gets.
    pub open spec fn answers(self, call: CopyCall) -> bool {
        match call {
            CopyCall::Idle => false,
            CopyCall::Permit => self is Flag,
            CopyCall::Gate => self is Gate,
            CopyCall::Take => self is Flag,
            CopyCall::Resolve => self is Resolved,
            CopyCall::Confirm => self is Resolved,
            CopyCall::StepLookup => self is Lookup,
            CopyCall::ReadSource => self is Source,
            CopyCall::Frontiers => self is Frontiers,
            CopyCall::SupportsFiles => self is Flag,
            CopyCall::Initialize => self is Address,
            CopyCall::Publish { .. } => self is Publish,
            _ => self is Done,
        }
    }
}

/// How a step goes on.
#[derive(Debug)]
pub enum CopyFlow {
    More,
    /// The copy did not get as far as to try. The error leaves it as it was.
    Waits(Result<CopyResult, Error>),
    /// The attempt is over.
    Tried(Result<CopyResult, Error>),
}

/// The state of a copy between two calls.
pub struct CopyJob {
    pub action: MaintenanceId,
    pub version: CheckpointVersion,
    pub source: LogAddress,
    pub key: Vec<u8>,
    pub hash: KeyHash,
    pub call: CopyCall,
    /// The version permit is held.
    pub permit: bool,
    /// The entry from which the lookup under way started.
    pub lookup: Option<EntrySnapshot>,
    /// What the lookup found last.
    pub matched: Option<LogAddress>,
    /// The entry as it was found last: the one that a copy has to replace.
    pub target: Option<Resolved>,
    /// Why a record is taken back, unless it lost a race.
    pub cause: Option<Error>,
    pub ended: bool,
    pub published: Option<LogAddress>,
}

impl CopyJob {
    pub open spec fn more(self, call: CopyCall) -> (CopyJob, CopyFlow) {
        (CopyJob { call, ..self }, CopyFlow::More)
    }

    pub open spec fn waits(self, r: Result<CopyResult, Error>) -> (CopyJob, CopyFlow) {
        (CopyJob { call: CopyCall::Idle, ..self }, CopyFlow::Waits(r))
    }

    pub open spec fn tried(self, r: Result<CopyResult, Error>) -> (CopyJob, CopyFlow) {
        (CopyJob { call: CopyCall::Idle, ..self }, CopyFlow::Tried(r))
    }

    /// The record is what the lookup was for.
    pub open spec fn accepts(self, record: SourceRecord) -> bool {
        &&& record.key@ == self.key@
        &&& record.version.0 <= self.version.0
        &&& !record.invalid
        &&& record.previous matches Some(previous) ==> previous.0 < self.source.0
    }

    /// What a failed call makes of the copy.
    pub open spec fn next_failed(self, error: Error) -> (CopyJob, CopyFlow) {
        match self.call {
            CopyCall::Permit => self.waits(Err(error)),
            CopyCall::ReadSource => if error == Error::Busy {
                self.tried(Ok(CopyResult::Retry))
            } else if error == Error::RangeTruncated {
                self.more(CopyCall::Frontiers)
            } else {
                self.tried(Err(error))
            },
            CopyCall::ReserveTombstone { .. } => if error == Error::CapacityExceeded {
                self.more(CopyCall::SupportsFiles)
            } else {
                self.tried(Err(error))
            },
            CopyCall::Allocate { .. } => if error == Error::CapacityExceeded {
                self.more(CopyCall::SupportsFiles)
            } else {
                self.tried(Err(error))
            },
            CopyCall::Publish { address } => CopyJob { cause: Some(error), ..self }.more(
                CopyCall::Retire { address },
            ),
            CopyCall::Retire { .. } => CopyJob { cause: None, ..self }.tried(Err(error)),
            _ => self.tried(Err(error)),
        }
    }

    /// What a reply makes of a copy that looks its source up.
    pub open spec fn next_finding(self, reply: CopyReply) -> (CopyJob, CopyFlow) {
        match self.call {
            CopyCall::Permit => if reply->Flag_0 {
                self.more(CopyCall::Gate)
            } else {
                self.waits(Ok(CopyResult::Retry))
            },
            CopyCall::Gate => match reply->Gate_0 {
                Gate::Free => self.more(CopyCall::Take),
                Gate::Held => self.waits(Ok(CopyResult::Retry)),
                Gate::Poisoned => self.waits(
                    Err(Error::InvalidState("条件复制遇到业务仲裁锁中毒")),
                ),
            },
            CopyCall::Take => if reply->Flag_0 {
                if self.lookup is Some {
                    self.more(CopyCall::Complete)
                } else {
                    self.tried(Err(Error::InvalidState("条件复制未等待磁盘查询")))
                }
            } else if self.lookup is Some {
                self.more(CopyCall::StepLookup)
            } else {
                self.more(CopyCall::Resolve)
            },
            CopyCall::Complete => self.more(CopyCall::StepLookup),
            CopyCall::Resolve => CopyJob { target: Some(reply->Resolved_0), ..self }.more(
                CopyCall::StartLookup { head: reply->Resolved_0.head },
            ),
            CopyCall::StartLookup { .. } => CopyJob {
                lookup: Some(self.target->0.entry),
                ..self
            }.more(CopyCall::StepLookup),
            CopyCall::StepLookup => match reply->step {
                LookupStep::AwaitingIo => self.tried(Ok(CopyResult::Retry)),
                LookupStep::Continue => self.tried(Ok(CopyResult::Retry)),
                LookupStep::Active => self.tried(
                    Err(Error::InvalidState("条件复制元数据查询返回了活跃值")),
                ),
                _ => CopyJob { matched: reply->matched, ..self }.more(CopyCall::Confirm),
            },
            _ => {
                let current = reply->Resolved_0;
                if self.lookup != Some(current.entry) {
                    CopyJob { lookup: None, ..self }.tried(Ok(CopyResult::Retry))
                } else if self.matched != Some(self.source) {
                    self.tried(Ok(CopyResult::Obsolete))
                } else {
                    CopyJob { lookup: None, target: Some(current), ..self }.more(
                        CopyCall::ReadSource,
                    )
                }
            },
        }
    }

    /// Whether the call belongs to the search of the source.
    pub open spec fn is_finding(self) -> bool {
        match self.call {
            CopyCall::Permit => true,
            CopyCall::Gate => true,
            CopyCall::Take => true,
            CopyCall::Complete => true,
            CopyCall::Resolve => true,
            CopyCall::StartLookup { .. } => true,
            CopyCall::StepLookup => true,
            CopyCall::Confirm => true,
            _ => false,
        }
    }

    /// What a reply makes of a copy that writes and publishes.
    pub open spec fn next_writing(self, reply: CopyReply) -> (CopyJob, CopyFlow) {
        match self.call {
            CopyCall::ReadSource => match reply->Source_0 {
                Err(error) => self.tried(Err(error)),
                Ok(record) => if !self.accepts(record) {
                    self.tried(Err(Error::InvalidFormat("条件复制源记录无效")))
                } else if record.tombstone {
                    self.more(CopyCall::ReserveTombstone { head: self.target->0.head })
                } else {
                    self.more(CopyCall::Plan)
                },
            },
            CopyCall::Frontiers => if self.source.0 >= reply->Frontiers_0.begin.0 {
                self.tried(Ok(CopyResult::Retry))
            } else {
                self.tried(Err(Error::RangeTruncated))
            },
            CopyCall::ReserveTombstone { .. } => self.more(CopyCall::Initialize),
            CopyCall::Plan => self.more(CopyCall::Fits),
            CopyCall::Fits => self.more(CopyCall::Allocate { head: self.target->0.head }),
            CopyCall::Allocate { .. } => self.more(CopyCall::WriteValue),
            CopyCall::WriteValue => self.more(CopyCall::Initialize),
            CopyCall::SupportsFiles => if reply->Flag_0 {
                self.tried(Ok(CopyResult::Retry))
            } else {
                self.tried(Err(Error::CapacityExceeded))
            },
            CopyCall::Initialize => self.more(CopyCall::Publish { address: reply->Address_0 }),
            CopyCall::Publish { address } => if reply->Publish_0 == PublishResult::Published {
                CopyJob { published: Some(address), ..self }.tried(Ok(CopyResult::Copied(address)))
            } else {
                CopyJob { cause: None, ..self }.more(CopyCall::Retire { address })
            },
            _ => match self.cause {
                Some(cause) => CopyJob { cause: None, ..self }.tried(Err(cause)),
                None => self.tried(Ok(CopyResult::Retry)),
            },
        }
    }

    /// What a reply makes of the copy, and how the step goes on.
    pub open spec fn next(self, reply: Result<CopyReply, Error>) -> (CopyJob, CopyFlow) {
        match reply {
            Err(error) => self.next_failed(error),
            Ok(reply) => if self.is_finding() {
                self.next_finding(reply)
            } else {
                self.next_writing(reply)
            },
        }
    }

    /// Whether the call works on the entry that was found.
    pub open spec fn needs_target(self) -> bool {
        match self.call {
            CopyCall::StartLookup { .. } => true,
            CopyCall::ReadSource => true,
            CopyCall::ReserveTombstone { .. } => true,
            CopyCall::Plan => true,
            CopyCall::Fits => true,
            CopyCall::Allocate { .. } => true,
            CopyCall::WriteValue => true,
            CopyCall::Initialize => true,
            CopyCall::Publish { .. } => true,
            CopyCall::Retire { .. } => true,
            _ => false,
        }
    }

    pub open spec fn wf(self) -> bool {
        &&& self.needs_target() ==> self.target is Some
        &&& self.call is Complete || self.call is StepLookup || self.call is Confirm
            ==> self.lookup is Some
    }

    /// What holds of every copy: nothing is read or written of a source that is not the newest of
    /// its key, and what is published is neither published again nor taken back.
    pub open spec fn sound(self) -> bool {
        &&& self.needs_target() && !(self.call is StartLookup) ==> self.matched == Some(self.source)
        &&& self.published is Some ==> self.call is Idle
    }

    /// The error of a step that may not start.
    pub open spec fn refusal(
        self,
        same_hub: bool,
        failed: bool,
        state: Result<CoordinatorState, Error>,
    ) -> Option<Error> {
        if !same_hub {
            Some(Error::InvalidState("条件复制属于其他引擎实例"))
        } else if self.ended {
            Some(Error::InvalidState("条件复制已经终结"))
        } else {
            match state {
                Err(error) => Some(error),
                Ok(state) => if failed || state.id != Some(self.action) || state.action != Some(
                    Action::Compact,
                ) || state.phase != Phase::Compacting || state.version != self.version {
                    Some(Error::InvalidState("条件复制动作或版本已失效"))
                } else if !self.permit {
                    Some(Error::InvalidState("条件复制缺少版本许可"))
                } else {
                    None
                },
            }
        }
    }

    /// Starts a step. `same_hub` says whether the copy belongs to this engine.
    pub fn begin(
        &mut self,
        same_hub: bool,
        failed: bool,
        state: Result<CoordinatorState, Error>,
    ) -> (r: Result<(), Error>)
        requires
            old(self).wf(),
        ensures
            final(self).wf(),
            match old(self).refusal(same_hub, failed, state) {
                Some(error) => r == Err::<(), Error>(error) && *final(self) == *old(self),
                None => r == Ok::<(), Error>(()) && *final(self) == (CopyJob {
                    call: CopyCall::Permit,
                    ..*old(self)
                }),
            },
    {
        if !same_hub {
            return Err(Error::InvalidState("条件复制属于其他引擎实例"));
        }
        if self.ended {
            return Err(Error::InvalidState("条件复制已经终结"));
        }
        let state = match state {
            Ok(state) => state,
            Err(error) => {
                return Err(error);
            },
        };
        if failed || state.id != Some(self.action) || state.action != Some(Action::Compact) || state.phase
            != Phase::Compacting || state.version != self.version {
            return Err(Error::InvalidState("条件复制动作或版本已失效"));
        }
        if !self.permit {
            return Err(Error::InvalidState("条件复制缺少版本许可"));
        }
        self.call = CopyCall::Permit;
        Ok(())
    }

    fn check_source(&self, record: &SourceRecord) -> (r: bool)
        ensures
            r == self.accepts(*record),
    {
        let chained = match record.previous {
            Some(previous) => previous.0 < self.source.0,
            None => true,
        };
        same_bytes(record.key.as_slice(), self.key.as_slice()) && record.version.0
            <= self.version.0 && !record.invalid && chained
    }

    /// Takes the reply to the call of the step.
    pub fn accept(&mut self, reply: Result<CopyReply, Error>) -> (r: CopyFlow)
        requires
            old(self).wf(),
            old(self).call != CopyCall::Idle,
            reply matches Ok(reply) ==> reply.answers(old(self).call),
        ensures
            (*final(self), r) == old(self).next(reply),
            final(self).wf(),
    {
        let reply = match reply {
            Ok(reply) => reply,
            Err(error) => {
                return self.accept_error(error);
            },
        };
        match self.call {
            CopyCall::Permit | CopyCall::Gate | CopyCall::Take | CopyCall::Complete
            | CopyCall::Resolve | CopyCall::StartLookup { .. } | CopyCall::StepLookup
            | CopyCall::Confirm => self.accept_finding(reply),
            _ => self.accept_writing(reply),
        }
    }

    fn accept_error(&mut self, error: Error) -> (r: CopyFlow)
        requires
            old(self).wf(),
            old(self).call != CopyCall::Idle,
        ensures
            (*final(self), r) == old(self).next_failed(error),
            final(self).wf(),
    {
        let call = self.call;
        self.call = CopyCall::Idle;
        match call {
            CopyCall::Permit => CopyFlow::Waits(Err(error)),
            CopyCall::ReadSource => match error {
                Error::Busy => CopyFlow::Tried(Ok(CopyResult::Retry)),
                Error::RangeTruncated => {
                    self.call = CopyCall::Frontiers;
                    CopyFlow::More
                },
                error => CopyFlow::Tried(Err(error)),
            },
            CopyCall::ReserveTombstone { .. } | CopyCall::Allocate { .. } => match error {
                Error::CapacityExceeded => {
                    self.call = CopyCall::SupportsFiles;
                    CopyFlow::More
                },
                error => CopyFlow::Tried(Err(error)),
            },
            CopyCall::Publish { address } => {
                self.cause = Some(error);
                self.call = CopyCall::Retire { address };
                CopyFlow::More
            },
            CopyCall::Retire { .. } => {
                self.cause = None;
                CopyFlow::Tried(Err(error))
            },
            _ => CopyFlow::Tried(Err(error)),
        }
    }

    fn accept_finding(&mut self, reply: CopyReply) -> (r: CopyFlow)
        requires
            old(self).wf(),
            old(self).is_finding(),
            reply.answers(old(self).call),
        ensures
            (*final(self), r) == old(self).next_finding(reply),
            final(self).wf(),
    {
        let call = self.call;
        self.call = CopyCall::Idle;
        let flag = match &reply {
            CopyReply::Flag(flag) => *flag,
            _ => false,
        };
        match call {
            CopyCall::Permit => {
                if !flag {
                    return CopyFlow::Waits(Ok(CopyResult::Retry));
                }
                self.call = CopyCall::Gate;
                CopyFlow::More
            },
            CopyCall::Gate => match reply {
                CopyReply::Gate(Gate::Held) => CopyFlow::Waits(Ok(CopyResult::Retry)),
                CopyReply::Gate(Gate::Poisoned) => CopyFlow::Waits(
                    Err(Error::InvalidState("条件复制遇到业务仲裁锁中毒")),
                ),
                _ => {
                    self.call = CopyCall::Take;
                    CopyFlow::More
                },
            },
            CopyCall::Take => {
                if flag && self.lookup.is_none() {
                    return CopyFlow::Tried(
                        Err(Error::InvalidState("条件复制未等待磁盘查询")),
                    );
                }
                self.call = if flag {
                    CopyCall::Complete
                } else if self.lookup.is_some() {
                    CopyCall::StepLookup
                } else {
                    CopyCall::Resolve
                };
                CopyFlow::More
            },
            CopyCall::Complete => {
                self.call = CopyCall::StepLookup;
                CopyFlow::More
            },
            CopyCall::Resolve => {
                if let CopyReply::Resolved(resolved) = reply {
                    self.target = Some(resolved);
                    self.call = CopyCall::StartLookup { head: resolved.head };
                }
                CopyFlow::More
            },
            CopyCall::StartLookup { .. } => {
                if let Some(target) = self.target {
                    self.lookup = Some(target.entry);
                }
                self.call = CopyCall::StepLookup;
                CopyFlow::More
            },
            CopyCall::StepLookup => match reply {
                CopyReply::Lookup { step: LookupStep::Active, .. } => CopyFlow::Tried(
                    Err(Error::InvalidState("条件复制元数据查询返回了活跃值")),
                ),
                CopyReply::Lookup {
                    step: LookupStep::Present | LookupStep::Tombstone | LookupStep::Missing,
                    matched,
                } => {
                    self.matched = matched;
                    self.call = CopyCall::Confirm;
                    CopyFlow::More
                },
                _ => CopyFlow::Tried(Ok(CopyResult::Retry)),
            },
            _ => {
                if let CopyReply::Resolved(current) = reply {
                    if self.lookup != Some(current.entry) {
                        self.lookup = None;
                        return CopyFlow::Tried(Ok(CopyResult::Retry));
                    }
                    if self.matched != Some(self.source) {
                        return CopyFlow::Tried(Ok(CopyResult::Obsolete));
                    }
                    self.lookup = None;
                    self.target = Some(current);
                    self.call = CopyCall::ReadSource;
                }
                CopyFlow::More
            },
        }
    }

    fn accept_writing(&mut self, reply: CopyReply) -> (r: CopyFlow)
        requires
            old(self).wf(),
            old(self).call != CopyCall::Idle,
            !old(self).is_finding(),
            reply.answers(old(self).call),
        ensures
            (*final(self), r) == old(self).next_writing(reply),
            final(self).wf(),
    {
        let call = self.call;
        self.call = CopyCall::Idle;
        let head = match self.target {
            Some(target) => target.head,
            None => None,
        };
        match call {
            CopyCall::ReadSource => {
                let record = match reply {
                    CopyReply::Source(Ok(record)) => record,
                    CopyReply::Source(Err(error)) => {
                        return CopyFlow::Tried(Err(error));
                    },
                    _ => {
                        return CopyFlow::More;
                    },
                };
                if !self.check_source(&record) {
                    return CopyFlow::Tried(
                        Err(Error::InvalidFormat("条件复制源记录无效")),
                    );
                }
                self.call = if record.tombstone {
                    CopyCall::ReserveTombstone { head }
                } else {
                    CopyCall::Plan
                };
                CopyFlow::More
            },
            CopyCall::Frontiers => {
                let kept = match reply {
                    CopyReply::Frontiers(frontiers) => self.source.0 >= frontiers.begin.0,
                    _ => false,
                };
                if kept {
                    CopyFlow::Tried(Ok(CopyResult::Retry))
                } else {
                    CopyFlow::Tried(Err(Error::RangeTruncated))
                }
            },
            CopyCall::ReserveTombstone { .. } | CopyCall::WriteValue => {
                self.call = CopyCall::Initialize;
                CopyFlow::More
            },
            CopyCall::Plan => {
                self.call = CopyCall::Fits;
                CopyFlow::More
            },
            CopyCall::Fits => {
                self.call = CopyCall::Allocate { head };
                CopyFlow::More
            },
            CopyCall::Allocate { .. } => {
                self.call = CopyCall::WriteValue;
                CopyFlow::More
            },
            CopyCall::SupportsFiles => match reply {
                CopyReply::Flag(true) => CopyFlow::Tried(Ok(CopyResult::Retry)),
                _ => CopyFlow::Tried(Err(Error::CapacityExceeded)),
            },
            CopyCall::Initialize => {
                if let CopyReply::Address(address) = reply {
                    self.call = CopyCall::Publish { address };
                }
                CopyFlow::More
            },
            CopyCall::Publish { address } => match reply {
                CopyReply::Publish(PublishResult::Published) => {
                    self.published = Some(address);
                    CopyFlow::Tried(Ok(CopyResult::Copied(address)))
                },
                _ => {
                    self.cause = None;
                    self.call = CopyCall::Retire { address };
                    CopyFlow::More
                },
            },
            _ => match self.cause.take() {
                Some(cause) => CopyFlow::Tried(Err(cause)),
                None => CopyFlow::Tried(Ok(CopyResult::Retry)),
            },
        }
    }
}

/// A copy with its mailbox and its monitor, until it is given to [`ConditionalCopy::abandon`]. Dropping
/// it changes nothing.
pub struct ConditionalCopy {
    pub job: CopyJob,
    pub id: Option<RequestId>,
    pub monitor: Monitor,
}

/// How many completions came for a copy, if that is known.
pub open spec fn completions(hub: HubModel, id: Option<RequestId>) -> Option<u64> {
    match id {
        Some(id) => if hub.registered(id) {
            Some(hub.mailboxes[id.slot].completions)
        } else {
            None
        },
        None => None,
    }
}

fn count_completions(hub: &CompletionHub, id: Option<RequestId>) -> (r: Option<u64>)
    requires
        hub.wf(),
    ensures
        r == completions(hub@, id),
{
    match id {
        Some(id) => match hub.completion_count(id) {
            Ok(count) => Some(count),
            Err(_) => None,
        },
        None => None,
    }
}

/// What the metrics count for the end of a copy.
pub open spec fn copy_summary(
    result: Result<CopyResult, Error>,
    published: Option<LogAddress>,
) -> Completed {
    match result {
        Ok(CopyResult::Obsolete) => Completed::NotFound,
        Ok(_) => Completed::Success,
        Err(_) => Completed::Failed(
            if published is Some {
                Effect::Applied
            } else {
                Effect::NotApplied
            },
        ),
    }
}

impl ConditionalCopy {
    /// What comes of reserving a mailbox of `owner` for a copy.
    pub open spec fn made(
        hub: HubModel,
        metrics: MetricsModel,
        owner: SessionId,
        action: MaintenanceId,
        version: CheckpointVersion,
        source: LogAddress,
        key: Vec<u8>,
        hash: KeyHash,
        hub_after: HubModel,
        metrics_after: MetricsModel,
        r: Result<ConditionalCopy, Error>,
    ) -> bool {
        match hub.refusal(owner) {
            Some(error) => {
                &&& r == Err::<ConditionalCopy, Error>(error)
                &&& hub_after == hub
                &&& metrics_after == metrics
            },
            None => {
                let id = hub.next_id(owner);
                &&& r matches Ok(copy)
                &&& copy.id == Some(id)
                &&& copy.job == (CopyJob {
                    action,
                    version,
                    source,
                    key,
                    hash,
                    call: CopyCall::Idle,
                    permit: true,
                    lookup: None,
                    matched: None,
                    target: None,
                    cause: None,
                    ended: false,
                    published: None,
                })
                &&& copy.monitor.starts(Kind::Copy, None, metrics)
                &&& copy.monitor.known_to(metrics_after)
                &&& hub_after == hub.counted().with_mailbox(id, false)
                &&& metrics_after == metrics.accepted(Kind::Copy, None)
            },
        }
    }

    /// Reserves a mailbox of `owner` and starts a copy. The caller holds the version permit.
    pub fn new(
        hub: &mut CompletionHub,
        metrics: &mut Metrics,
        owner: SessionId,
        action: MaintenanceId,
        version: CheckpointVersion,
        source: LogAddress,
        key: Vec<u8>,
        hash: KeyHash,
    ) -> (r: Result<ConditionalCopy, Error>)
        requires
            old(hub).wf(),
            old(metrics).wf(),
            old(metrics)@.active.len() < usize::MAX,
        ensures
            final(hub).wf(),
            final(metrics).wf(),
            Self::made(
                old(hub)@,
                old(metrics)@,
                owner,
                action,
                version,
                source,
                key,
                hash,
                final(hub)@,
                final(metrics)@,
                r,
            ),
    {
        let id = match hub.reserve(owner) {
            Ok(id) => id,
            Err(error) => {
                return Err(error);
            },
        };
        let monitor = metrics.accept(Kind::Copy);
        let job = CopyJob {
            action,
            version,
            source,
            key,
            hash,
            call: CopyCall::Idle,
            permit: true,
            lookup: None,
            matched: None,
            target: None,
            cause: None,
            ended: false,
            published: None,
        };
        Ok(ConditionalCopy { job, id: Some(id), monitor })
    }

    pub fn published_address(&self) -> (r: Option<LogAddress>)
        ensures
            r == self.job.published,
    {
        self.job.published
    }

    /// Whether the device still owes the lookup a completion. `inflight` is what a lookup says that
    /// is under way.
    pub fn has_inflight(&self, inflight: bool) -> (r: bool)
        ensures
            r == (self.job.lookup is Some && inflight),
    {
        self.job.lookup.is_some() && inflight
    }

    /// A copy of the key, for a lookup of its own.
    pub fn key_copy(&self, memory: Memory) -> (r: Result<Vec<u8>, Error>)
        ensures
            r matches Ok(key) ==> key@ == self.job.key@,
            r matches Err(error) ==> error == Error::OutOfMemory,
            memory is Granted || self.job.key@.len() == 0 ==> r is Ok,
            memory is Refused && self.job.key@.len() > 0 ==> r is Err,
    {
        let mut key: Vec<u8> = Vec::new();
        if !reserve(&mut key, self.job.key.len(), memory) {
            return Err(Error::OutOfMemory);
        }
        key.extend_from_slice(self.job.key.as_slice());
        assert(key@ =~= self.job.key@);
        Ok(key)
    }

    /// Takes what the device completed for this copy, for a step.
    pub fn take(&self, hub: &mut CompletionHub) -> (r: Result<Option<IoCompletion>, Error>)
        requires
            old(hub).wf(),
        ensures
            final(hub).wf(),
            match self.id {
                None => {
                    &&& r == Err::<Option<IoCompletion>, Error>(
                        Error::InvalidState("条件复制缺少完成路由"),
                    )
                    &&& final(hub)@ == old(hub)@
                },
                Some(id) => (r, final(hub)@) == old(hub)@.taken(id),
            },
    {
        match self.id {
            Some(id) => hub.take(id),
            None => Err(Error::InvalidState("条件复制缺少完成路由")),
        }
    }

    /// Takes the reply to the call of the step. A record that was taken back is counted.
    pub fn accept(&mut self, reply: Result<CopyReply, Error>) -> (r: CopyFlow)
        requires
            old(self).job.wf(),
            old(self).job.call != CopyCall::Idle,
            reply matches Ok(reply) ==> reply.answers(old(self).job.call),
        ensures
            (final(self).job, r) == old(self).job.next(reply),
            final(self).job.wf(),
            final(self).id == old(self).id,
            if old(self).job.call is Retire && reply is Ok {
                old(self).monitor.invalidated_as(final(self).monitor)
            } else {
                final(self).monitor == old(self).monitor
            },
    {
        let retired = match self.job.call {
            CopyCall::Retire { .. } => reply.is_ok(),
            _ => false,
        };
        if retired {
            self.monitor.invalidate();
        }
        self.job.accept(reply)
    }

    /// Gives back the permit, the lookup and the mailbox.
    fn release(&mut self, hub: &mut CompletionHub) -> (r: Result<(), Error>)
        requires
            old(hub).wf(),
        ensures
            final(hub).wf(),
            final(hub)@ == given_back(old(hub)@, old(self).id),
            r == (match give_back_error(old(hub)@, old(self).id) {
                Some(error) => Err::<(), Error>(error),
                None => Ok::<(), Error>(()),
            }),
            final(self).job == (CopyJob {
                lookup: None,
                permit: false,
                ended: true,
                ..old(self).job
            }),
            final(self).id is None,
            final(self).monitor == old(self).monitor,
    {
        self.job.lookup = None;
        self.job.permit = false;
        self.job.ended = true;
        match self.id.take() {
            Some(id) => hub.release(id),
            None => Ok(()),
        }
    }

    /// Takes the end of a step. A copy that has to try again stays as it is; any other is over, and
    /// gives back what it holds unless the device still owes it a completion.
    pub fn settle(
        &mut self,
        hub: &mut CompletionHub,
        metrics: &mut Metrics,
        flow: CopyFlow,
        inflight: bool,
    ) -> (r: Result<CopyResult, Error>)
        requires
            old(hub).wf(),
            old(metrics).wf(),
            old(self).monitor.known_to(old(metrics)@),
            !(flow is More),
        ensures
            final(hub).wf(),
            final(metrics).wf(),
            final(self).monitor.known_to(final(metrics)@),
            match flow {
                CopyFlow::Waits(Err(error)) => {
                    &&& r == Err::<CopyResult, Error>(error)
                    &&& *final(self) == *old(self)
                    &&& final(hub)@ == old(hub)@
                    &&& final(metrics)@ == old(metrics)@
                },
                CopyFlow::Waits(Ok(_)) | CopyFlow::Tried(Ok(CopyResult::Retry)) => {
                    &&& r == Ok::<CopyResult, Error>(CopyResult::Retry)
                    &&& final(self).job == old(self).job
                    &&& final(self).id == old(self).id
                    &&& old(self).monitor.suspended_as(final(self).monitor)
                    &&& final(hub)@ == old(hub)@
                    &&& final(metrics)@ == old(self).monitor.suspends(old(metrics)@)
                },
                CopyFlow::Tried(result) => {
                    let busy = old(self).job.lookup is Some && inflight;
                    let io = if busy {
                        None
                    } else {
                        completions(old(hub)@, old(self).id)
                    };
                    &&& final(self).job.ended
                    &&& final(self).job.published == old(self).job.published
                    &&& if busy {
                        &&& r == result
                        &&& final(self).job == (CopyJob { ended: true, ..old(self).job })
                        &&& final(self).id == old(self).id
                        &&& final(hub)@ == old(hub)@
                    } else {
                        &&& r == (match give_back_error(old(hub)@, old(self).id) {
                            Some(error) => Err::<CopyResult, Error>(error),
                            None => result,
                        })
                        &&& final(self).job == (CopyJob {
                            lookup: None,
                            permit: false,
                            ended: true,
                            ..old(self).job
                        })
                        &&& final(self).id is None
                        &&& final(hub)@ == given_back(old(hub)@, old(self).id)
                    }
                    &&& old(self).monitor.finished_as(final(self).monitor)
                    &&& old(self).monitor.finishes(
                        old(metrics)@,
                        copy_summary(r, old(self).job.published),
                        io,
                        final(metrics)@,
                    )
                },
                CopyFlow::More => true,
            },
    {
        let result = match flow {
            CopyFlow::Waits(Err(error)) => {
                return Err(error);
            },
            CopyFlow::Waits(Ok(_)) => Ok(CopyResult::Retry),
            CopyFlow::Tried(result) => result,
            CopyFlow::More => Ok(CopyResult::Retry),
        };
        let retry = match &result {
            Ok(CopyResult::Retry) => true,
            _ => false,
        };
        if retry {
            self.monitor.pending(metrics);
            return Ok(CopyResult::Retry);
        }
        self.job.ended = true;
        let busy = self.has_inflight(inflight);
        let io = if busy {
            None
        } else {
            count_completions(hub, self.id)
        };
        let mut result = result;
        if !busy {
            match self.release(hub) {
                Ok(()) => {},
                Err(error) => {
                    result = Err(error);
                },
            }
        }
        let summary = match &result {
            Ok(CopyResult::Obsolete) => Completed::NotFound,
            Ok(_) => Completed::Success,
            Err(_) => Completed::Failed(
                if self.job.published.is_some() {
                    Effect::Applied
                } else {
                    Effect::NotApplied
                },
            ),
        };
        self.monitor.finish(metrics, summary, io);
        result
    }

    /// Takes what the device completed for a copy that is given up. It is for the lookup: where none
    /// is under way, nothing may come.
    pub fn collect(&self, hub: &mut CompletionHub) -> (r: Result<Option<IoCompletion>, Error>)
        requires
            old(hub).wf(),
        ensures
            final(hub).wf(),
            match self.id {
                None => r == Ok::<Option<IoCompletion>, Error>(None) && final(hub)@ == old(hub)@,
                Some(id) => {
                    let (taken, after) = old(hub)@.taken(id);
                    &&& final(hub)@ == after
                    &&& r == (if taken matches Ok(Some(_)) && self.job.lookup is None {
                        Err(Error::InvalidState("条件复制未等待磁盘查询"))
                    } else {
                        taken
                    })
                },
            },
    {
        let id = match self.id {
            Some(id) => id,
            None => {
                return Ok(None);
            },
        };
        match hub.take(id) {
            Ok(Some(completion)) => if self.job.lookup.is_none() {
                Err(Error::InvalidState("条件复制未等待磁盘查询"))
            } else {
                Ok(Some(completion))
            },
            other => other,
        }
    }

    /// Ends a copy that is given up, once the device owes it nothing. The completion that had come
    /// was handed to the lookup before.
    pub fn drain(&mut self, hub: &mut CompletionHub, metrics: &mut Metrics, inflight: bool) -> (r:
        Result<bool, Error>)
        requires
            old(hub).wf(),
            old(metrics).wf(),
            old(self).monitor.known_to(old(metrics)@),
        ensures
            final(hub).wf(),
            final(metrics).wf(),
            final(self).monitor.known_to(final(metrics)@),
            final(self).job.published == old(self).job.published,
            if old(self).job.lookup is Some && inflight {
                &&& r == Ok::<bool, Error>(false)
                &&& *final(self) == *old(self)
                &&& final(hub)@ == old(hub)@
                &&& final(metrics)@ == old(metrics)@
            } else {
                &&& final(self).job == (CopyJob {
                    lookup: None,
                    permit: false,
                    ended: true,
                    ..old(self).job
                })
                &&& final(self).id is None
                &&& final(hub)@ == given_back(old(hub)@, old(self).id)
                &&& match give_back_error(old(hub)@, old(self).id) {
                    Some(error) => {
                        &&& r == Err::<bool, Error>(error)
                        &&& final(metrics)@ == old(metrics)@
                    },
                    None => {
                        &&& r == Ok::<bool, Error>(true)
                        &&& old(self).monitor.finishes(
                            old(metrics)@,
                            Completed::Aborted,
                            completions(old(hub)@, old(self).id),
                            final(metrics)@,
                        )
                    },
                }
            },
    {
        if self.has_inflight(inflight) {
            return Ok(false);
        }
        let io = count_completions(hub, self.id);
        match self.release(hub) {
            Ok(()) => {},
            Err(error) => {
                return Err(error);
            },
        }
        self.monitor.finish(metrics, Completed::Aborted, io);
        Ok(true)
    }

    /// Gives a copy up as it is: one that still has a mailbox failed with an unknown effect.
    pub fn abandon(self, hub: &mut CompletionHub, metrics: &mut Metrics, inflight: bool)
        requires
            old(hub).wf(),
            old(metrics).wf(),
            self.monitor.known_to(old(metrics)@),
        ensures
            final(hub).wf(),
            final(metrics).wf(),
            final(hub)@ == given_back(old(hub)@, self.id),
            exists|mid: MetricsModel|
                {
                    &&& self.monitor.finishes(
                        old(metrics)@,
                        Completed::Failed(Effect::Unknown),
                        if self.job.lookup is Some && inflight {
                            None
                        } else {
                            completions(old(hub)@, self.id)
                        },
                        mid,
                    )
                    &&& final(metrics)@ == #[trigger] mid.left(
                        self.monitor.spec_tracker(),
                        self.monitor.spec_id(),
                    )
                },
    {
        let mut copy = self;
        let busy = copy.has_inflight(inflight);
        if let Some(id) = copy.id {
            let io = if busy {
                None
            } else {
                count_completions(hub, Some(id))
            };
            copy.monitor.finish(metrics, Completed::Failed(Effect::Unknown), io);
            let _ = hub.release(id);
        }
        copy.monitor.abandon(metrics);
    }
}

/// Every step keeps a copy sound: no source is read, and nothing is written, unless the lookup found
/// the source as the newest record of its key from an entry that did not change; and what is
/// published is neither published again nor taken back.
pub proof fn law_sound(job: CopyJob, reply: Result<CopyReply, Error>)
    requires
        job.wf(),
        job.sound(),
        job.call != CopyCall::Idle,
        reply matches Ok(reply) ==> reply.answers(job.call),
    ensures
        job.next(reply).0.sound(),
        job.next(reply).0.call == CopyCall::ReadSource ==> {
            &&& job.call == CopyCall::Confirm
            &&& job.lookup == Some(job.next(reply).0.target->0.entry)
            &&& job.matched == Some(job.source)
        },
{
}

/// A record is published exactly where the index took it, and only then does the copy succeed.
pub proof fn law_copied_when_published(
    job: CopyJob,
    reply: Result<CopyReply, Error>,
    address: LogAddress,
)
    requires
        job.wf(),
        job.sound(),
        job.call != CopyCall::Idle,
        reply matches Ok(reply) ==> reply.answers(job.call),
    ensures
        job.next(reply).1 == CopyFlow::Tried(Ok(CopyResult::Copied(address))) <==> {
            &&& job.call == (CopyCall::Publish { address })
            &&& reply matches Ok(CopyReply::Publish(PublishResult::Published))
        },
        job.next(reply).0.published is Some ==> job.next(reply).1 == CopyFlow::Tried(
            Ok(CopyResult::Copied(job.next(reply).0.published->0)),
        ),
{
}

/// A step may start only for the copy's own engine, while it is not over, while the compaction that it
/// belongs to is copying in its version, and with the permit of that version.
pub proof fn law_step_may_start(
    job: CopyJob,
    same_hub: bool,
    failed: bool,
    state: Result<CoordinatorState, Error>,
)
    ensures
        ({
            let current = state matches Ok(s) && s.id == Some(job.action) && s.action == Some(
                Action::Compact,
            ) && s.phase == Phase::Compacting && s.version == job.version;
            let refusal = job.refusal(same_hub, failed, state);
            &&& refusal is None <==> same_hub && !job.ended && !failed && current && job.permit
            &&& !same_hub ==> refusal == Some(
                Error::InvalidState("条件复制属于其他引擎实例"),
            )
            &&& same_hub && job.ended ==> refusal == Some(
                Error::InvalidState("条件复制已经终结"),
            )
            &&& same_hub && !job.ended && state is Err ==> refusal == Some(state->Err_0)
            &&& same_hub && !job.ended && state is Ok && (failed || !current) ==> refusal == Some(
                Error::InvalidState("条件复制动作或版本已失效"),
            )
            &&& same_hub && !job.ended && !failed && current && !job.permit ==> refusal == Some(
                Error::InvalidState("条件复制缺少版本许可"),
            )
        }),
{
}

/// A record is given up as obsolete exactly when the entry has not changed since the lookup began and
/// the lookup ended at another record, or at none.
pub proof fn law_obsolete_means_superseded(job: CopyJob, reply: Result<CopyReply, Error>)
    requires
        job.wf(),
        job.call != CopyCall::Idle,
        reply matches Ok(reply) ==> reply.answers(job.call),
    ensures
        job.next(reply).1 == CopyFlow::Tried(Ok(CopyResult::Obsolete)) <==> {
            &&& job.call == CopyCall::Confirm
            &&& reply matches Ok(CopyReply::Resolved(current))
            &&& job.lookup == Some(current.entry)
            &&& job.matched != Some(job.source)
        },
        job.call == CopyCall::Confirm && reply is Ok ==> {
            let current = reply->Ok_0->Resolved_0;
            &&& job.lookup != Some(current.entry) ==> job.next(reply).1 == CopyFlow::Tried(
                Ok(CopyResult::Retry),
            ) && job.next(reply).0 == (CopyJob { call: CopyCall::Idle, lookup: None, ..job })
            &&& job.lookup == Some(current.entry) && job.matched == Some(job.source) ==> job.next(
                reply,
            ).1 is More && job.next(reply).0 == (CopyJob {
                call: CopyCall::ReadSource,
                lookup: None,
                target: Some(current),
                ..job
            })
        },
{
}

/// A copy is tried again later exactly when something that passes stands in its way: the permit, a
/// held key, a device that has not answered, an entry that moved, a source that is busy or not there
/// yet, a log that can be moved to files, or a lost race.
pub proof fn law_retry_has_a_cause(job: CopyJob, reply: Result<CopyReply, Error>)
    requires
        job.wf(),
        job.call != CopyCall::Idle,
        reply matches Ok(reply) ==> reply.answers(job.call),
    ensures
        job.next(reply).1 == CopyFlow::Waits(Ok(CopyResult::Retry)) <==> {
            ||| job.call is Permit && reply matches Ok(CopyReply::Flag(false))
            ||| job.call is Gate && reply matches Ok(CopyReply::Gate(Gate::Held))
        },
        job.next(reply).1 == CopyFlow::Tried(Ok(CopyResult::Retry)) <==> {
            ||| job.call is StepLookup && reply is Ok && (reply->Ok_0->step is AwaitingIo
                || reply->Ok_0->step is Continue)
            ||| job.call is Confirm && reply is Ok && job.lookup != Some(
                reply->Ok_0->Resolved_0.entry,
            )
            ||| job.call is ReadSource && reply == Err::<CopyReply, Error>(Error::Busy)
            ||| job.call is Frontiers && reply is Ok && job.source.0
                >= reply->Ok_0->Frontiers_0.begin.0
            ||| job.call is SupportsFiles && reply matches Ok(CopyReply::Flag(true))
            ||| job.call is Retire && reply is Ok && job.cause is None
        },
{
}

/// The search takes up the lookup under way, or starts one at the head of the entry, and ends with
/// what the lookup found. A completion that nobody waits for is an error, and so is a value that is
/// still being written.
pub proof fn law_search_comes_in_order(job: CopyJob, reply: CopyReply)
    requires
        job.wf(),
        reply.answers(job.call),
    ensures
        ({
            let (next, flow) = job.next(Ok(reply));
            &&& job.call is Permit && reply->Flag_0 ==> next == (CopyJob {
                call: CopyCall::Gate,
                ..job
            }) && flow is More
            &&& job.call is Gate && reply->Gate_0 is Free ==> next == (CopyJob {
                call: CopyCall::Take,
                ..job
            }) && flow is More
            &&& job.call is Gate && reply->Gate_0 is Poisoned ==> flow == CopyFlow::Waits(
                Err(Error::InvalidState("条件复制遇到业务仲裁锁中毒")),
            )
            &&& job.call is Take && reply->Flag_0 && job.lookup is None ==> flow == CopyFlow::Tried(
                Err(Error::InvalidState("条件复制未等待磁盘查询")),
            )
            &&& job.call is Take && !(reply->Flag_0 && job.lookup is None) ==> {
                &&& flow is More
                &&& next == (CopyJob { call: next.call, ..job })
                &&& next.call is Complete <==> reply->Flag_0
                &&& next.call is StepLookup <==> !reply->Flag_0 && job.lookup is Some
                &&& next.call is Resolve <==> !reply->Flag_0 && job.lookup is None
            }
            &&& job.call is Complete ==> next == (CopyJob { call: CopyCall::StepLookup, ..job })
                && flow is More
            &&& job.call is Resolve ==> next == (CopyJob {
                call: CopyCall::StartLookup { head: reply->Resolved_0.head },
                target: Some(reply->Resolved_0),
                ..job
            }) && flow is More
            &&& job.call is StartLookup ==> next == (CopyJob {
                call: CopyCall::StepLookup,
                lookup: Some(job.target->0.entry),
                ..job
            }) && flow is More
            &&& job.call is StepLookup && (reply->step is Present || reply->step is Tombstone
                || reply->step is Missing) ==> next == (CopyJob {
                call: CopyCall::Confirm,
                matched: reply->matched,
                ..job
            }) && flow is More
            &&& job.call is StepLookup && reply->step is Active ==> flow == CopyFlow::Tried(
                Err(Error::InvalidState("条件复制元数据查询返回了活跃值")),
            )
        }),
{
}

/// A source is copied only if it is a valid record of the key, of a version that is not newer than the
/// copy's, whose chain leads backwards. A tombstone is copied as one and a value as a value, each
/// before the entry that was found.
pub proof fn law_source_is_checked(job: CopyJob, record: SourceRecord)
    requires
        job.wf(),
        job.call is ReadSource,
    ensures
        ({
            let (next, flow) = job.next(Ok(CopyReply::Source(Ok(record))));
            let valid = record.key@ == job.key@ && record.version.0 <= job.version.0 && !record.invalid
                && (record.previous matches Some(previous) ==> previous.0 < job.source.0);
            &&& !valid <==> flow == CopyFlow::Tried(
                Err(Error::InvalidFormat("条件复制源记录无效")),
            )
            &&& valid <==> flow is More
            &&& valid && record.tombstone ==> next.call == (CopyCall::ReserveTombstone {
                head: job.target->0.head,
            })
            &&& valid && !record.tombstone ==> next.call is Plan
            &&& next == (CopyJob { call: next.call, ..job })
        }),
{
}

/// A value is planned, found to fit, given room before the entry that was found, written and given its
/// address, in this order; what was given the address is what is published.
pub proof fn law_copy_comes_in_order(job: CopyJob, reply: CopyReply)
    requires
        job.wf(),
        reply.answers(job.call),
        job.call is ReserveTombstone || job.call is Plan || job.call is Fits || job.call is Allocate
            || job.call is WriteValue || job.call is Initialize,
    ensures
        ({
            let (next, flow) = job.next(Ok(reply));
            &&& flow is More
            &&& next == (CopyJob { call: next.call, ..job })
            &&& job.call is Plan ==> next.call is Fits
            &&& job.call is Fits ==> next.call == (CopyCall::Allocate { head: job.target->0.head })
            &&& job.call is Allocate ==> next.call is WriteValue
            &&& job.call is WriteValue || job.call is ReserveTombstone ==> next.call is Initialize
            &&& job.call is Initialize ==> next.call == (CopyCall::Publish {
                address: reply->Address_0,
            })
        }),
{
}

/// A record that was not published is taken back at its address. After that a lost race is tried
/// again, and a failed publication is the error of the copy.
pub proof fn law_unpublished_is_taken_back(
    job: CopyJob,
    reply: Result<CopyReply, Error>,
    address: LogAddress,
)
    requires
        job.wf(),
        job.call == (CopyCall::Publish { address }) || job.call == (CopyCall::Retire { address }),
        reply matches Ok(reply) ==> reply.answers(job.call),
    ensures
        ({
            let (next, flow) = job.next(reply);
            &&& job.call is Publish && !(reply matches Ok(CopyReply::Publish(PublishResult::Published)))
                ==> {
                &&& flow is More
                &&& next.call == (CopyCall::Retire { address })
                &&& next.cause == (match reply {
                    Ok(_) => None,
                    Err(error) => Some(error),
                })
                &&& next == (CopyJob { call: next.call, cause: next.cause, ..job })
            }
            &&& job.call is Retire ==> {
                &&& next.call is Idle
                &&& next.cause is None
                &&& next == (CopyJob { call: next.call, cause: next.cause, ..job })
                &&& flow == CopyFlow::Tried(
                    match reply {
                        Err(error) => Err(error),
                        Ok(_) => match job.cause {
                            Some(cause) => Err(cause),
                            None => Ok(CopyResult::Retry),
                        },
                    },
                )
            }
        }),
{
}

/// A full log is the error of the copy only if it cannot be moved to files, and a source that was
/// truncated only if it lies before the begin of the log. Every other error is that of the step, and
/// leaves the copy as it was.
pub proof fn law_errors_are_kept(job: CopyJob, reply: Result<CopyReply, Error>)
    requires
        job.wf(),
        job.call != CopyCall::Idle,
        reply matches Ok(reply) ==> reply.answers(job.call),
        !(job.call is Publish) && !(job.call is Retire),
    ensures
        reply matches Err(error) ==> {
            let (next, flow) = job.next(reply);
            let reserving = job.call is ReserveTombstone || job.call is Allocate;
            let full = reserving && error == Error::CapacityExceeded;
            let gone = job.call is ReadSource && error == Error::RangeTruncated;
            let busy = job.call is ReadSource && error == Error::Busy;
            &&& next == (CopyJob { call: next.call, ..job })
            &&& full <==> next.call is SupportsFiles
            &&& gone <==> next.call is Frontiers
            &&& full || gone <==> flow is More
            &&& !full && !gone <==> next.call is Idle
            &&& !full && !gone && !busy ==> flow == (if job.call is Permit {
                CopyFlow::Waits(Err(error))
            } else {
                CopyFlow::Tried(Err(error))
            })
        },
        job.call is SupportsFiles && reply is Ok && !reply->Ok_0->Flag_0 ==> job.next(reply).1
            == CopyFlow::Tried(Err(Error::CapacityExceeded)),
        job.call is Frontiers && reply is Ok && job.source.0 < reply->Ok_0->Frontiers_0.begin.0
            ==> job.next(reply).1 == CopyFlow::Tried(Err(Error::RangeTruncated)),
        job.call is ReadSource && reply is Ok && reply->Ok_0->Source_0 is Err ==> job.next(reply).1
            == CopyFlow::Tried(Err(reply->Ok_0->Source_0->Err_0)),
{
}

/// No reply changes which record is copied, for which action and version, with what permit, and
/// whether the copy is over. A step that is over waits for no call.
pub proof fn law_terms_are_kept(job: CopyJob, reply: Result<CopyReply, Error>)
    requires
        job.wf(),
        job.call != CopyCall::Idle,
        reply matches Ok(reply) ==> reply.answers(job.call),
    ensures
        ({
            let (next, flow) = job.next(reply);
            &&& next.action == job.action
            &&& next.version == job.version
            &&& next.source == job.source
            &&& next.key == job.key
            &&& next.hash == job.hash
            &&& next.permit == job.permit
            &&& next.ended == job.ended
            &&& next.call is Idle <==> !(flow is More)
            &&& !(next.published == job.published) ==> job.call is Publish
        }),
{
}

/// What the end of a copy counts as: a record that was superseded as not found, a failed copy by whether
/// its record was published, and everything else as a success.
pub proof fn law_copy_counts_as(result: Result<CopyResult, Error>, published: Option<LogAddress>)
    ensures
        copy_summary(result, published) is NotFound <==> result == Ok::<CopyResult, Error>(
            CopyResult::Obsolete,
        ),
        copy_summary(result, published) is Success <==> result is Ok && !(result->Ok_0 is Obsolete),
        result is Err && published is Some ==> copy_summary(result, published) == Completed::Failed(
            Effect::Applied,
        ),
        result is Err && published is None ==> copy_summary(result, published) == Completed::Failed(
            Effect::NotApplied,
        ),
{
}

/// A copy starts exactly where the hub has a mailbox for it: with the source, the key and the version
/// that were asked for, with the permit, and with nothing found or published yet. One that is refused
/// leaves nothing behind.
pub proof fn law_copy_starts_fresh(
    hub: HubModel,
    metrics: MetricsModel,
    owner: SessionId,
    action: MaintenanceId,
    version: CheckpointVersion,
    source: LogAddress,
    key: Vec<u8>,
    hash: KeyHash,
    hub_after: HubModel,
    metrics_after: MetricsModel,
    r: Result<ConditionalCopy, Error>,
)
    requires
        ConditionalCopy::made(
            hub,
            metrics,
            owner,
            action,
            version,
            source,
            key,
            hash,
            hub_after,
            metrics_after,
            r,
        ),
    ensures
        r is Ok <==> hub.refusal(owner) is None,
        r matches Err(error) ==> hub.refusal(owner) == Some(error) && hub_after == hub
            && metrics_after == metrics,
        r matches Ok(copy) ==> {
            &&& copy.job.action == action
            &&& copy.job.version == version
            &&& copy.job.source == source
            &&& copy.job.key == key
            &&& copy.job.hash == hash
            &&& copy.job.permit
            &&& !copy.job.ended
            &&& copy.job.call is Idle
            &&& copy.job.lookup is None
            &&& copy.job.matched is None
            &&& copy.job.target is None
            &&& copy.job.cause is None
            &&& copy.job.published is None
            &&& copy.id == Some(
                RequestId {
                    store: hub.store,
                    session: owner,
                    slot: hub.next,
                    generation: hub.next_id(owner).generation,
                },
            )
            &&& hub_after.registered(copy.id->0)
            &&& hub_after.occupied == hub.occupied + 1
            &&& metrics_after.open.dom().contains(metrics.next)
            &&& metrics_after.open[metrics.next].kind is Copy
            &&& metrics_after.active == metrics.active
            &&& metrics_after.pending == metrics.pending
        },
{
}

} // verus!
