//! Deletes a key without reading its value from the device: a record that is still in memory and
//! mutable is marked in place, for any other a tombstone is appended.
use crate::allocation::Memory;
use crate::engine::admission::{complete_tracked, finish_request, recorded_io};
use crate::engine::common::Gate;
use crate::engine::index::{keep_head, kept_head, IndexHead, PublishResult, Resolved};
use crate::engine::io_hub::{given_back, CompletionHub, HubModel};
use crate::engine::metrics::{Completed, Kind, Metrics, MetricsModel, Monitor};
use crate::engine::pending::{held, lemma_held_bound, ResultCredit, SessionRuntime, TaskHeader};
use crate::types::{
    CheckpointVersion, Effect, Error, KeyHash, LogAddress, OperationError, OperationResult, Outcome,
    RequestId, Serial,
};
use vstd::prelude::*;

verus! {

#[derive(Clone, Copy, Debug, PartialEq, Eq, Structural)]
pub struct DeleteOptions {
    /// Write a tombstone even where nothing is known of the key.
    pub force_tombstone: bool,
}

/// What a delete did.
#[derive(Clone, Copy, Debug, PartialEq, Eq, Structural)]
pub enum DeleteOutcome {
    /// The chain of the key is gone from the index.
    IndexRemoved,
    TombstoneWritten,
}

/// A record that may be changed in place.
#[derive(Debug, PartialEq, Eq)]
pub struct Lease {
    pub address: Result<LogAddress, Error>,
    pub previous: Option<LogAddress>,
}

/// The call that an attempt waits for.
#[derive(Clone, Copy, Debug, PartialEq, Eq, Structural)]
pub enum DeleteCall {
    /// No attempt is under way.
    Idle,
    /// Take the lock of the key.
    Gate,
    /// Look whether the engine failed.
    Health,
    /// Look whether the version permit lets the delete go on.
    Permit,
    /// Find the entry of the key.
    Resolve,
    /// Look for a record of the key that may be changed in place.
    FindMutable { head: Option<LogAddress> },
    /// Look where the log begins, and keep the record that was found.
    Begin,
    /// Mark the record in place, if the entry can be made `entry`.
    Mark { entry: IndexHead },
    /// Check that a tombstone of this size can exist.
    Fits,
    Reserve { head: Option<LogAddress> },
    /// The log is full: look whether it can be moved to files.
    SupportsFiles,
    /// Give the tombstone its version and its address.
    Initialize,
    /// Replace the entry by the address.
    Publish { address: LogAddress },
    /// Take back a tombstone that lost a race.
    Retire { address: LogAddress },
}

/// What became of an attempt to mark a record in place.
#[derive(Clone, Copy, Debug, PartialEq, Eq, Structural)]
pub enum Marked {
    /// Someone else holds the record.
    Contended,
    /// The record may not be changed any more.
    Frozen,
    /// The record is marked, and the entry replaced.
    Published,
    /// The entry had changed, and the record is as it was.
    Conflict,
}

/// The reply to a call that did not fail.
#[derive(Debug)]
pub enum DeleteReply {
    Done,
    Flag(bool),
    Gate(Gate),
    Resolved(Resolved),
    Lease(Option<Lease>),
    Begin(LogAddress),
    Marked(Marked),
    Address(LogAddress),
    Publish(PublishResult),
}

impl DeleteReply {
    /// Whether this is the kind of reply that `call` gets.
    pub open spec fn answers(self, call: DeleteCall) -> bool {
        match call {
            DeleteCall::Idle => false,
            DeleteCall::Gate => self is Gate,
            DeleteCall::Health => self is Flag,
            DeleteCall::Permit => self is Flag,
            DeleteCall::Resolve => self is Resolved,
            DeleteCall::FindMutable { .. } => self is Lease,
            DeleteCall::Begin => self is Begin,
            DeleteCall::Mark { .. } => self is Marked,
            DeleteCall::SupportsFiles => self is Flag,
            DeleteCall::Initialize => self is Address,
            DeleteCall::Publish { .. } => self is Publish,
            _ => self is Done,
        }
    }
}

/// How a delete ends.
#[derive(Debug, PartialEq, Eq)]
pub enum DeleteEnd {
    Deleted(DeleteOutcome),
    NotFound,
    Failed(OperationError),
}

/// How an attempt goes on.
#[derive(Debug, PartialEq, Eq)]
pub enum DeleteFlow {
    More,
    Retry,
    Ended(DeleteEnd),
    /// The delete was over before the attempt.
    Over,
}

/// The state of a delete between two calls.
pub struct DeleteJob {
    pub options: DeleteOptions,
    pub key: Vec<u8>,
    pub hash: KeyHash,
    pub version: CheckpointVersion,
    pub call: DeleteCall,
    pub completed: bool,
    pub effect: Effect,
    /// The entry that was found.
    pub target: Option<Resolved>,
    /// The record that may be changed in place.
    pub lease: Option<Lease>,
    /// Marking the record takes the key out of the index.
    pub removes: bool,
}

impl DeleteJob {
    pub open spec fn more(self, call: DeleteCall) -> (DeleteJob, DeleteFlow) {
        (DeleteJob { call, ..self }, DeleteFlow::More)
    }

    pub open spec fn retried(self) -> (DeleteJob, DeleteFlow) {
        (DeleteJob { call: DeleteCall::Idle, ..self }, DeleteFlow::Retry)
    }

    pub open spec fn over(self) -> (DeleteJob, DeleteFlow) {
        (DeleteJob { call: DeleteCall::Idle, ..self }, DeleteFlow::Over)
    }

    pub open spec fn ended(self, end: DeleteEnd) -> (DeleteJob, DeleteFlow) {
        (DeleteJob { call: DeleteCall::Idle, completed: true, ..self }, DeleteFlow::Ended(end))
    }

    pub open spec fn failed(self, cause: Error) -> (DeleteJob, DeleteFlow) {
        self.ended(DeleteEnd::Failed(OperationError { cause, effect: self.effect }))
    }

    pub open spec fn deleted(self, outcome: DeleteOutcome) -> (DeleteJob, DeleteFlow) {
        DeleteJob { effect: Effect::Applied, ..self }.ended(DeleteEnd::Deleted(outcome))
    }

    /// Marking the record takes the whole chain out of the index: it is the head, and nothing of
    /// the chain before it lies in the log.
    pub open spec fn removes_chain(self, address: LogAddress, begin: LogAddress) -> bool {
        &&& !self.options.force_tombstone
        &&& self.target->0.head == Some(address)
        &&& self.lease->0.previous matches Some(previous) ==> previous.0 < begin.0
    }

    /// What a failed call makes of the delete.
    pub open spec fn next_failed(self, error: Error) -> (DeleteJob, DeleteFlow) {
        match self.call {
            DeleteCall::Reserve { .. } => if error == Error::CapacityExceeded {
                self.more(DeleteCall::SupportsFiles)
            } else {
                self.failed(error)
            },
            _ => self.failed(error),
        }
    }

    /// What a reply makes of the delete, and how the attempt goes on.
    pub open spec fn next_ok(self, reply: DeleteReply) -> (DeleteJob, DeleteFlow) {
        match self.call {
            DeleteCall::Gate => match reply->Gate_0 {
                Gate::Free => if self.completed {
                    self.over()
                } else {
                    self.more(DeleteCall::Health)
                },
                Gate::Held => self.retried(),
                Gate::Poisoned => self.failed(Error::InvalidState("操作仲裁锁中毒")),
            },
            DeleteCall::Health => if reply->Flag_0 {
                self.failed(Error::InvalidState("引擎已失败关闭"))
            } else {
                self.more(DeleteCall::Permit)
            },
            DeleteCall::Permit => if reply->Flag_0 {
                self.more(DeleteCall::Resolve)
            } else {
                self.retried()
            },
            DeleteCall::Resolve => if !self.options.force_tombstone && !reply->Resolved_0.entry.present {
                self.ended(DeleteEnd::NotFound)
            } else {
                DeleteJob { target: Some(reply->Resolved_0), ..self }.more(
                    DeleteCall::FindMutable { head: reply->Resolved_0.head },
                )
            },
            DeleteCall::FindMutable { .. } => match reply->Lease_0 {
                Some(lease) => DeleteJob { lease: Some(lease), ..self }.more(DeleteCall::Begin),
                None => self.more(DeleteCall::Fits),
            },
            DeleteCall::Begin => if self.options.force_tombstone {
                DeleteJob { removes: false, ..self }.more(
                    DeleteCall::Mark { entry: kept_head(self.target->0.head) },
                )
            } else {
                match self.lease->0.address {
                    Err(error) => DeleteJob { lease: None, ..self }.failed(error),
                    Ok(address) => {
                        let removes = self.removes_chain(address, reply->Begin_0);
                        DeleteJob { removes, ..self }.more(
                            DeleteCall::Mark {
                                entry: if removes {
                                    IndexHead::Empty
                                } else {
                                    kept_head(self.target->0.head)
                                },
                            },
                        )
                    },
                }
            },
            DeleteCall::Mark { .. } => match reply->Marked_0 {
                Marked::Published => self.deleted(
                    if self.removes {
                        DeleteOutcome::IndexRemoved
                    } else {
                        DeleteOutcome::TombstoneWritten
                    },
                ),
                Marked::Frozen => self.more(DeleteCall::Fits),
                _ => self.retried(),
            },
            DeleteCall::Fits => self.more(DeleteCall::Reserve { head: self.target->0.head }),
            DeleteCall::Reserve { .. } => self.more(DeleteCall::Initialize),
            DeleteCall::SupportsFiles => if reply->Flag_0 {
                self.retried()
            } else {
                self.failed(Error::CapacityExceeded)
            },
            DeleteCall::Initialize => self.more(DeleteCall::Publish { address: reply->Address_0 }),
            DeleteCall::Publish { address } => if reply->Publish_0 == PublishResult::Published {
                self.deleted(DeleteOutcome::TombstoneWritten)
            } else {
                self.more(DeleteCall::Retire { address })
            },
            _ => self.retried(),
        }
    }

    pub open spec fn next(self, reply: Result<DeleteReply, Error>) -> (DeleteJob, DeleteFlow) {
        match reply {
            Err(error) => self.next_failed(error),
            Ok(reply) => self.next_ok(reply),
        }
    }

    /// Whether the call works on the entry that was found.
    pub open spec fn needs_target(self) -> bool {
        match self.call {
            DeleteCall::Idle => false,
            DeleteCall::Gate => false,
            DeleteCall::Health => false,
            DeleteCall::Permit => false,
            DeleteCall::Resolve => false,
            _ => true,
        }
    }

    pub open spec fn wf(self) -> bool {
        &&& self.needs_target() ==> self.target is Some
        &&& self.call is Begin ==> self.lease is Some
    }

    /// What holds of every delete: while it tries, nothing of it is in the index, and what it did
    /// is known; where a tombstone was asked for, no record is marked to take the key out.
    pub open spec fn sound(self) -> bool {
        &&& self.effect != Effect::Unknown
        &&& self.effect == Effect::Applied ==> self.completed
        &&& self.completed ==> self.call is Idle || self.call is Gate
        &&& self.call is Mark && self.options.force_tombstone ==> !self.removes
    }

    pub fn new(options: DeleteOptions, key: Vec<u8>, hash: KeyHash, version: CheckpointVersion) -> (r:
        DeleteJob)
        ensures
            r.wf(),
            r.sound(),
            r == (DeleteJob {
                options,
                key,
                hash,
                version,
                call: DeleteCall::Idle,
                completed: false,
                effect: Effect::NotApplied,
                target: None,
                lease: None,
                removes: false,
            }),
    {
        DeleteJob {
            options,
            key,
            hash,
            version,
            call: DeleteCall::Idle,
            completed: false,
            effect: Effect::NotApplied,
            target: None,
            lease: None,
            removes: false,
        }
    }

    fn go(&mut self, call: DeleteCall) -> (r: DeleteFlow)
        ensures
            (*final(self), r) == old(self).more(call),
    {
        self.call = call;
        DeleteFlow::More
    }

    fn try_again(&mut self) -> (r: DeleteFlow)
        ensures
            (*final(self), r) == old(self).retried(),
    {
        self.call = DeleteCall::Idle;
        DeleteFlow::Retry
    }

    /// Goes on under the lock, unless the delete is over.
    fn go_locked(&mut self) -> (r: DeleteFlow)
        requires
            old(self).wf(),
        ensures
            (*final(self), r) == (if old(self).completed {
                old(self).over()
            } else {
                old(self).more(DeleteCall::Health)
            }),
            final(self).wf(),
    {
        if self.completed {
            self.call = DeleteCall::Idle;
            return DeleteFlow::Over;
        }
        self.go(DeleteCall::Health)
    }

    fn end(&mut self, end: DeleteEnd) -> (r: DeleteFlow)
        ensures
            (*final(self), r) == old(self).ended(end),
    {
        self.call = DeleteCall::Idle;
        self.completed = true;
        DeleteFlow::Ended(end)
    }

    /// Ends the delete with an error.
    pub fn fail(&mut self, cause: Error) -> (r: DeleteFlow)
        ensures
            (*final(self), r) == old(self).failed(cause),
            final(self).wf(),
    {
        let effect = self.effect;
        self.end(DeleteEnd::Failed(OperationError { cause, effect }))
    }

    /// Starts an attempt. `locked` says that the caller has the lock of the key. Under the lock a
    /// delete that is over is left as it is.
    pub fn begin(&mut self, locked: bool) -> (r: DeleteFlow)
        requires
            old(self).wf(),
        ensures
            (*final(self), r) == (if !locked {
                old(self).more(DeleteCall::Gate)
            } else if old(self).completed {
                old(self).over()
            } else {
                old(self).more(DeleteCall::Health)
            }),
            final(self).wf(),
    {
        if locked {
            self.go_locked()
        } else {
            self.go(DeleteCall::Gate)
        }
    }

    /// Takes the reply to the call of the attempt.
    pub fn accept(&mut self, reply: Result<DeleteReply, Error>) -> (r: DeleteFlow)
        requires
            old(self).wf(),
            old(self).call != DeleteCall::Idle,
            reply matches Ok(reply) ==> reply.answers(old(self).call),
        ensures
            (*final(self), r) == old(self).next(reply),
            final(self).wf(),
    {
        match reply {
            Ok(reply) => self.accept_ok(reply),
            Err(error) => match self.call {
                DeleteCall::Reserve { .. } => match error {
                    Error::CapacityExceeded => self.go(DeleteCall::SupportsFiles),
                    error => self.fail(error),
                },
                _ => self.fail(error),
            },
        }
    }

    fn accept_ok(&mut self, reply: DeleteReply) -> (r: DeleteFlow)
        requires
            old(self).wf(),
            old(self).call != DeleteCall::Idle,
            reply.answers(old(self).call),
        ensures
            (*final(self), r) == old(self).next_ok(reply),
            final(self).wf(),
    {
        let head = match self.target {
            Some(target) => target.head,
            None => None,
        };
        match self.call {
            DeleteCall::Gate => match reply {
                DeleteReply::Gate(Gate::Held) => self.try_again(),
                DeleteReply::Gate(Gate::Poisoned) => self.fail(
                    Error::InvalidState("操作仲裁锁中毒"),
                ),
                _ => self.go_locked(),
            },
            DeleteCall::Health => match reply {
                DeleteReply::Flag(true) => self.fail(
                    Error::InvalidState("引擎已失败关闭"),
                ),
                _ => self.go(DeleteCall::Permit),
            },
            DeleteCall::Permit => match reply {
                DeleteReply::Flag(true) => self.go(DeleteCall::Resolve),
                _ => self.try_again(),
            },
            DeleteCall::Resolve => match reply {
                DeleteReply::Resolved(resolved) => {
                    if !self.options.force_tombstone && !resolved.entry.present {
                        return self.end(DeleteEnd::NotFound);
                    }
                    self.target = Some(resolved);
                    self.go(DeleteCall::FindMutable { head: resolved.head })
                },
                _ => DeleteFlow::More,
            },
            DeleteCall::FindMutable { .. } => match reply {
                DeleteReply::Lease(Some(lease)) => {
                    self.lease = Some(lease);
                    self.go(DeleteCall::Begin)
                },
                _ => self.go(DeleteCall::Fits),
            },
            DeleteCall::Begin => self.accept_begin(reply),
            DeleteCall::Mark { .. } => match reply {
                DeleteReply::Marked(Marked::Published) => {
                    let outcome = if self.removes {
                        DeleteOutcome::IndexRemoved
                    } else {
                        DeleteOutcome::TombstoneWritten
                    };
                    self.effect = Effect::Applied;
                    self.end(DeleteEnd::Deleted(outcome))
                },
                DeleteReply::Marked(Marked::Frozen) => self.go(DeleteCall::Fits),
                _ => self.try_again(),
            },
            DeleteCall::Fits => self.go(DeleteCall::Reserve { head }),
            DeleteCall::Reserve { .. } => self.go(DeleteCall::Initialize),
            DeleteCall::SupportsFiles => match reply {
                DeleteReply::Flag(true) => self.try_again(),
                _ => self.fail(Error::CapacityExceeded),
            },
            DeleteCall::Initialize => match reply {
                DeleteReply::Address(address) => self.go(DeleteCall::Publish { address }),
                _ => DeleteFlow::More,
            },
            DeleteCall::Publish { address } => match reply {
                DeleteReply::Publish(PublishResult::Published) => {
                    self.effect = Effect::Applied;
                    self.end(DeleteEnd::Deleted(DeleteOutcome::TombstoneWritten))
                },
                _ => self.go(DeleteCall::Retire { address }),
            },
            _ => self.try_again(),
        }
    }

    fn accept_begin(&mut self, reply: DeleteReply) -> (r: DeleteFlow)
        requires
            old(self).wf(),
            old(self).call == DeleteCall::Begin,
            reply is Begin,
        ensures
            (*final(self), r) == old(self).next_ok(reply),
            final(self).wf(),
    {
        let begin = match reply {
            DeleteReply::Begin(begin) => begin,
            _ => LogAddress(0),
        };
        let head = match self.target {
            Some(target) => target.head,
            None => None,
        };
        if self.options.force_tombstone {
            self.removes = false;
            return self.go(DeleteCall::Mark { entry: keep_head(head) });
        }
        let (address, previous) = match self.lease.take() {
            Some(lease) => {
                let previous = lease.previous;
                match lease.address {
                    Ok(address) => {
                        self.lease = Some(Lease { address: Ok(address), previous });
                        (address, previous)
                    },
                    Err(error) => {
                        self.lease = None;
                        return self.fail(error);
                    },
                }
            },
            None => (LogAddress(0), None),
        };
        let alone = match previous {
            Some(previous) => previous.0 < begin.0,
            None => true,
        };
        self.removes = head == Some(address) && alone;
        let head = if self.removes {
            IndexHead::Empty
        } else {
            keep_head(head)
        };
        self.go(DeleteCall::Mark { entry: head })
    }
}

/// A delete that was accepted, with its mailbox and its monitor, until it is given to
/// [`DeleteTask::release`]. Dropping it changes nothing.
pub struct DeleteTask {
    pub job: DeleteJob,
    pub id: RequestId,
    pub serial: Serial,
    pub monitor: Monitor,
}

impl DeleteTask {
    /// A delete that was just accepted.
    pub fn new(metrics: &mut Metrics, job: DeleteJob, id: RequestId, serial: Serial) -> (r: DeleteTask)
        requires
            old(metrics).wf(),
            old(metrics)@.active.len() < usize::MAX,
        ensures
            final(metrics).wf(),
            final(metrics)@ == old(metrics)@.accepted(Kind::Delete, None),
            r.job == job,
            r.id == id,
            r.serial == serial,
            r.monitor.starts(Kind::Delete, None, old(metrics)@),
            r.monitor.known_to(final(metrics)@),
    {
        let monitor = metrics.accept(Kind::Delete);
        DeleteTask { job, id, serial, monitor }
    }

    /// Takes the reply to the call of the attempt. A tombstone that was taken back is counted.
    pub fn accept(&mut self, reply: Result<DeleteReply, Error>) -> (r: DeleteFlow)
        requires
            old(self).job.wf(),
            old(self).job.call != DeleteCall::Idle,
            reply matches Ok(reply) ==> reply.answers(old(self).job.call),
        ensures
            (final(self).job, r) == old(self).job.next(reply),
            final(self).job.wf(),
            final(self).id == old(self).id,
            final(self).serial == old(self).serial,
            if old(self).job.call is Retire && reply is Ok {
                old(self).monitor.invalidated_as(final(self).monitor)
            } else {
                final(self).monitor == old(self).monitor
            },
    {
        let retired = match self.job.call {
            DeleteCall::Retire { .. } => reply.is_ok(),
            _ => false,
        };
        if retired {
            self.monitor.invalidate();
        }
        self.job.accept(reply)
    }

    /// A callback of the request panicked: the delete is over with what it did so far, and the
    /// engine has to close.
    pub fn panicked(&mut self) -> (r: DeleteFlow)
        ensures
            (final(self).job, r) == old(self).job.failed(Error::InvalidState("写入回调恐慌")),
            final(self).id == old(self).id,
            final(self).serial == old(self).serial,
            final(self).monitor == old(self).monitor,
    {
        self.job.fail(Error::InvalidState("写入回调恐慌"))
    }

    /// The device has nothing to complete for a delete.
    pub fn on_io(&self) -> (r: Result<(), Error>)
        ensures
            r == Err::<(), Error>(Error::InvalidState("盲删没有等待磁盘查询")),
    {
        Err(Error::InvalidState("盲删没有等待磁盘查询"))
    }

    /// The delete is over: the result is what the request made of it, unless dropping the request
    /// panicked. The flag says that the engine has to close.
    pub fn finish<T>(&mut self, dropped: bool, result: OperationResult<T>) -> (r: (
        OperationResult<T>,
        bool,
    ))
        ensures
            final(self).job == (DeleteJob { completed: true, ..old(self).job }),
            final(self).id == old(self).id,
            final(self).serial == old(self).serial,
            final(self).monitor == old(self).monitor,
            dropped ==> r == (result, false),
            !dropped ==> r == (
                Err::<Outcome<T>, OperationError>(
                    OperationError {
                        cause: Error::InvalidState("Request destructor panic"),
                        effect: old(self).job.effect,
                    },
                ),
                true,
            ),
    {
        self.job.completed = true;
        finish_request(dropped, result, self.job.effect)
    }

    /// Records the end of the delete. `summary` is what its result counts as, and `delivered` tells
    /// whether the result reached its ticket. The flag says that the engine has to close.
    pub fn record(
        &mut self,
        hub: &CompletionHub,
        metrics: &mut Metrics,
        summary: Completed,
        delivered: bool,
    ) -> (r: bool)
        requires
            hub.wf(),
            old(metrics).wf(),
            old(self).monitor.known_to(old(metrics)@),
        ensures
            r == !delivered,
            final(metrics).wf(),
            final(self).monitor.known_to(final(metrics)@),
            final(self).job == old(self).job,
            final(self).id == old(self).id,
            final(self).serial == old(self).serial,
            old(self).monitor.finished_as(final(self).monitor),
            old(self).monitor.finishes(
                old(metrics)@,
                if delivered {
                    summary
                } else {
                    Completed::Failed(Effect::Unknown)
                },
                recorded_io(old(self).monitor, hub@, old(self).id),
                final(metrics)@,
            ),
    {
        complete_tracked(&mut self.monitor, metrics, hub, self.id, summary, delivered)
    }

    /// What a delete that is given up ends with: one that is not over failed with what it did so
    /// far.
    pub fn abandoned(&self) -> (r: Option<OperationError>)
        ensures
            r == (if self.job.completed {
                None
            } else {
                Some(OperationError { cause: Error::SessionAbandoned, effect: self.job.effect })
            }),
    {
        if self.job.completed {
            None
        } else {
            Some(OperationError { cause: Error::SessionAbandoned, effect: self.job.effect })
        }
    }

    /// Gives back the mailbox and the monitor.
    pub fn release(self, hub: &mut CompletionHub, metrics: &mut Metrics)
        requires
            old(hub).wf(),
            old(metrics).wf(),
            self.monitor.known_to(old(metrics)@),
        ensures
            final(hub).wf(),
            final(metrics).wf(),
            final(hub)@ == given_back(old(hub)@, Some(self.id)),
            exists|mid: MetricsModel|
                {
                    &&& self.monitor.finishes(
                        old(metrics)@,
                        Completed::Failed(Effect::Unknown),
                        None,
                        mid,
                    )
                    &&& final(metrics)@ == #[trigger] mid.left(
                        self.monitor.spec_tracker(),
                        self.monitor.spec_id(),
                    )
                },
    {
        let _ = hub.release(self.id);
        self.monitor.abandon(metrics);
    }

    /// Leaves a delete that has to try again with its session.
    pub fn suspend(&mut self, session: &mut SessionRuntime, metrics: &mut Metrics)
        requires
            old(session).wf(),
            old(metrics).wf(),
            old(self).monitor.known_to(old(metrics)@),
        ensures
            final(session).wf(),
            final(metrics).wf(),
            final(self).monitor.known_to(final(metrics)@),
            old(self).monitor.suspended_as(final(self).monitor),
            final(metrics)@ == old(self).monitor.suspends(old(metrics)@),
            final(self).job == old(self).job,
            final(self).id == old(self).id,
            final(self).serial == old(self).serial,
            old(session).suspends(
                TaskHeader {
                    id: old(self).id,
                    serial: old(self).serial,
                    version: old(self).job.version,
                },
                *final(session),
            ),
    {
        self.monitor.pending(metrics);
        let header = TaskHeader { id: self.id, serial: self.serial, version: self.job.version };
        let _ = session.current.tasks.insert(self.id.slot, header);
    }
}

/// What a delete holds before it is accepted.
pub struct DeleteReservation {
    pub credit: ResultCredit,
    pub id: RequestId,
}

/// Whether a delete has to wait before it may reserve anything: the key is in use, or the session has
/// too many tasks, or too many results.
pub open spec fn delete_waits(
    session: SessionRuntime,
    gate: Gate,
    max_pending: usize,
    max_results: usize,
) -> bool {
    ||| gate != Gate::Free
    ||| session.suspended() >= max_pending
    ||| held(session.results@) >= max_results
}

/// What comes of reserving a place for the result of a delete and a mailbox: what cannot be had whole
/// is not kept.
pub open spec fn reserves_delete(
    session: SessionRuntime,
    hub: HubModel,
    gate: Gate,
    max_pending: usize,
    max_results: usize,
    memory: Memory,
    after: SessionRuntime,
    hub_after: HubModel,
    r: Result<DeleteReservation, Error>,
) -> bool {
    let results = session.results@;
    let full = held(results) == results.len();
    &&& after.same_but_results(session)
    &&& if delete_waits(session, gate, max_pending, max_results) {
        &&& r == Err::<DeleteReservation, Error>(Error::Busy)
        &&& after.results@ == results
        &&& hub_after == hub
    } else if full && memory is Refused {
        &&& r == Err::<DeleteReservation, Error>(Error::OutOfMemory)
        &&& after.results@ == results
        &&& hub_after == hub
    } else {
        ||| {
            &&& full && memory is Allocator
            &&& r == Err::<DeleteReservation, Error>(Error::OutOfMemory)
            &&& after.results@ == results
            &&& hub_after == hub
        }
        ||| match hub.refusal(session.id) {
            Some(error) => {
                &&& r == Err::<DeleteReservation, Error>(error)
                &&& after.results@ == (if full {
                    results.push(0)
                } else {
                    results
                })
                &&& hub_after == hub
            },
            None => {
                &&& r matches Ok(reservation)
                &&& reservation.id == hub.next_id(session.id)
                &&& SessionRuntime::result_taken(
                    results,
                    reservation.credit.spec_slot(),
                    after.results@,
                )
                &&& held(after.results@) == held(results) + 1
                &&& hub_after == hub.counted().with_mailbox(reservation.id, false)
            },
        }
    }
}

/// Reserves a place for the result and a mailbox. What cannot be had whole is not kept. `memory` says
/// whether there is room for a new place.
pub fn reserve_delete(
    session: &mut SessionRuntime,
    hub: &mut CompletionHub,
    gate: Gate,
    max_pending: usize,
    max_results: usize,
    memory: Memory,
) -> (r: Result<DeleteReservation, Error>)
    requires
        old(session).wf(),
        old(hub).wf(),
        old(session).suspended() <= usize::MAX,
    ensures
        final(session).wf(),
        final(hub).wf(),
        reserves_delete(
            *old(session),
            old(hub)@,
            gate,
            max_pending,
            max_results,
            memory,
            *final(session),
            final(hub)@,
            r,
        ),
{
    match gate {
        Gate::Free => {},
        _ => {
            return Err(Error::Busy);
        },
    }
    if session.pending() >= max_pending {
        return Err(Error::Busy);
    }
    let credit = match session.reserve_result_from(max_results, memory) {
        Ok(credit) => credit,
        Err(error) => {
            return Err(error);
        },
    };
    proof {
        lemma_held_bound(old(session).results@);
    }
    match hub.reserve(session.id) {
        Ok(id) => Ok(DeleteReservation { credit, id }),
        Err(error) => {
            session.return_result(credit);
            proof {
                let results = old(session).results@;
                if held(results) == results.len() {
                    assert(session.results@ =~= results.push(0));
                } else {
                    assert(session.results@ =~= results);
                }
            }
            Err(error)
        },
    }
}

/// The reservation holds its place in the session.
pub open spec fn holds_place(session: SessionRuntime, reservation: DeleteReservation) -> bool {
    &&& 0 <= reservation.credit.spec_slot() < session.results@.len()
    &&& session.results@[reservation.credit.spec_slot()] == 1
}

/// What comes of giving back what was reserved for a delete.
pub open spec fn cancels_delete(
    session: SessionRuntime,
    hub: HubModel,
    reservation: DeleteReservation,
    after: SessionRuntime,
    hub_after: HubModel,
) -> bool {
    &&& after.same_but_results(session)
    &&& after.results@ == session.results@.update(reservation.credit.spec_slot(), 0)
    &&& held(after.results@) + 1 == held(session.results@)
    &&& hub_after == given_back(hub, Some(reservation.id))
}

/// Gives back what was reserved for a delete that was not accepted.
pub fn cancel_delete(
    session: &mut SessionRuntime,
    hub: &mut CompletionHub,
    reservation: DeleteReservation,
)
    requires
        old(session).wf(),
        old(hub).wf(),
        holds_place(*old(session), reservation),
    ensures
        final(session).wf(),
        final(hub).wf(),
        cancels_delete(*old(session), old(hub)@, reservation, *final(session), final(hub)@),
{
    let _ = hub.release(reservation.id);
    session.return_result(reservation.credit);
}

/// A delete that was reserved and then suspended is one more suspended task of its session: the
/// number that the hub gives is that of no task, as long as every task has a number that the hub has
/// given, and that stays so.
pub proof fn law_suspension_adds_one(
    before: SessionRuntime,
    after: SessionRuntime,
    hub: HubModel,
    serial: Serial,
    version: CheckpointVersion,
)
    requires
        before.wf(),
        before.numbered(hub.next),
        hub.next < u64::MAX,
        before.suspends(TaskHeader { id: hub.next_id(before.id), serial, version }, after),
    ensures
        !before.current.tasks@.dom().contains(hub.next),
        after.suspended() == before.suspended() + 1,
        after.numbered(hub.counted().with_mailbox(hub.next_id(before.id), false).next),
{
    assert(after.current.tasks@.dom() =~= before.current.tasks@.dom().insert(hub.next));
}

/// Every reply keeps a delete that is not over sound: what it did to the store is always known, it is not tried again
/// once it is in the index, and it is over exactly when it says so.
pub proof fn law_sound(job: DeleteJob, reply: Result<DeleteReply, Error>)
    requires
        job.wf(),
        job.sound(),
        !job.completed,
        job.call != DeleteCall::Idle,
        reply matches Ok(reply) ==> reply.answers(job.call),
    ensures
        job.next(reply).0.sound(),
        job.next(reply).0.completed == job.next(reply).1 is Ended,
        job.next(reply).1 is Retry ==> job.next(reply).0.effect == Effect::NotApplied,
{
}

/// The effect that a delete reports is the one it had: success means that the entry was replaced,
/// and a failure that it was not.
pub proof fn law_effect_is_known(job: DeleteJob, reply: Result<DeleteReply, Error>)
    requires
        job.wf(),
        job.sound(),
        !job.completed,
        job.call != DeleteCall::Idle,
        reply matches Ok(reply) ==> reply.answers(job.call),
    ensures
        job.next(reply).1 matches DeleteFlow::Ended(end) ==> match end {
            DeleteEnd::Deleted(_) => {
                &&& job.next(reply).0.effect == Effect::Applied
                &&& (job.call is Mark && reply->Ok_0->Marked_0 == Marked::Published) || (
                job.call is Publish && reply->Ok_0->Publish_0 == PublishResult::Published)
            },
            DeleteEnd::NotFound => job.next(reply).0.effect == Effect::NotApplied
                && !job.options.force_tombstone,
            DeleteEnd::Failed(error) => error.effect == Effect::NotApplied,
        },
{
}

/// A delete for which a tombstone was asked never reports that the key was taken out of the index.
pub proof fn law_forced_tombstone_is_written(job: DeleteJob, reply: Result<DeleteReply, Error>)
    requires
        job.wf(),
        job.sound(),
        job.options.force_tombstone,
        job.call != DeleteCall::Idle,
        reply matches Ok(reply) ==> reply.answers(job.call),
    ensures
        job.next(reply).1 != DeleteFlow::Ended(DeleteEnd::Deleted(DeleteOutcome::IndexRemoved)),
        job.next(reply).1 != DeleteFlow::Ended(DeleteEnd::NotFound),
        job.next(reply).0.options == job.options,
{
}

/// A key is taken out of the index only where its whole chain goes with it, and never where a
/// tombstone was asked for.
pub proof fn law_chain_is_removed_whole(job: DeleteJob, reply: DeleteReply)
    requires
        job.wf(),
        job.call == DeleteCall::Begin,
        reply is Begin,
        job.next(Ok(reply)).0.call is Mark,
        job.next(Ok(reply)).0.call->Mark_entry == IndexHead::Empty,
        job.target->0.head is Some,
    ensures
        !job.options.force_tombstone,
        job.lease->0.address == Ok::<LogAddress, Error>(job.target->0.head->0),
        job.lease->0.previous matches Some(previous) ==> previous.0 < reply->Begin_0.0,
{
}

/// A key is not found only where its entry is not there and no tombstone is forced; in every other case
/// the delete goes on with the entry as it was found, and where no record can be changed in place, on
/// the way to a tombstone.
pub proof fn law_not_found_means_absent(job: DeleteJob, reply: Result<DeleteReply, Error>)
    requires
        job.wf(),
        job.call != DeleteCall::Idle,
        reply matches Ok(reply) ==> reply.answers(job.call),
    ensures
        ({
            let (after, flow) = job.next(reply);
            &&& flow == DeleteFlow::Ended(DeleteEnd::NotFound) <==> {
                &&& job.call is Resolve
                &&& reply is Ok
                &&& !reply->Ok_0->Resolved_0.entry.present
                &&& !job.options.force_tombstone
            }
            &&& job.call is Resolve && reply is Ok && (job.options.force_tombstone
                || reply->Ok_0->Resolved_0.entry.present) ==> {
                &&& flow is More
                &&& after.target == Some(reply->Ok_0->Resolved_0)
                &&& after.call == (DeleteCall::FindMutable { head: reply->Ok_0->Resolved_0.head })
            }
            &&& job.call is FindMutable && reply is Ok && reply->Ok_0->Lease_0 is None ==> flow is More
                && after.call is Fits
            &&& job.call is FindMutable && reply is Ok && reply->Ok_0->Lease_0 is Some ==> flow is More
                && after.call is Begin && after.lease == reply->Ok_0->Lease_0
            &&& !(job.call is Resolve) ==> after.target == job.target
            &&& after.options == job.options
            &&& after.key == job.key
            &&& after.hash == job.hash
            &&& after.version == job.version
        }),
{
}

/// A tombstone is appended over the head that was found and published at the address that it got; one
/// that lost a race is taken back before the delete tries again, and only a publication ends the
/// delete as one that wrote a tombstone.
pub proof fn law_tombstone_follows_the_head(job: DeleteJob, reply: Result<DeleteReply, Error>)
    requires
        job.wf(),
        job.call != DeleteCall::Idle,
        reply matches Ok(reply) ==> reply.answers(job.call),
    ensures
        ({
            let (after, flow) = job.next(reply);
            &&& after.call matches DeleteCall::Reserve { head } ==> job.call is Fits && reply is Ok
                && head == job.target->0.head
            &&& job.call is Fits && reply is Ok ==> after.call is Reserve && flow is More
            &&& after.call is Initialize ==> job.call is Reserve && reply is Ok
            &&& job.call is Reserve && reply is Ok ==> after.call is Initialize && flow is More
            &&& after.call matches DeleteCall::Publish { address } ==> job.call is Initialize
                && reply is Ok && address == reply->Ok_0->Address_0
            &&& job.call is Initialize && reply is Ok ==> after.call is Publish && flow is More
            &&& job.call is Publish && reply is Ok ==> if reply->Ok_0->Publish_0
                == PublishResult::Published {
                &&& flow == DeleteFlow::Ended(DeleteEnd::Deleted(DeleteOutcome::TombstoneWritten))
                &&& after.completed
                &&& after.effect == Effect::Applied
            } else {
                &&& flow is More
                &&& after.call == (DeleteCall::Retire { address: job.call->Publish_address })
                &&& after.effect == job.effect
                &&& after.completed == job.completed
            }
            &&& after.call is Retire ==> job.call is Publish && reply is Ok
            &&& job.call is Retire && reply is Ok ==> flow is Retry && after.effect == job.effect
                && after.completed == job.completed
        }),
{
}

/// A record that was found is marked in place: under the empty head exactly where no tombstone is
/// forced, the record is the head of its chain and what lies before it is not in the log, otherwise
/// under the head that was found. What the mark did is what the delete reports; a record that may not
/// be changed any more leads to a tombstone, and a lost race to another attempt.
pub proof fn law_mark_says_what_was_done(job: DeleteJob, reply: Result<DeleteReply, Error>)
    requires
        job.wf(),
        job.call != DeleteCall::Idle,
        reply matches Ok(reply) ==> reply.answers(job.call),
    ensures
        ({
            let (after, flow) = job.next(reply);
            &&& job.call is Begin && reply is Ok && (job.options.force_tombstone
                || job.lease->0.address is Ok) ==> {
                let whole = {
                    &&& !job.options.force_tombstone
                    &&& job.target->0.head == Some(job.lease->0.address->Ok_0)
                    &&& job.lease->0.previous matches Some(previous) ==> previous.0
                        < reply->Ok_0->Begin_0.0
                };
                &&& flow is More
                &&& after.removes == whole
                &&& after.call is Mark
                &&& whole ==> after.call->Mark_entry == IndexHead::Empty
                &&& !whole && job.target->0.head is Some ==> after.call->Mark_entry
                    == IndexHead::Log(job.target->0.head->0)
                &&& !whole && job.target->0.head is None ==> after.call->Mark_entry
                    == IndexHead::Empty
            }
            &&& job.call is Begin && reply is Ok && !job.options.force_tombstone
                && job.lease->0.address is Err ==> flow == DeleteFlow::Ended(
                DeleteEnd::Failed(
                    OperationError { cause: job.lease->0.address->Err_0, effect: job.effect },
                ),
            )
            &&& job.call is Mark && reply is Ok ==> match reply->Ok_0->Marked_0 {
                Marked::Published => {
                    &&& flow == DeleteFlow::Ended(
                        DeleteEnd::Deleted(
                            if job.removes {
                                DeleteOutcome::IndexRemoved
                            } else {
                                DeleteOutcome::TombstoneWritten
                            },
                        ),
                    )
                    &&& after.effect == Effect::Applied
                    &&& after.completed
                },
                Marked::Frozen => flow is More && after.call is Fits && after.effect == job.effect,
                Marked::Contended => flow is Retry && after.effect == job.effect,
                Marked::Conflict => flow is Retry && after.effect == job.effect,
            }
            &&& flow matches DeleteFlow::Ended(DeleteEnd::Deleted(_)) ==> {
                ||| job.call is Mark && reply is Ok && reply->Ok_0->Marked_0 == Marked::Published
                ||| job.call is Publish && reply is Ok && reply->Ok_0->Publish_0
                    == PublishResult::Published
            }
            &&& after.effect != job.effect ==> (flow matches DeleteFlow::Ended(
                DeleteEnd::Deleted(_),
            ))
            &&& after.call is Fits ==> {
                ||| job.call is FindMutable && reply is Ok && reply->Ok_0->Lease_0 is None
                ||| job.call is Mark && reply is Ok && reply->Ok_0->Marked_0 == Marked::Frozen
            }
        }),
{
}

/// What has to be had before a delete looks at its key: its lock, an engine that did not fail, and the
/// version permit. A lock or a permit that is not there yet lets it try again, and a delete that is
/// over is left as it is. A full log is tried again only where it can be moved to files. Every other
/// failure ends the delete with its cause and with what it did so far.
pub proof fn law_delete_waits_or_fails(job: DeleteJob, reply: Result<DeleteReply, Error>)
    requires
        job.wf(),
        job.call != DeleteCall::Idle,
        reply matches Ok(reply) ==> reply.answers(job.call),
    ensures
        ({
            let (after, flow) = job.next(reply);
            let fails = |cause: Error|
                flow == DeleteFlow::Ended(
                    DeleteEnd::Failed(OperationError { cause, effect: job.effect }),
                ) && after.completed;
            &&& job.call is Gate && reply is Ok ==> match reply->Ok_0->Gate_0 {
                Gate::Free => if job.completed {
                    flow is Over && after.completed
                } else {
                    flow is More && after.call is Health
                },
                Gate::Held => flow is Retry && after.completed == job.completed,
                Gate::Poisoned => fails(Error::InvalidState("操作仲裁锁中毒")),
            }
            &&& job.call is Health && reply is Ok ==> if reply->Ok_0->Flag_0 {
                fails(Error::InvalidState("引擎已失败关闭"))
            } else {
                flow is More && after.call is Permit
            }
            &&& job.call is Permit && reply is Ok ==> if reply->Ok_0->Flag_0 {
                flow is More && after.call is Resolve
            } else {
                flow is Retry && after.completed == job.completed
            }
            &&& after.call is Resolve ==> job.call is Permit && reply is Ok && reply->Ok_0->Flag_0
            &&& job.call is SupportsFiles && reply is Ok ==> if reply->Ok_0->Flag_0 {
                flow is Retry && after.completed == job.completed
            } else {
                fails(Error::CapacityExceeded)
            }
            &&& after.call is SupportsFiles <==> job.call is Reserve && reply == Err::<
                DeleteReply,
                Error,
            >(Error::CapacityExceeded)
            &&& reply is Err && !(after.call is SupportsFiles) ==> fails(reply->Err_0)
            &&& flow is Over ==> job.call is Gate && job.completed
        }),
{
}

/// A deletion reserves its place and its mailbox exactly while its key is free, its session has room for
/// a task and for a result, and the hub has a mailbox; it gets both or neither.
pub proof fn law_reserved_whole_or_not(
    session: SessionRuntime,
    hub: HubModel,
    gate: Gate,
    max_pending: usize,
    max_results: usize,
    after: SessionRuntime,
    hub_after: HubModel,
    r: Result<DeleteReservation, Error>,
)
    requires
        reserves_delete(
            session,
            hub,
            gate,
            max_pending,
            max_results,
            Memory::Granted,
            after,
            hub_after,
            r,
        ),
    ensures
        ({
            let room = gate == Gate::Free && session.suspended() < max_pending && held(
                session.results@,
            ) < max_results;
            &&& r is Ok <==> room && hub.refusal(session.id) is None
            &&& !room ==> r == Err::<DeleteReservation, Error>(Error::Busy)
            &&& room && hub.refusal(session.id) is Some ==> r == Err::<DeleteReservation, Error>(
                hub.refusal(session.id)->0,
            )
            &&& r is Err ==> hub_after == hub && held(after.results@) == held(session.results@)
            &&& r matches Ok(reservation) ==> {
                &&& held(after.results@) == held(session.results@) + 1
                &&& after.results@[reservation.credit.spec_slot()] == 1
                &&& hub_after.registered(reservation.id)
                &&& hub_after.occupied == hub.occupied + 1
                &&& reservation.id.session == session.id
            }
            &&& after.current == session.current
            &&& after.previous == session.previous
            &&& after.closing == session.closing
        }),
{
    if r is Err && session.results@.len() == held(session.results@) {
        assert(session.results@.push(0).drop_last() =~= session.results@);
    }
}

/// What is given back is what was reserved: the place is free, the mailbox is gone, and nothing else of
/// the session changes.
pub proof fn law_cancelled_gives_back(
    session: SessionRuntime,
    hub: HubModel,
    reservation: DeleteReservation,
    after: SessionRuntime,
    hub_after: HubModel,
    other: int,
)
    requires
        hub.wf(),
        holds_place(session, reservation),
        cancels_delete(session, hub, reservation, after, hub_after),
        0 <= other < session.results@.len(),
    ensures
        after.results@.len() == session.results@.len(),
        after.results@[reservation.credit.spec_slot()] == 0,
        other != reservation.credit.spec_slot() ==> after.results@[other] == session.results@[other],
        hub.registered(reservation.id) ==> !hub_after.mailboxes.dom().contains(reservation.id.slot),
        !hub.registered(reservation.id) ==> hub_after == hub,
        after.current == session.current,
        after.previous == session.previous,
        after.id == session.id,
        after.closing == session.closing,
{
}

/// No reply changes what is deleted, how and in which version. The entry that is worked on is the one
/// that was found last, and the record that may be marked is the one that was found in it; one whose
/// address cannot be read is let go.
pub proof fn law_terms_are_kept(job: DeleteJob, reply: Result<DeleteReply, Error>)
    requires
        job.wf(),
        job.call != DeleteCall::Idle,
        reply matches Ok(reply) ==> reply.answers(job.call),
    ensures
        ({
            let (after, flow) = job.next(reply);
            &&& after.options == job.options
            &&& after.key == job.key
            &&& after.hash == job.hash
            &&& after.version == job.version
            &&& after.target != job.target ==> job.call is Resolve && reply is Ok && after.target
                == Some(reply->Ok_0->Resolved_0)
            &&& job.call is Resolve && flow is More ==> after.target == Some(reply->Ok_0->Resolved_0)
                && after.call == (DeleteCall::FindMutable { head: reply->Ok_0->Resolved_0.head })
            &&& job.call is FindMutable && reply is Ok && reply->Ok_0->Lease_0 is Some ==> after.lease
                == reply->Ok_0->Lease_0 && after.call is Begin && flow is More
            &&& job.call is Begin && reply is Ok && !job.options.force_tombstone
                && job.lease->0.address is Err ==> after.lease is None
            &&& job.call is Begin && reply is Ok && flow is More ==> after.lease == job.lease
            &&& after.removes != job.removes ==> job.call is Begin && reply is Ok
            &&& flow is More <==> !(after.call is Idle)
        }),
{
}

} // verus!
