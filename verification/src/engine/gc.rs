//! Truncation of the log: the new begin is published, then the index is cleaned bucket by bucket,
//! then the files behind the begin are deleted. The job decides; whoever runs it makes the calls.
use crate::allocation::{reserve, Memory};
use crate::device::DeviceCapabilities;
use crate::engine::cache::{find_taken, first_taken, lemma_first_taken};
use crate::engine::common::{
    enter, entered, is_invalid_state, page_start, page_start_of, retried, retry, Flow, Frontiers,
    Gate, Phase,
};
use crate::reports::{GcReport, PhysicalReclamation};
use crate::types::{Error, LogAddress, MaintenanceId, PageId};
use vstd::prelude::*;

verus! {

/// How far a truncation has come.
#[derive(Clone, Copy, Debug, PartialEq, Eq, Structural)]
pub enum GcStage {
    Validate,
    PublishBegin,
    Index,
    PrepareIo,
    Evict,
    Delete,
    Finish,
}

/// The call that a step waits for.
#[derive(Clone, Copy, Debug, PartialEq, Eq, Structural)]
pub enum GcCall {
    /// No step is under way.
    Idle,
    /// One step of the scan that checks the target.
    ScanStep,
    /// Publish the target as the begin of the log and of the checkpoints.
    PublishBegin,
    /// Let the coordinator leave the phase.
    LeaveIo,
    BucketCount,
    /// Remove what lies before the target from the bucket of the job.
    CleanBucket,
    LeaveIndex,
    /// Look whether pages are being flushed.
    StorageGate,
    DiscardPrefix,
    Frontiers,
    Evict,
    SupportsFiles,
    /// Count the segments that lie before the page of the target.
    Candidates,
    /// One step of the deletion under way.
    DeletionStep,
    /// Take the last candidate out of the storage and start its deletion.
    Detach,
    /// Take back what the scan has under way.
    DrainScan,
    /// Look whether the deletion under way has a request at the device.
    DeletionInflight,
    /// Look where the log begins, for the error of a failed job.
    FailedFrontiers,
    /// Look at the phase of the coordinator, up to twice, to leave what is left of the action.
    FinishPhase { round: u8 },
    FinishLeave { phase: Phase, round: u8 },
    FinishCheck,
    FinishAction,
    /// Hand over the result.
    Report,
}

#[derive(Clone, Copy, Debug, PartialEq, Eq, Structural)]
pub enum ScanStep {
    End,
    Record,
    Pending,
}

/// The reply to a call that did not fail.
#[derive(Clone, Copy, Debug, PartialEq, Eq, Structural)]
pub enum GcReply {
    Done,
    Scan(ScanStep),
    Flag(bool),
    Count(usize),
    Storage { gate: Gate, flushing: bool },
    Frontiers(Frontiers),
    Evicted { remaining: usize, phase_advanced: bool },
    /// Whether the deletion had a request at the device before and after the step, and is done.
    Deletion { before: bool, done: bool, after: bool },
    Phase(Phase),
}

impl GcReply {
    /// Whether this is the kind of reply that `call` gets.
    pub open spec fn answers(self, call: GcCall) -> bool {
        match call {
            GcCall::Idle => false,
            GcCall::ScanStep => self is Scan,
            GcCall::BucketCount => self is Count,
            GcCall::Candidates => self is Count,
            GcCall::StorageGate => self is Storage,
            GcCall::Frontiers => self is Frontiers,
            GcCall::FailedFrontiers => self is Frontiers,
            GcCall::Evict => self is Evicted,
            GcCall::SupportsFiles => self is Flag,
            GcCall::DrainScan => self is Flag,
            GcCall::DeletionInflight => self is Flag,
            GcCall::DeletionStep => self is Deletion,
            GcCall::FinishPhase { .. } => self is Phase,
            GcCall::FinishCheck => self is Phase,
            _ => self is Done,
        }
    }
}

pub struct GcJob {
    pub id: MaintenanceId,
    pub target: LogAddress,
    pub page_bytes: u64,
    pub applied_begin: LogAddress,
    pub stage: GcStage,
    pub call: GcCall,
    /// Whether a scan checks the target.
    pub validating: bool,
    pub bucket: usize,
    pub index_cleaned: bool,
    /// How many segments are left to delete.
    pub candidates: usize,
    /// Whether a deletion is under way. It may be left over from an earlier job.
    pub deletion: bool,
    pub deleted: u64,
    pub deferred: bool,
    pub failure: Option<Error>,
    pub result: Option<Result<GcReport, Error>>,
    pub reported: bool,
}

impl GcJob {
    /// Where the page of the target starts: only what lies before it leaves the memory.
    pub open spec fn floor(self) -> LogAddress {
        page_start(self.target, self.page_bytes)
    }

    pub open spec fn report(self) -> GcReport {
        GcReport {
            begin: self.target,
            index_cleaned: self.index_cleaned,
            deleted_segments: self.deleted,
            physical: if self.deferred {
                PhysicalReclamation::DeferredByRuntime { begin: LogAddress(0), end: self.target }
            } else {
                PhysicalReclamation::Completed
            },
        }
    }

    pub open spec fn error(self, begin: LogAddress, cause: Error) -> Error {
        Error::GcFailed {
            begin,
            index_cleaned: self.index_cleaned,
            deleted_segments: self.deleted,
            cause: Box::new(cause),
        }
    }

    /// The job with its result, on the way to report it.
    pub open spec fn finishing(self, result: Result<GcReport, Error>) -> GcJob {
        GcJob {
            failure: None,
            result: Some(result),
            call: GcCall::FinishPhase { round: 0 },
            ..self
        }
    }

    /// What a job does after its resources are taken back, when it failed.
    pub open spec fn drained(self) -> GcJob {
        GcJob {
            call: if self.deletion {
                GcCall::DeletionInflight
            } else {
                GcCall::FailedFrontiers
            },
            ..self
        }
    }

    /// The start of a step: what it asks for first, or how it ends without a call.
    pub open spec fn begun(self) -> (GcJob, Flow) {
        if self.failure is Some {
            if self.validating {
                (GcJob { call: GcCall::DrainScan, ..self }, Flow::More)
            } else {
                (self.drained(), Flow::More)
            }
        } else {
            match self.stage {
                GcStage::Validate => if self.validating {
                    (GcJob { call: GcCall::ScanStep, ..self }, Flow::More)
                } else {
                    (
                        GcJob { stage: GcStage::PublishBegin, call: GcCall::Idle, ..self },
                        Flow::Ended(true),
                    )
                },
                GcStage::PublishBegin => (GcJob { call: GcCall::PublishBegin, ..self }, Flow::More),
                GcStage::Index => (GcJob { call: GcCall::BucketCount, ..self }, Flow::More),
                GcStage::PrepareIo => (GcJob { call: GcCall::StorageGate, ..self }, Flow::More),
                GcStage::Evict => (GcJob { call: GcCall::Frontiers, ..self }, Flow::More),
                GcStage::Delete => if self.deletion {
                    (GcJob { call: GcCall::DeletionStep, ..self }, Flow::More)
                } else if self.candidates > 0 {
                    (GcJob { call: GcCall::Detach, ..self }, Flow::More)
                } else {
                    (
                        GcJob { stage: GcStage::Finish, call: GcCall::Idle, ..self },
                        Flow::Ended(true),
                    )
                },
                GcStage::Finish => (self.finishing(Ok(self.report())), Flow::More),
            }
        }
    }

    pub open spec fn more(self, call: GcCall) -> (GcJob, Result<Flow, Error>) {
        (GcJob { call, ..self }, Ok(Flow::More))
    }

    pub open spec fn ended(self, advanced: bool) -> (GcJob, Result<Flow, Error>) {
        (GcJob { call: GcCall::Idle, ..self }, Ok(Flow::Ended(advanced)))
    }

    pub open spec fn stopped(self, r: Result<Flow, Error>) -> (GcJob, Result<Flow, Error>) {
        (GcJob { call: GcCall::Idle, ..self }, r)
    }

    /// What a failed call makes of the job, and how the step goes on.
    pub open spec fn next_failed(self, error: Error) -> (GcJob, Result<Flow, Error>) {
        match self.call {
            GcCall::PublishBegin => self.stopped(retried(error)),
            GcCall::Evict => self.stopped(retried(error)),
            GcCall::Detach => {
                let rest = GcJob { candidates: (self.candidates - 1) as usize, ..self };
                if error == Error::Busy {
                    GcJob { deferred: true, ..rest }.ended(true)
                } else {
                    rest.stopped(Err(error))
                }
            },
            GcCall::FailedFrontiers => (
                self.finishing(Err(self.error(self.applied_begin, self.failure->0))),
                Ok(Flow::More),
            ),
            _ => self.stopped(Err(error)),
        }
    }

    /// What a reply makes of a job that truncates, and how the step goes on.
    pub open spec fn next_truncating(self, reply: GcReply) -> (GcJob, Result<Flow, Error>) {
        match self.call {
            GcCall::ScanStep => if reply->Scan_0 == ScanStep::End {
                GcJob { validating: false, stage: GcStage::PublishBegin, ..self }.ended(true)
            } else {
                self.ended(false)
            },
            GcCall::PublishBegin => GcJob { applied_begin: self.target, ..self }.more(
                GcCall::LeaveIo,
            ),
            GcCall::LeaveIo => GcJob { stage: GcStage::Index, ..self }.ended(true),
            GcCall::BucketCount => if self.bucket < reply->Count_0 {
                self.more(GcCall::CleanBucket)
            } else {
                GcJob { index_cleaned: true, ..self }.more(GcCall::LeaveIndex)
            },
            GcCall::CleanBucket => GcJob { bucket: (self.bucket + 1) as usize, ..self }.ended(true),
            GcCall::LeaveIndex => GcJob { stage: GcStage::PrepareIo, ..self }.ended(true),
            GcCall::StorageGate => match reply->gate {
                Gate::Held => self.ended(false),
                Gate::Poisoned => self.stopped(
                    Err(Error::InvalidState("GC 遇到后台日志锁中毒")),
                ),
                Gate::Free => if reply->flushing {
                    self.ended(false)
                } else {
                    self.more(GcCall::DiscardPrefix)
                },
            },
            GcCall::DiscardPrefix => GcJob { stage: GcStage::Evict, ..self }.ended(true),
            GcCall::Frontiers => if reply->Frontiers_0.safe_head.0 < self.floor().0 {
                self.more(GcCall::Evict)
            } else {
                self.more(GcCall::SupportsFiles)
            },
            GcCall::Evict => if reply->remaining != 0 {
                GcJob { deferred: true, stage: GcStage::Finish, ..self }.ended(true)
            } else {
                self.ended(reply->phase_advanced || self.deferred)
            },
            GcCall::SupportsFiles => if reply->Flag_0 {
                self.more(GcCall::Candidates)
            } else {
                GcJob { stage: GcStage::Finish, ..self }.ended(true)
            },
            GcCall::Candidates => GcJob {
                candidates: reply->Count_0,
                stage: GcStage::Delete,
                ..self
            }.ended(true),
            GcCall::DeletionStep => if !reply->done {
                self.ended(reply->before != reply->after)
            } else if self.deleted == u64::MAX {
                self.stopped(Err(Error::CapacityExceeded))
            } else {
                GcJob { deleted: (self.deleted + 1) as u64, deletion: false, ..self }.ended(true)
            },
            _ => GcJob {
                candidates: (self.candidates - 1) as usize,
                deletion: true,
                ..self
            }.ended(true),
        }
    }

    /// Whether the call belongs to the end of the job.
    pub open spec fn is_closing(self) -> bool {
        match self.call {
            GcCall::DrainScan => true,
            GcCall::DeletionInflight => true,
            GcCall::FailedFrontiers => true,
            GcCall::FinishPhase { .. } => true,
            GcCall::FinishLeave { .. } => true,
            GcCall::FinishCheck => true,
            GcCall::FinishAction => true,
            GcCall::Report => true,
            _ => false,
        }
    }

    /// What a reply makes of a job that ends, and how the step goes on.
    pub open spec fn next_closing(self, reply: GcReply) -> (GcJob, Result<Flow, Error>) {
        match self.call {
            GcCall::DrainScan => if reply->Flag_0 {
                (self.drained(), Ok(Flow::More))
            } else {
                self.ended(false)
            },
            GcCall::DeletionInflight => if reply->Flag_0 {
                self.stopped(Err(Error::InvalidState("删除失败仍存在不明在途请求")))
            } else {
                self.more(GcCall::FailedFrontiers)
            },
            GcCall::FailedFrontiers => (
                self.finishing(Err(self.error(reply->Frontiers_0.begin, self.failure->0))),
                Ok(Flow::More),
            ),
            GcCall::FinishPhase { round } => if reply->Phase_0 == Phase::GcIo || reply->Phase_0
                == Phase::GcIndex {
                self.more(GcCall::FinishLeave { phase: reply->Phase_0, round })
            } else {
                self.more(GcCall::FinishCheck)
            },
            GcCall::FinishLeave { round, .. } => if round == 0 {
                self.more(GcCall::FinishPhase { round: 1 })
            } else {
                self.more(GcCall::FinishCheck)
            },
            GcCall::FinishCheck => if reply->Phase_0 == Phase::Failed {
                self.more(GcCall::Report)
            } else {
                self.more(GcCall::FinishAction)
            },
            GcCall::FinishAction => self.more(GcCall::Report),
            _ => GcJob { reported: true, ..self }.ended(true),
        }
    }

    /// What a reply makes of the job, and how the step goes on.
    pub open spec fn next(self, reply: Result<GcReply, Error>) -> (GcJob, Result<Flow, Error>) {
        match reply {
            Err(error) => self.next_failed(error),
            Ok(reply) => if self.is_closing() {
                self.next_closing(reply)
            } else {
                self.next_truncating(reply)
            },
        }
    }

    /// What a job needs to hold: a page size, a candidate where one is detached, a cause where the
    /// error is made, and room for one more bucket where one is cleaned.
    pub open spec fn wf(self) -> bool {
        &&& self.page_bytes > 0
        &&& self.call is Detach ==> self.candidates > 0
        &&& self.call is FailedFrontiers || self.call is DeletionInflight || self.call is DrainScan
            ==> self.failure is Some
        &&& self.call is CleanBucket ==> self.bucket < usize::MAX
    }

    /// What holds of every job: the index is cleaned only below a begin that is published, memory
    /// and files are given back only after the whole index was cleaned, and nothing is reported
    /// twice.
    pub open spec fn ordered(self) -> bool {
        let deep = self.stage is PrepareIo || self.stage is Evict || self.stage is Delete;
        &&& self.stage is Index || deep ==> self.applied_begin == self.target
        &&& deep ==> self.index_cleaned
        &&& self.call is CleanBucket || self.call is BucketCount ==> self.stage is Index
        &&& self.call is LeaveIo ==> self.applied_begin == self.target
        &&& self.call is LeaveIndex ==> self.index_cleaned && self.applied_begin == self.target
        &&& self.call is StorageGate || self.call is DiscardPrefix ==> self.stage is PrepareIo
        &&& self.call is Frontiers || self.call is Evict || self.call is SupportsFiles
            || self.call is Candidates ==> self.stage is Evict
        &&& self.call is Detach || self.call is DeletionStep ==> self.stage is Delete
        &&& self.call is Detach ==> !self.deletion
        &&& self.call is DeletionStep ==> self.deletion
        &&& self.index_cleaned ==> self.applied_begin == self.target
        &&& self.stage is Finish ==> self.index_cleaned
        &&& self.result matches Some(Ok(report)) ==> report.begin == self.target
            && report.index_cleaned && self.applied_begin == self.target
    }

    /// A truncation that starts. `deletion` says whether an earlier one left a deletion under way.
    pub fn new(
        id: MaintenanceId,
        target: LogAddress,
        begin: LogAddress,
        page_bytes: u64,
        validating: bool,
        deletion: bool,
    ) -> (r: GcJob)
        requires
            page_bytes > 0,
        ensures
            r.wf(),
            r.ordered(),
            r == (GcJob {
                id,
                target,
                page_bytes,
                applied_begin: begin,
                stage: GcStage::Validate,
                call: GcCall::Idle,
                validating,
                bucket: 0,
                index_cleaned: false,
                candidates: 0,
                deletion,
                deleted: 0,
                deferred: false,
                failure: None,
                result: None,
                reported: false,
            }),
    {
        GcJob {
            id,
            target,
            page_bytes,
            applied_begin: begin,
            stage: GcStage::Validate,
            call: GcCall::Idle,
            validating,
            bucket: 0,
            index_cleaned: false,
            candidates: 0,
            deletion,
            deleted: 0,
            deferred: false,
            failure: None,
            result: None,
            reported: false,
        }
    }

    /// The page of the target: segments before it can be deleted.
    pub fn target_page(&self) -> (r: PageId)
        requires
            self.wf(),
        ensures
            r == PageId(self.target.0 / self.page_bytes),
    {
        PageId(self.target.0 / self.page_bytes)
    }

    fn enter_drained(&mut self)
        ensures
            *final(self) == old(self).drained(),
    {
        self.call = if self.deletion {
            GcCall::DeletionInflight
        } else {
            GcCall::FailedFrontiers
        };
    }

    fn enter_finish(&mut self, result: Result<GcReport, Error>)
        ensures
            *final(self) == old(self).finishing(result),
    {
        self.failure = None;
        self.result = Some(result);
        self.call = GcCall::FinishPhase { round: 0 };
    }

    fn enter_failed_finish(&mut self, begin: LogAddress)
        requires
            old(self).failure is Some,
        ensures
            *final(self) == old(self).finishing(Err(old(self).error(begin, old(self).failure->0))),
    {
        match self.failure.take() {
            Some(cause) => {
                let error = Error::GcFailed {
                    begin,
                    index_cleaned: self.index_cleaned,
                    deleted_segments: self.deleted,
                    cause: Box::new(cause),
                };
                self.enter_finish(Err(error));
            },
            None => {},
        }
    }

    /// Starts a step.
    pub fn begin(&mut self) -> (r: Flow)
        requires
            old(self).wf(),
        ensures
            (*final(self), r) == old(self).begun(),
            final(self).wf(),
    {
        if self.failure.is_some() {
            if self.validating {
                self.call = GcCall::DrainScan;
            } else {
                self.enter_drained();
            }
            return Flow::More;
        }
        match self.stage {
            GcStage::Validate => {
                if self.validating {
                    self.call = GcCall::ScanStep;
                    Flow::More
                } else {
                    self.stage = GcStage::PublishBegin;
                    self.call = GcCall::Idle;
                    Flow::Ended(true)
                }
            },
            GcStage::PublishBegin => {
                self.call = GcCall::PublishBegin;
                Flow::More
            },
            GcStage::Index => {
                self.call = GcCall::BucketCount;
                Flow::More
            },
            GcStage::PrepareIo => {
                self.call = GcCall::StorageGate;
                Flow::More
            },
            GcStage::Evict => {
                self.call = GcCall::Frontiers;
                Flow::More
            },
            GcStage::Delete => {
                if self.deletion {
                    self.call = GcCall::DeletionStep;
                    Flow::More
                } else if self.candidates > 0 {
                    self.call = GcCall::Detach;
                    Flow::More
                } else {
                    self.stage = GcStage::Finish;
                    self.call = GcCall::Idle;
                    Flow::Ended(true)
                }
            },
            GcStage::Finish => {
                let physical = if self.deferred {
                    PhysicalReclamation::DeferredByRuntime {
                        begin: LogAddress(0),
                        end: self.target,
                    }
                } else {
                    PhysicalReclamation::Completed
                };
                self.enter_finish(
                    Ok(
                        GcReport {
                            begin: self.target,
                            index_cleaned: self.index_cleaned,
                            deleted_segments: self.deleted,
                            physical,
                        },
                    ),
                );
                Flow::More
            },
        }
    }

    /// Takes the reply to the call of the step.
    pub fn accept(&mut self, reply: Result<GcReply, Error>) -> (r: Result<Flow, Error>)
        requires
            old(self).wf(),
            old(self).call != GcCall::Idle,
            reply matches Ok(reply) ==> reply.answers(old(self).call),
        ensures
            (*final(self), r) == old(self).next(reply),
            final(self).wf(),
    {
        let reply = match reply {
            Ok(reply) => reply,
            Err(error) => {
                return self.accept_error(error);
            },
        };
        match self.call {
            GcCall::DrainScan | GcCall::DeletionInflight | GcCall::FailedFrontiers
            | GcCall::FinishPhase { .. } | GcCall::FinishLeave { .. } | GcCall::FinishCheck
            | GcCall::FinishAction | GcCall::Report => self.accept_closing(reply),
            _ => self.accept_truncating(reply),
        }
    }

    fn accept_truncating(&mut self, reply: GcReply) -> (r: Result<Flow, Error>)
        requires
            old(self).wf(),
            old(self).call != GcCall::Idle,
            !old(self).is_closing(),
            reply.answers(old(self).call),
        ensures
            (*final(self), r) == old(self).next_truncating(reply),
            final(self).wf(),
    {
        let call = self.call;
        self.call = GcCall::Idle;
        match call {
            GcCall::ScanStep => {
                if reply != GcReply::Scan(ScanStep::End) {
                    return Ok(Flow::Ended(false));
                }
                self.validating = false;
                self.stage = GcStage::PublishBegin;
                Ok(Flow::Ended(true))
            },
            GcCall::PublishBegin => {
                self.applied_begin = self.target;
                self.call = GcCall::LeaveIo;
                Ok(Flow::More)
            },
            GcCall::LeaveIo => {
                self.stage = GcStage::Index;
                Ok(Flow::Ended(true))
            },
            GcCall::BucketCount => {
                let count = match reply {
                    GcReply::Count(count) => count,
                    _ => 0,
                };
                if self.bucket < count {
                    self.call = GcCall::CleanBucket;
                } else {
                    self.index_cleaned = true;
                    self.call = GcCall::LeaveIndex;
                }
                Ok(Flow::More)
            },
            GcCall::CleanBucket => {
                self.bucket = self.bucket + 1;
                Ok(Flow::Ended(true))
            },
            GcCall::LeaveIndex => {
                self.stage = GcStage::PrepareIo;
                Ok(Flow::Ended(true))
            },
            GcCall::StorageGate => match reply {
                GcReply::Storage { gate: Gate::Poisoned, .. } => Err(
                    Error::InvalidState("GC 遇到后台日志锁中毒"),
                ),
                GcReply::Storage { gate: Gate::Free, flushing: false } => {
                    self.call = GcCall::DiscardPrefix;
                    Ok(Flow::More)
                },
                _ => Ok(Flow::Ended(false)),
            },
            GcCall::DiscardPrefix => {
                self.stage = GcStage::Evict;
                Ok(Flow::Ended(true))
            },
            GcCall::Frontiers => {
                let floor = page_start_of(self.target, self.page_bytes);
                let evict = match reply {
                    GcReply::Frontiers(f) => f.safe_head.0 < floor.0,
                    _ => false,
                };
                self.call = if evict {
                    GcCall::Evict
                } else {
                    GcCall::SupportsFiles
                };
                Ok(Flow::More)
            },
            GcCall::Evict => {
                let (remaining, phase_advanced) = match reply {
                    GcReply::Evicted { remaining, phase_advanced } => (remaining, phase_advanced),
                    _ => (0, false),
                };
                if remaining != 0 {
                    self.deferred = true;
                    self.stage = GcStage::Finish;
                    Ok(Flow::Ended(true))
                } else {
                    Ok(Flow::Ended(phase_advanced || self.deferred))
                }
            },
            GcCall::SupportsFiles => {
                if reply == GcReply::Flag(true) {
                    self.call = GcCall::Candidates;
                    Ok(Flow::More)
                } else {
                    self.stage = GcStage::Finish;
                    Ok(Flow::Ended(true))
                }
            },
            GcCall::Candidates => {
                self.candidates = match reply {
                    GcReply::Count(count) => count,
                    _ => 0,
                };
                self.stage = GcStage::Delete;
                Ok(Flow::Ended(true))
            },
            GcCall::DeletionStep => {
                let (before, done, after) = match reply {
                    GcReply::Deletion { before, done, after } => (before, done, after),
                    _ => (false, false, false),
                };
                if !done {
                    return Ok(Flow::Ended(before != after));
                }
                match self.deleted.checked_add(1) {
                    Some(deleted) => {
                        self.deleted = deleted;
                        self.deletion = false;
                        Ok(Flow::Ended(true))
                    },
                    None => Err(Error::CapacityExceeded),
                }
            },
            _ => {
                self.candidates = self.candidates - 1;
                self.deletion = true;
                Ok(Flow::Ended(true))
            },
        }
    }

    fn accept_closing(&mut self, reply: GcReply) -> (r: Result<Flow, Error>)
        requires
            old(self).wf(),
            old(self).is_closing(),
            reply.answers(old(self).call),
        ensures
            (*final(self), r) == old(self).next_closing(reply),
            final(self).wf(),
    {
        match self.call {
            GcCall::DrainScan => {
                if reply == GcReply::Flag(true) {
                    self.enter_drained();
                    Ok(Flow::More)
                } else {
                    self.call = GcCall::Idle;
                    Ok(Flow::Ended(false))
                }
            },
            GcCall::DeletionInflight => {
                if reply == GcReply::Flag(true) {
                    self.call = GcCall::Idle;
                    return Err(Error::InvalidState("删除失败仍存在不明在途请求"));
                }
                self.call = GcCall::FailedFrontiers;
                Ok(Flow::More)
            },
            GcCall::FailedFrontiers => {
                let begin = match reply {
                    GcReply::Frontiers(f) => f.begin,
                    _ => self.applied_begin,
                };
                self.enter_failed_finish(begin);
                Ok(Flow::More)
            },
            GcCall::FinishPhase { round } => {
                self.call = match reply {
                    GcReply::Phase(Phase::GcIo) => GcCall::FinishLeave {
                        phase: Phase::GcIo,
                        round,
                    },
                    GcReply::Phase(Phase::GcIndex) => GcCall::FinishLeave {
                        phase: Phase::GcIndex,
                        round,
                    },
                    _ => GcCall::FinishCheck,
                };
                Ok(Flow::More)
            },
            GcCall::FinishLeave { round, .. } => {
                self.call = if round == 0 {
                    GcCall::FinishPhase { round: 1 }
                } else {
                    GcCall::FinishCheck
                };
                Ok(Flow::More)
            },
            GcCall::FinishCheck => {
                self.call = if reply == GcReply::Phase(Phase::Failed) {
                    GcCall::Report
                } else {
                    GcCall::FinishAction
                };
                Ok(Flow::More)
            },
            GcCall::FinishAction => {
                self.call = GcCall::Report;
                Ok(Flow::More)
            },
            _ => {
                self.call = GcCall::Idle;
                self.reported = true;
                Ok(Flow::Ended(true))
            },
        }
    }

    fn accept_error(&mut self, error: Error) -> (r: Result<Flow, Error>)
        requires
            old(self).wf(),
            old(self).call != GcCall::Idle,
        ensures
            (*final(self), r) == old(self).next_failed(error),
            final(self).wf(),
    {
        let call = self.call;
        self.call = GcCall::Idle;
        match call {
            GcCall::PublishBegin | GcCall::Evict => retry(error),
            GcCall::Detach => {
                self.candidates = self.candidates - 1;
                match error {
                    Error::Busy => {
                        self.deferred = true;
                        Ok(Flow::Ended(true))
                    },
                    error => Err(error),
                }
            },
            GcCall::FailedFrontiers => {
                let begin = self.applied_begin;
                self.enter_failed_finish(begin);
                Ok(Flow::More)
            },
            _ => Err(error),
        }
    }

    /// Takes the outcome of a step. An error is kept as the failure of the job, unless it has one;
    /// it closes the engine where the job had failed before, or where the state is broken.
    pub fn conclude(&mut self, draining: bool, outcome: Result<bool, Error>) -> (r: Concluded)
        requires
            old(self).wf(),
            old(self).call == GcCall::Idle,
        ensures
            final(self).wf(),
            match outcome {
                Ok(advanced) => *final(self) == *old(self) && r == (Concluded {
                    fatal: false,
                    advanced,
                }),
                Err(error) => {
                    &&& r == (Concluded {
                        fatal: draining || error is InvalidState,
                        advanced: false,
                    })
                    &&& *final(self) == (GcJob {
                        failure: if old(self).failure is Some {
                            old(self).failure
                        } else {
                            Some(error)
                        },
                        ..*old(self)
                    })
                },
            },
    {
        match outcome {
            Ok(advanced) => Concluded { fatal: false, advanced },
            Err(error) => {
                let fatal = draining || is_invalid_state(&error);
                if self.failure.is_none() {
                    self.failure = Some(error);
                }
                Concluded { fatal, advanced: false }
            },
        }
    }

    /// The error that goes to the ticket when the engine fails, unless the job has reported.
    /// `begin` is where the log begins, if that is known.
    pub fn fail(&mut self, begin: Option<LogAddress>, cause: Error) -> (r: Option<Error>)
        requires
            old(self).wf(),
            old(self).call == GcCall::Idle,
        ensures
            final(self).wf(),
            old(self).reported ==> r is None && *final(self) == *old(self),
            !old(self).reported ==> {
                let begin = match begin {
                    Some(begin) => begin,
                    None => old(self).applied_begin,
                };
                let cause = match old(self).failure {
                    Some(failure) => failure,
                    None => cause,
                };
                &&& r == Some(old(self).error(begin, cause))
                &&& *final(self) == (GcJob { failure: None, ..*old(self) })
            },
    {
        if self.reported {
            return None;
        }
        let begin = match begin {
            Some(begin) => begin,
            None => self.applied_begin,
        };
        let cause = match self.failure.take() {
            Some(failure) => failure,
            None => cause,
        };
        Some(
            Error::GcFailed {
                begin,
                index_cleaned: self.index_cleaned,
                deleted_segments: self.deleted,
                cause: Box::new(cause),
            },
        )
    }
}

/// What the outcome of a step means to the engine.
#[derive(Clone, Copy, Debug, PartialEq, Eq, Structural)]
pub struct Concluded {
    /// The engine has to close.
    pub fatal: bool,
    pub advanced: bool,
}

/// The truncation under way, and what the one before left behind.
pub struct GcRuntime {
    pub job: Option<GcJob>,
    /// A segment whose deletion was begun.
    pub deletion: bool,
}

impl GcRuntime {
    /// No step is under way.
    pub open spec fn wf(self) -> bool {
        self.job matches Some(job) ==> job.wf() && job.call == GcCall::Idle
    }

    pub fn new() -> (r: GcRuntime)
        ensures
            r.wf(),
            r == (GcRuntime { job: None, deletion: false }),
    {
        GcRuntime { job: None, deletion: false }
    }

    /// Takes the answer of the coordinator to the action that was asked for. `begin` is where the
    /// log begins, and `validating` says whether the target has to be checked.
    pub fn start(
        &mut self,
        started: Result<MaintenanceId, Error>,
        target: LogAddress,
        begin: LogAddress,
        page_bytes: u64,
        validating: bool,
    ) -> (r: Result<MaintenanceId, Error>)
        requires
            old(self).job is None,
            page_bytes > 0,
        ensures
            final(self).wf(),
            r == started,
            final(self).deletion == old(self).deletion,
            match started {
                Err(_) => final(self).job is None,
                Ok(id) => {
                    &&& final(self).job matches Some(job)
                    &&& job.ordered()
                    &&& job == (GcJob {
                        id,
                        target,
                        page_bytes,
                        applied_begin: begin,
                        stage: GcStage::Validate,
                        call: GcCall::Idle,
                        validating,
                        bucket: 0,
                        index_cleaned: false,
                        candidates: 0,
                        deletion: old(self).deletion,
                        deleted: 0,
                        deferred: false,
                        failure: None,
                        result: None,
                        reported: false,
                    })
                },
            },
    {
        match started {
            Err(error) => Err(error),
            Ok(id) => {
                self.job = Some(
                    GcJob::new(id, target, begin, page_bytes, validating, self.deletion),
                );
                Ok(id)
            },
        }
    }

    /// Whether a step is made.
    pub fn enter(&self, gate: Gate) -> (r: Result<bool, Error>)
        ensures
            r == entered(gate, "GC 任务锁中毒", self.job matches Some(job) && !job.reported),
    {
        let due = match &self.job {
            Some(job) => !job.reported,
            None => false,
        };
        enter(gate, "GC 任务锁中毒", due)
    }

    /// Ends a step. Where the engine has failed, the job was told so before, and `delivered` says
    /// what came of its report, if it had one to make: nothing advances any more. Otherwise the
    /// result says whether the step advanced, and whether the truncation is done.
    pub fn leave(
        &mut self,
        failed: bool,
        advanced: bool,
        delivered: Option<Result<(), Error>>,
    ) -> (r: Result<(bool, bool), Error>)
        requires
            old(self).wf(),
            old(self).job is Some,
        ensures
            final(self).wf(),
            failed ==> {
                &&& r == Err::<(bool, bool), Error>(
                    match delivered {
                        Some(Err(error)) => error,
                        _ => Error::InvalidState("GC 失败关闭，详见维护报告"),
                    },
                )
                &&& final(self).deletion == old(self).deletion
                &&& final(self).job == Some(
                    if delivered matches Some(Ok(_)) {
                        GcJob { reported: true, ..old(self).job->0 }
                    } else {
                        old(self).job->0
                    },
                )
            },
            !failed ==> {
                let job = old(self).job->0;
                &&& r == Ok::<(bool, bool), Error>((advanced, job.reported))
                &&& final(self).deletion == job.deletion
                &&& final(self).job == (if job.reported {
                    None
                } else {
                    Some(job)
                })
            },
    {
        if failed {
            return match self.told(delivered) {
                Err(error) => Err(error),
                Ok(()) => Err(Error::InvalidState("GC 失败关闭，详见维护报告")),
            };
        }
        let (deletion, finished) = match &self.job {
            Some(job) => (job.deletion, job.reported),
            None => (self.deletion, false),
        };
        self.deletion = deletion;
        if finished {
            self.job = None;
        }
        Ok((advanced, finished))
    }

    /// Whether a job has to be told that the engine failed.
    pub fn fails(&self, gate: Gate) -> (r: Result<bool, Error>)
        ensures
            r == entered(gate, "GC 任务锁中毒", self.job is Some),
    {
        enter(gate, "GC 任务锁中毒", self.job.is_some())
    }

    /// A job was told that the engine failed. `delivered` says what came of its report, if it had
    /// one to make: only a report that was taken is the last one.
    pub fn told(&mut self, delivered: Option<Result<(), Error>>) -> (r: Result<(), Error>)
        requires
            old(self).wf(),
            old(self).job is Some,
        ensures
            final(self).wf(),
            final(self).deletion == old(self).deletion,
            match delivered {
                None => r is Ok && final(self).job == old(self).job,
                Some(Err(error)) => r == Err::<(), Error>(error) && final(self).job == old(
                    self,
                ).job,
                Some(Ok(_)) => r is Ok && final(self).job == Some(
                    GcJob { reported: true, ..old(self).job->0 },
                ),
            },
    {
        match delivered {
            None => Ok(()),
            Some(Err(error)) => Err(error),
            Some(Ok(())) => {
                if let Some(job) = &mut self.job {
                    job.reported = true;
                }
                Ok(())
            },
        }
    }

    /// The device has stopped, and has given everything back: the job and its segment are dropped.
    pub fn stop(&mut self, poisoned: bool) -> (r: Result<(), Error>)
        ensures
            poisoned ==> r == Err::<(), Error>(Error::InvalidState("GC 任务锁中毒"))
                && *final(self) == *old(self),
            !poisoned ==> r is Ok && *final(self) == (GcRuntime { job: None, deletion: false }),
    {
        if poisoned {
            return Err(Error::InvalidState("GC 任务锁中毒"));
        }
        self.job = None;
        self.deletion = false;
        Ok(())
    }
}

/// Whether a truncation may start, as far as the engine decides. `gate` is the lock of the job, and
/// `running` says whether there is one.
pub fn gc_admission(
    failed: bool,
    shutdown_requested: bool,
    caps: &DeviceCapabilities,
    gate: Gate,
    running: bool,
) -> (r: Result<(), Error>)
    ensures
        r == (if failed || shutdown_requested {
            Err::<(), Error>(Error::InvalidState("存储已关闭或失败"))
        } else if caps.supports_files && !caps.supports_directory_sync {
            Err::<(), Error>(Error::UnsupportedDurability)
        } else if gate == Gate::Held {
            Err::<(), Error>(Error::Busy)
        } else if gate == Gate::Poisoned {
            Err::<(), Error>(Error::InvalidState("GC 任务锁中毒"))
        } else if running {
            Err::<(), Error>(Error::Busy)
        } else {
            Ok::<(), Error>(())
        }),
{
    if failed || shutdown_requested {
        return Err(Error::InvalidState("存储已关闭或失败"));
    }
    if caps.supports_files && !caps.supports_directory_sync {
        return Err(Error::UnsupportedDurability);
    }
    match gate {
        Gate::Held => {
            return Err(Error::Busy);
        },
        Gate::Poisoned => {
            return Err(Error::InvalidState("GC 任务锁中毒"));
        },
        Gate::Free => {},
    }
    if running {
        return Err(Error::Busy);
    }
    Ok(())
}

/// Whether the begin may be published: all operations and the checkpoints have to stand still. The
/// first that does not decides.
pub open spec fn publication(operations: Seq<Gate>, checkpoints: Gate) -> Result<(), Error> {
    let taken = first_taken(operations, 0);
    if taken < operations.len() {
        Err(
            if operations[taken] == Gate::Held {
                Error::Busy
            } else {
                Error::InvalidState("GC 遇到业务仲裁锁中毒")
            },
        )
    } else if checkpoints == Gate::Held {
        Err(Error::Busy)
    } else if checkpoints == Gate::Poisoned {
        Err(Error::InvalidState("GC 遇到检查点锁中毒"))
    } else {
        Ok(())
    }
}

/// Whether the begin may be published. The locks are held together, which takes memory first.
pub fn publication_gates(operations: &[Gate], checkpoints: Gate, memory: Memory) -> (r: Result<
    (),
    Error,
>)
    ensures
        memory is Refused && operations@.len() > 0 ==> r == Err::<(), Error>(Error::OutOfMemory),
        memory is Granted || operations@.len() == 0 ==> r == publication(operations@, checkpoints),
        memory is Allocator ==> r == publication(operations@, checkpoints) || r == Err::<(), Error>(
            Error::OutOfMemory,
        ),
{
    let mut guards: Vec<Gate> = Vec::new();
    if !reserve(&mut guards, operations.len(), memory) {
        return Err(Error::OutOfMemory);
    }
    match find_taken(operations) {
        Gate::Held => return Err(Error::Busy),
        Gate::Poisoned => return Err(Error::InvalidState("GC 遇到业务仲裁锁中毒")),
        Gate::Free => {},
    }
    match checkpoints {
        Gate::Held => Err(Error::Busy),
        Gate::Poisoned => Err(Error::InvalidState("GC 遇到检查点锁中毒")),
        Gate::Free => Ok(()),
    }
}

/// The range that has to be scanned to show that `target` is the start of a record: the part of its
/// page before it, where the page is no longer in memory.
pub fn validation_range(frontiers: &Frontiers, target: LogAddress, page_bytes: u64) -> (r: Option<
    (LogAddress, LogAddress),
>)
    requires
        page_bytes > 0,
    ensures
        r == (if target != frontiers.begin && target.0 < frontiers.head.0 && target.0 as int
            % page_bytes as int != 0 {
            let start = page_start(target, page_bytes);
            Some(
                (
                    if start.0 < frontiers.begin.0 {
                        frontiers.begin
                    } else {
                        start
                    },
                    target,
                ),
            )
        } else {
            None
        }),
{
    if target != frontiers.begin && target.0 < frontiers.head.0 && target.0 % page_bytes != 0 {
        let start = page_start_of(target, page_bytes);
        let from = if start.0 < frontiers.begin.0 {
            frontiers.begin
        } else {
            start
        };
        Some((from, target))
    } else {
        None
    }
}

/// The order of a truncation is kept by every step and every reply: the begin is published before
/// the index is cleaned, the whole index is cleaned before memory and files are given back, and
/// success is reported only after both.
pub proof fn law_order(job: GcJob, reply: Result<GcReply, Error>)
    requires
        job.wf(),
        job.ordered(),
        reply matches Ok(reply) ==> reply.answers(job.call),
    ensures
        job.begun().0.ordered(),
        job.call != GcCall::Idle ==> job.next(reply).0.ordered(),
{
}

/// What was deleted is never forgotten: the count grows by one with each deletion that is done, and
/// the error of a failed job carries it, with what was published and cleaned.
pub proof fn law_effects_are_reported(job: GcJob, reply: Result<GcReply, Error>)
    requires
        job.wf(),
        job.call != GcCall::Idle,
        reply matches Ok(reply) ==> reply.answers(job.call),
    ensures
        job.next(reply).0.deleted == job.deleted + (if job.call == GcCall::DeletionStep
            && job.deleted < u64::MAX && reply is Ok && reply->Ok_0->done {
            1int
        } else {
            0
        }),
        job.index_cleaned ==> job.next(reply).0.index_cleaned,
        job.call == GcCall::FailedFrontiers ==> (job.next(reply).0.result matches Some(
            Err(Error::GcFailed { index_cleaned, deleted_segments, cause, .. }),
        ) && index_cleaned == job.index_cleaned && deleted_segments == job.deleted && *cause
            == job.failure->0),
{
}

/// A job reports once: what has reported stays so, and fails without a report.
pub proof fn law_one_report(job: GcJob, reply: Result<GcReply, Error>)
    requires
        job.reported,
    ensures
        job.begun().0.reported,
        job.next(reply).0.reported,
{
}

/// Every segment that was counted is accounted for: it is still to be detached, its deletion is under
/// way, or it is deleted. A detach takes exactly one candidate away, failed or not, and nothing else
/// does; a deletion that is done counts once.
pub proof fn law_candidates_are_accounted(job: GcJob, reply: Result<GcReply, Error>)
    requires
        job.wf(),
        job.call != GcCall::Idle,
        reply matches Ok(reply) ==> reply.answers(job.call),
    ensures
        ({
            let after = job.next(reply).0;
            &&& job.call is Detach ==> after.candidates + 1 == job.candidates
            &&& job.call is Candidates && reply is Ok ==> after.candidates == reply->Ok_0->Count_0
            &&& !(job.call is Detach) && !(job.call is Candidates && reply is Ok)
                ==> after.candidates == job.candidates
            &&& after.deletion != job.deletion ==> {
                ||| job.call is Detach && reply is Ok && after.deletion
                ||| job.call is DeletionStep && reply is Ok && reply->Ok_0->done
                    && !after.deletion && after.deleted == job.deleted + 1
            }
            &&& job.call is Detach && reply is Ok ==> after.deletion
            &&& job.call is DeletionStep && reply is Ok && reply->Ok_0->done && job.deleted
                < u64::MAX ==> !after.deletion && after.deleted == job.deleted + 1
            &&& after.deleted > job.deleted ==> job.call is DeletionStep && !after.deletion
        }),
        job.begun().0.candidates == job.candidates,
        job.begun().0.deletion == job.deletion,
        job.begun().0.deleted == job.deleted,
        job.begun().0.deferred == job.deferred,
{
}

/// How many segments a job has deleted, deletes now or has still to detach.
pub open spec fn segments(job: GcJob) -> int {
    job.deleted + job.candidates + if job.deletion {
        1int
    } else {
        0
    }
}

/// No segment is lost while the files are deleted: their number stays the same with every step and
/// every reply, except that a segment which could not be detached is left, which defers the rest or
/// fails the step. The stage is left only when nothing is to be detached or deleted any more.
pub proof fn law_no_segment_is_lost(job: GcJob, reply: Result<GcReply, Error>)
    requires
        job.wf(),
        job.ordered(),
        job.stage is Delete,
        reply matches Ok(reply) ==> reply.answers(job.call),
    ensures
        segments(job.begun().0) == segments(job),
        !(job.begun().0.stage is Delete) ==> job.failure is None && job.candidates == 0
            && !job.deletion,
        job.failure is None && job.deletion ==> job.begun().0.call is DeletionStep,
        job.failure is None && !job.deletion && job.candidates > 0 ==> job.begun().0.call is Detach,
        job.failure is None && !job.deletion && job.candidates == 0 ==> job.begun().0.stage is Finish,
        job.call is Detach || job.call is DeletionStep ==> {
            let (after, r) = job.next(reply);
            &&& after.stage is Delete
            &&& reply is Ok ==> segments(after) == segments(job)
            &&& job.call is DeletionStep && reply is Err ==> r is Err && segments(after)
                == segments(job)
            &&& job.call is Detach && reply is Err ==> segments(after) + 1 == segments(job) && (
            after.deferred || r is Err)
        },
{
}

/// Whether a job from which nothing was put off still has all the `found` segments, deleted or not.
pub open spec fn owes(job: GcJob, found: int) -> bool {
    job.stage is Delete || job.stage is Finish ==> job.deferred || segments(job) == found
}

/// A truncation that reports that everything was reclaimed has deleted as many segments as it had
/// counted, and one more where an earlier truncation had left one: `found` is their number from the
/// moment they were counted.
pub proof fn law_completed_means_deleted(job: GcJob, reply: Result<GcReply, Error>, found: int)
    requires
        job.wf(),
        job.ordered(),
        owes(job, found),
        job.stage is Delete || job.stage is Finish,
        reply matches Ok(reply) ==> reply.answers(job.call),
    ensures
        owes(job.begun().0, found),
        job.call != GcCall::Idle && job.next(reply).1 is Ok ==> owes(job.next(reply).0, found),
        job.stage is Finish && job.failure is None && !job.deletion && job.candidates == 0 ==> (
        job.begun().0.result matches Some(Ok(report)) && report.deleted_segments == job.deleted && (
        report.physical is Completed <==> !job.deferred) && (report.physical is Completed
            ==> report.deleted_segments == found)),
{
}

/// What was counted when the files were looked at is what is owed from then on.
pub proof fn law_counted_is_owed(job: GcJob, count: usize)
    requires
        job.wf(),
        job.ordered(),
        job.call is Candidates,
    ensures
        ({
            let (after, r) = job.next(Ok(GcReply::Count(count)));
            &&& r == Ok::<Flow, Error>(Flow::Ended(true))
            &&& after.stage is Delete
            &&& segments(after) == job.deleted + count + if job.deletion {
                1int
            } else {
                0
            }
            &&& owes(after, segments(after))
        }),
{
}

/// A stage is left only by what ends it: the scan said that it is at its end, the begin was published,
/// every bucket was cleaned, the prefix was discarded, the segments were counted or there are none,
/// or all were deleted.
pub proof fn law_stages_end_with_their_work(job: GcJob, reply: Result<GcReply, Error>)
    requires
        job.wf(),
        job.ordered(),
        reply matches Ok(reply) ==> reply.answers(job.call),
    ensures
        job.begun().0.stage != job.stage ==> job.failure is None && {
            ||| job.stage is Validate && !job.validating && job.begun().0.stage is PublishBegin
            ||| job.stage is Delete && !job.deletion && job.candidates == 0
                && job.begun().0.stage is Finish
        },
        job.call != GcCall::Idle && job.next(reply).0.stage != job.stage ==> reply is Ok && {
            let stage = job.next(reply).0.stage;
            match job.call {
                GcCall::ScanStep => reply->Ok_0 == GcReply::Scan(ScanStep::End)
                    && stage is PublishBegin && !job.next(reply).0.validating,
                GcCall::LeaveIo => job.applied_begin == job.target && stage is Index,
                GcCall::LeaveIndex => job.index_cleaned && stage is PrepareIo,
                GcCall::DiscardPrefix => stage is Evict,
                GcCall::Evict => reply->Ok_0->remaining > 0 && stage is Finish
                    && job.next(reply).0.deferred,
                GcCall::SupportsFiles => reply->Ok_0 == GcReply::Flag(false) && stage is Finish,
                GcCall::Candidates => stage is Delete,
                _ => false,
            }
        },
        job.call is ScanStep && reply is Ok ==> if reply->Ok_0->Scan_0 == ScanStep::End {
            job.next(reply).0.stage is PublishBegin && job.next(reply).1 == Ok::<Flow, Error>(
                Flow::Ended(true),
            )
        } else {
            job.next(reply).0 == (GcJob { call: GcCall::Idle, ..job }) && job.next(reply).1 == Ok::<
                Flow,
                Error,
            >(Flow::Ended(false))
        },
        job.validating && !job.next(reply).0.validating && job.call != GcCall::Idle ==> reply == Ok::<
            GcReply,
            Error,
        >(GcReply::Scan(ScanStep::End)),
{
}

/// Every bucket is cleaned, one after the other: the job counts a bucket only when it was cleaned, asks
/// to clean one only while there are more, and takes the index for cleaned only when there are none.
pub proof fn law_every_bucket_is_cleaned(job: GcJob, reply: Result<GcReply, Error>)
    requires
        job.wf(),
        job.call != GcCall::Idle,
        reply matches Ok(reply) ==> reply.answers(job.call),
    ensures
        ({
            let (after, r) = job.next(reply);
            &&& after.bucket == job.bucket + if job.call is CleanBucket && reply is Ok {
                1int
            } else {
                0
            }
            &&& job.call is BucketCount && reply is Ok ==> r == Ok::<Flow, Error>(Flow::More) && if (
            job.bucket < reply->Ok_0->Count_0) {
                after.call is CleanBucket && after.index_cleaned == job.index_cleaned
            } else {
                after.call is LeaveIndex && after.index_cleaned
            }
            &&& after.call is CleanBucket ==> job.call is BucketCount && reply is Ok
            &&& after.index_cleaned != job.index_cleaned ==> job.call is BucketCount && reply is Ok
                && reply->Ok_0->Count_0 <= job.bucket
            &&& after.call is LeaveIndex ==> after.index_cleaned
            &&& after.applied_begin == (if job.call is PublishBegin && reply is Ok {
                job.target
            } else {
                job.applied_begin
            })
            &&& after.target == job.target
            &&& after.id == job.id
            &&& after.page_bytes == job.page_bytes
        }),
        job.begun().0.bucket == job.bucket,
        job.begun().0.index_cleaned == job.index_cleaned,
        job.begun().0.applied_begin == job.applied_begin,
        job.begun().0.target == job.target,
        job.stage is Index && job.failure is None ==> job.begun().0.call is BucketCount,
{
}

/// Pages leave the memory before their files are looked at: the job asks to evict as long as the safe
/// head lies before the page of the target, and looks for files only then; nothing is discarded while
/// pages are being flushed.
pub proof fn law_memory_before_files(job: GcJob, reply: Result<GcReply, Error>)
    requires
        job.wf(),
        job.ordered(),
        job.call != GcCall::Idle,
        reply matches Ok(reply) ==> reply.answers(job.call),
    ensures
        ({
            let (after, r) = job.next(reply);
            let first = job.target.0 as int / job.page_bytes as int * job.page_bytes as int;
            &&& after.call is Evict ==> job.call is Frontiers && reply is Ok
                && reply->Ok_0->Frontiers_0.safe_head.0 < first
            &&& after.call is SupportsFiles ==> job.call is Frontiers && reply is Ok
                && reply->Ok_0->Frontiers_0.safe_head.0 >= first
            &&& job.call is Frontiers && reply is Ok ==> after.call is Evict
                || after.call is SupportsFiles
            &&& after.call is DiscardPrefix ==> job.call is StorageGate && reply == Ok::<
                GcReply,
                Error,
            >(GcReply::Storage { gate: Gate::Free, flushing: false })
            &&& job.call is StorageGate && reply == Ok::<GcReply, Error>(
                GcReply::Storage { gate: Gate::Free, flushing: false },
            ) ==> after.call is DiscardPrefix
            &&& job.call is StorageGate && reply is Ok && reply->Ok_0->gate is Poisoned ==> r is Err
            &&& job.call is StorageGate && reply is Ok && !(reply->Ok_0->gate is Poisoned) && !(
            after.call is DiscardPrefix) ==> r == Ok::<Flow, Error>(Flow::Ended(false))
                && after.stage is PrepareIo
            &&& after.call is Candidates ==> job.call is SupportsFiles && reply == Ok::<
                GcReply,
                Error,
            >(GcReply::Flag(true))
            &&& job.call is SupportsFiles && reply is Ok ==> if reply->Ok_0->Flag_0 {
                after.call is Candidates
            } else {
                after.stage is Finish && r == Ok::<Flow, Error>(Flow::Ended(true))
            }
            &&& job.call is Evict && reply is Ok && reply->Ok_0->remaining == 0 ==> {
                &&& after == (GcJob { call: GcCall::Idle, ..job })
                &&& r == Ok::<Flow, Error>(
                    Flow::Ended(reply->Ok_0->phase_advanced || job.deferred),
                )
            }
            &&& after.deferred != job.deferred ==> after.deferred && {
                ||| job.call is Detach && reply == Err::<GcReply, Error>(Error::Busy)
                ||| job.call is Evict && reply is Ok && reply->Ok_0->remaining > 0
            }
        }),
{
    if job.call is Frontiers {
        let t = job.target.0 as int;
        let p = job.page_bytes as int;
        vstd::arithmetic::div_mod::lemma_fundamental_div_mod(t, p);
        assert(p * (t / p) == t / p * p) by (nonlinear_arith);
        vstd::arithmetic::div_mod::lemma_div_pos_is_pos(t, p);
        assert(0 <= t / p * p <= t) by (nonlinear_arith)
            requires
                t == p * (t / p) + t % p,
                p > 0,
                0 <= t % p,
                0 <= t / p,
        ;
    }
}

/// A call that fails fails the step with its own error. The exceptions: a begin that cannot be
/// published or pages that cannot be evicted now are tried again, a segment that is busy is left for
/// later, and a job that failed reports without knowing where the log begins.
pub proof fn law_errors_are_kept(job: GcJob, error: Error)
    requires
        job.wf(),
        job.call != GcCall::Idle,
    ensures
        ({
            let (after, r) = job.next(Err(error));
            if (job.call is PublishBegin || job.call is Evict) && error == Error::Busy {
                r == Ok::<Flow, Error>(Flow::Ended(false)) && after == (GcJob {
                    call: GcCall::Idle,
                    ..job
                })
            } else if job.call is Detach && error == Error::Busy {
                r == Ok::<Flow, Error>(Flow::Ended(true)) && after.deferred
            } else if job.call is FailedFrontiers {
                &&& r == Ok::<Flow, Error>(Flow::More)
                &&& after.result matches Some(Err(Error::GcFailed { begin, cause, .. }))
                &&& begin == job.applied_begin
                &&& *cause == job.failure->0
            } else {
                r == Err::<Flow, Error>(error) && after.stage == job.stage && after.failure
                    == job.failure && after.result == job.result && after.reported == job.reported
            }
        }),
{
}

/// How a truncation ends: the phases that are left of the action are left, the action is finished
/// unless it failed, and then the result is handed over. The result of a job that did not fail tells
/// what it did, that of one that failed carries its failure and where the log begins; nothing is
/// reported before there is a result.
pub proof fn law_result_is_handed_over(job: GcJob, reply: Result<GcReply, Error>)
    requires
        job.wf(),
        job.ordered(),
        reply matches Ok(reply) ==> reply.answers(job.call),
    ensures
        job.stage is Finish && job.failure is None ==> {
            &&& job.begun().1 is More
            &&& job.begun().0.call is FinishPhase
            &&& job.begun().0.result matches Some(Ok(report))
            &&& report.begin == job.target
            &&& report.index_cleaned == job.index_cleaned
            &&& report.deleted_segments == job.deleted
            &&& report.physical == (if job.deferred {
                PhysicalReclamation::DeferredByRuntime { begin: LogAddress(0), end: job.target }
            } else {
                PhysicalReclamation::Completed
            })
        },
        job.begun().0.result != job.result ==> job.stage is Finish && job.failure is None,
        job.failure is Some ==> {
            &&& job.begun().1 is More
            &&& job.begun().0.call == (if job.validating {
                GcCall::DrainScan
            } else if job.deletion {
                GcCall::DeletionInflight
            } else {
                GcCall::FailedFrontiers
            })
        },
        job.call != GcCall::Idle ==> {
            let (after, r) = job.next(reply);
            &&& after.result != job.result ==> job.call is FailedFrontiers && after.result is Some
            &&& job.call is FailedFrontiers && reply is Ok ==> {
                &&& after.result matches Some(Err(Error::GcFailed { begin, cause, .. }))
                &&& begin == reply->Ok_0->Frontiers_0.begin
                &&& *cause == job.failure->0
                &&& after.call is FinishPhase
            }
            &&& job.call is DrainScan && reply is Ok ==> if reply->Ok_0->Flag_0 {
                after.call is DeletionInflight || (!job.deletion && after.call is FailedFrontiers)
            } else {
                r == Ok::<Flow, Error>(Flow::Ended(false)) && after.failure == job.failure
            }
            &&& job.call is DeletionInflight && reply is Ok ==> if reply->Ok_0->Flag_0 {
                r is Err && r->Err_0 is InvalidState
            } else {
                after.call is FailedFrontiers
            }
            &&& after.reported != job.reported ==> job.call is Report && reply is Ok
                && after.reported
            &&& job.call is Report && reply is Ok ==> after.reported && r == Ok::<Flow, Error>(
                Flow::Ended(true),
            )
            &&& after.call is Report ==> {
                ||| job.call is FinishAction && reply is Ok
                ||| job.call is FinishCheck && reply == Ok::<GcReply, Error>(
                    GcReply::Phase(Phase::Failed),
                )
            }
            &&& job.call is FinishAction && reply is Ok ==> after.call is Report
            &&& job.call is FinishCheck && reply is Ok ==> if reply->Ok_0->Phase_0 == Phase::Failed {
                after.call is Report
            } else {
                after.call is FinishAction
            }
            &&& after.call is FinishAction ==> job.call is FinishCheck && reply is Ok
            &&& after.call matches GcCall::FinishLeave { phase, round } ==> {
                &&& job.call == (GcCall::FinishPhase { round })
                &&& reply == Ok::<GcReply, Error>(GcReply::Phase(phase))
                &&& phase == Phase::GcIo || phase == Phase::GcIndex
            }
            &&& job.call is FinishPhase && reply is Ok && (reply->Ok_0->Phase_0 == Phase::GcIo
                || reply->Ok_0->Phase_0 == Phase::GcIndex) ==> after.call is FinishLeave
            &&& job.call is FinishLeave && reply is Ok ==> after.call == (if job.call->FinishLeave_round
                == 0 {
                GcCall::FinishPhase { round: 1 }
            } else {
                GcCall::FinishCheck
            })
            &&& job.call is FinishPhase && reply is Ok && !(after.call is FinishLeave)
                ==> after.call is FinishCheck
        },
{
}

/// The begin of the log is published exactly when every operation and the checkpoints stand still. The
/// first lock that does not decides, the operations before the checkpoints: one that is held is busy,
/// and one that broke is an error.
pub proof fn law_published_when_all_stand_still(operations: Seq<Gate>, checkpoints: Gate, k: int)
    requires
        0 <= k < operations.len(),
        forall|j: int| 0 <= j < k ==> #[trigger] operations[j] == Gate::Free,
    ensures
        operations[k] == Gate::Held ==> publication(operations, checkpoints) == Err::<(), Error>(
            Error::Busy,
        ),
        operations[k] == Gate::Poisoned ==> publication(operations, checkpoints) == Err::<(), Error>(
            Error::InvalidState("GC 遇到业务仲裁锁中毒"),
        ),
        operations[k] == Gate::Free && k == operations.len() - 1 ==> {
            &&& publication(operations, checkpoints) is Ok <==> checkpoints == Gate::Free
            &&& checkpoints == Gate::Held ==> publication(operations, checkpoints) == Err::<(), Error>(
                Error::Busy,
            )
            &&& checkpoints == Gate::Poisoned ==> publication(operations, checkpoints) == Err::<
                (),
                Error,
            >(Error::InvalidState("GC 遇到检查点锁中毒"))
        },
{
    lemma_first_taken(operations, 0);
    let taken = first_taken(operations, 0);
    if taken < k {
        assert(operations[taken] == Gate::Free);
    }
}

/// A collection is taken on exactly by an engine that is open, on a device that can sync a directory
/// where it has files, while no other is under way.
pub proof fn law_collection_is_taken_on(
    failed: bool,
    shutdown_requested: bool,
    caps: DeviceCapabilities,
    gate: Gate,
    running: bool,
    r: Result<(), Error>,
)
    requires
        call_ensures(gc_admission, (failed, shutdown_requested, &caps, gate, running), r),
    ensures
        r is Ok <==> {
            &&& !failed
            &&& !shutdown_requested
            &&& caps.supports_files ==> caps.supports_directory_sync
            &&& gate == Gate::Free
            &&& !running
        },
        r == Err::<(), Error>(Error::UnsupportedDurability) ==> caps.supports_files
            && !caps.supports_directory_sync,
        r == Err::<(), Error>(Error::Busy) ==> gate == Gate::Held || running,
{
}

/// A target in the middle of a page that left the memory is checked against that page: from its start, or
/// from the begin of the log where that lies further on, up to the target. No other target is checked.
pub proof fn law_range_that_is_checked(
    frontiers: Frontiers,
    target: LogAddress,
    page_bytes: u64,
    r: Option<(LogAddress, LogAddress)>,
)
    requires
        page_bytes > 0,
        call_ensures(validation_range, (&frontiers, target, page_bytes), r),
    ensures
        r is Some <==> target != frontiers.begin && target.0 < frontiers.head.0 && target.0 as int
            % page_bytes as int != 0,
        r matches Some(range) ==> {
            &&& range.1 == target
            &&& range.0.0 >= frontiers.begin.0
            &&& target.0 >= frontiers.begin.0 ==> range.0.0 <= target.0
            &&& range.0 == frontiers.begin || range.0.0 as int % page_bytes as int == 0
            &&& target.0 - range.0.0 < page_bytes
        },
{
    crate::engine::common::law_page_start(target, page_bytes);
}

/// No reply changes which collection this is and how large a page is. The scan ends once, at the end of
/// what it checks; the begin that is in effect, the index that is clean, the bucket, and what is put off
/// change only with the reply that says so.
pub proof fn law_terms_are_kept(job: GcJob, reply: Result<GcReply, Error>)
    requires
        job.wf(),
        job.ordered(),
        job.call != GcCall::Idle,
        reply matches Ok(reply) ==> reply.answers(job.call),
    ensures
        ({
            let (after, r) = job.next(reply);
            &&& after.id == job.id
            &&& after.target == job.target
            &&& after.page_bytes == job.page_bytes
            &&& after.validating != job.validating ==> job.call is ScanStep && reply is Ok
                && reply->Ok_0->Scan_0 == ScanStep::End && !after.validating
            &&& after.applied_begin != job.applied_begin ==> job.call is PublishBegin && reply is Ok
                && after.applied_begin == job.target
            &&& after.index_cleaned != job.index_cleaned ==> job.call is BucketCount && reply is Ok
                && after.index_cleaned && job.bucket >= reply->Ok_0->Count_0
            &&& after.bucket != job.bucket ==> job.call is CleanBucket && reply is Ok && after.bucket
                == job.bucket + 1
            &&& after.deferred != job.deferred ==> after.deferred && {
                ||| job.call is Evict && reply is Ok && reply->Ok_0->remaining != 0
                ||| job.call is Detach && reply == Err::<GcReply, Error>(Error::Busy)
            }
            &&& after.deletion != job.deletion ==> reply is Ok && (job.call is Detach || (job.call
                is DeletionStep && reply->Ok_0->done))
            &&& after.failure != job.failure ==> job.call is FailedFrontiers && after.failure is None
        }),
{
}

/// The start of a step changes nothing but the call, and the stage where a stage has nothing to do; only
/// a job that is done or failed hands its failure over.
pub proof fn law_step_starts_where_the_job_stands(job: GcJob)
    requires
        job.wf(),
        job.ordered(),
        job.call is Idle,
    ensures
        ({
            let (after, flow) = job.begun();
            &&& after == (GcJob {
                call: after.call,
                stage: after.stage,
                result: after.result,
                ..job
            })
            &&& job.failure is None ==> match job.stage {
                GcStage::Validate => if job.validating {
                    after.call is ScanStep && after.stage == job.stage
                } else {
                    flow == Flow::Ended(true) && after.call is Idle && after.stage is PublishBegin
                },
                GcStage::PublishBegin => after.call is PublishBegin && after.stage == job.stage,
                GcStage::Index => after.call is BucketCount && after.stage == job.stage,
                GcStage::PrepareIo => after.call is StorageGate && after.stage == job.stage,
                GcStage::Evict => after.call is Frontiers && after.stage == job.stage,
                GcStage::Delete => if job.deletion {
                    after.call is DeletionStep && after.stage == job.stage
                } else if job.candidates > 0 {
                    after.call is Detach && after.stage == job.stage
                } else {
                    flow == Flow::Ended(true) && after.call is Idle && after.stage is Finish
                },
                GcStage::Finish => after.call is FinishPhase && after.stage == job.stage,
            }
            &&& job.failure is Some ==> after.stage == job.stage && after.result == job.result
            &&& flow is More <==> !(after.call is Idle)
        }),
{
}

/// What ends a step: an error is kept as the failure of the job unless it has one, and closes the engine
/// where its state is broken or it drains.
pub proof fn law_first_failure_is_kept(
    job: &mut GcJob,
    draining: bool,
    outcome: Result<bool, Error>,
    r: Concluded,
)
    requires
        call_ensures(GcJob::conclude, (job, draining, outcome), r),
    ensures
        outcome matches Ok(advanced) ==> final(job).failure == old(job).failure && r.advanced
            == advanced && !r.fatal,
        outcome matches Err(error) ==> {
            &&& !r.advanced
            &&& r.fatal <==> draining || error is InvalidState
            &&& old(job).failure is Some ==> final(job).failure == old(job).failure
            &&& old(job).failure is None ==> final(job).failure == Some(error)
        },
        final(job).stage == old(job).stage,
        final(job).deleted == old(job).deleted,
        final(job).reported == old(job).reported,
{
}

/// A collection is dropped exactly when its report was handed over, and a deletion that it leaves under
/// way is left to the next one; a failed one stays for the end of the engine.
pub proof fn law_dropped_when_reported(
    runtime: &mut GcRuntime,
    failed: bool,
    advanced: bool,
    delivered: Option<Result<(), Error>>,
    r: Result<(bool, bool), Error>,
)
    requires
        old(runtime).job is Some,
        call_ensures(GcRuntime::leave, (runtime, failed, advanced, delivered), r),
    ensures
        failed ==> r is Err && final(runtime).job is Some && final(runtime).deletion == old(
            runtime,
        ).deletion,
        failed && (delivered matches Some(Ok(_))) ==> final(runtime).job->0.reported,
        !failed ==> {
            let job = old(runtime).job->0;
            &&& r == Ok::<(bool, bool), Error>((advanced, job.reported))
            &&& final(runtime).job is None <==> job.reported
            &&& final(runtime).job is Some ==> final(runtime).job == Some(job)
            &&& final(runtime).deletion == job.deletion
        },
{
}

} // verus!
