//! Compaction: the records of a range that are still the newest of their keys are copied to the end
//! of the log. Copying alone does not move the begin of the log. A checkpoint and a truncation may
//! follow, in this order. The job decides; whoever runs it makes the calls.
use crate::allocation::{reserve, Memory};
use crate::device::DeviceCapabilities;
use crate::engine::candidates::{key_bytes, Candidates};
use crate::engine::common::{
    checkpoint_capabilities, enter, entered, is_invalid_state, keeps_checkpoints, retried, retry,
    CoordinatorState, Flow, Gate, Phase,
};
use crate::engine::conditional_copy::CopyResult;
use crate::engine::gc::Concluded;
use crate::order::{bytes_le, lemma_total};
use crate::reports::{
    CheckpointReport, CompactionAlgorithm, CompactionOptions, CompactionReport, GcReport,
};
use crate::types::{CheckpointVersion, Error, LogAddress, MaintenanceId};
use vstd::prelude::*;

verus! {

/// How far a compaction has come.
#[derive(Clone, Copy, Debug, PartialEq, Eq, Structural)]
pub enum CompactionStage {
    Copy,
    StartCheckpoint,
    Checkpoint,
    StartGc,
    Gc,
    Report,
}

/// What the workers are told before they are looked at.
#[derive(Clone, Copy, Debug, PartialEq, Eq, Structural)]
pub enum Order {
    GoOn,
    Abort,
    Close,
}

/// Why the workers are looked at.
#[derive(Clone, Copy, Debug, PartialEq, Eq, Structural)]
pub enum After {
    /// A step starts.
    Step,
    /// The job failed, and everything is taken back.
    Drain,
    /// All candidates are handed out.
    Close,
    /// The engine failed.
    Fail,
}

/// The call that a step waits for.
#[derive(Clone, Copy, Debug, PartialEq, Eq, Structural)]
pub enum CompactionCall {
    /// No step is under way.
    Idle,
    /// Give the workers an order and look how far they are.
    Workers { order: Order, after: After },
    DrainCopy,
    DrainScan,
    /// Hand the copy to the workers.
    Submit,
    /// One step of the copy.
    CopyStep,
    /// Start the copy of the source that the job holds.
    NewCopy,
    ScanStep,
    /// Ask the coordinator for the current version.
    Version,
    FinishPhase,
    Advance,
    FinishAction,
    StartCheckpoint,
    StartGc,
    /// Ask the checkpoint, or the truncation, that was started for its result.
    TakeCheckpoint,
    TakeGc,
    /// The engine failed: let the checkpoint, or the truncation, fail too.
    FailCheckpoint,
    FailGc,
    /// Hand over the result.
    Report,
}

/// What is read of a scanned record.
#[derive(Debug, PartialEq, Eq)]
pub struct ScannedRecord {
    pub key: Vec<u8>,
    pub version: CheckpointVersion,
    pub invalid: bool,
}

/// What a step of the scan found.
#[derive(Debug)]
pub enum Scanned {
    Pending,
    End,
    Record(LogAddress, Result<ScannedRecord, Error>),
}

/// The reply to a call that did not fail.
#[derive(Debug)]
pub enum CompactionReply {
    Done,
    Flag(bool),
    Workers { copied: u64, failure: Option<Error>, finished: bool },
    /// The end of a step of the copy. An error says whether the copy was published.
    Copy(Result<CopyResult, (Error, bool)>),
    Scan(Scanned),
    Version(CheckpointVersion),
    Phase(Phase),
    Checkpoint(Option<Result<CheckpointReport, Error>>),
    Gc(Option<Result<GcReport, Error>>),
}

impl CompactionReply {
    /// Whether this is the kind of reply that `call` gets.
    pub open spec fn answers(self, call: CompactionCall) -> bool {
        match call {
            CompactionCall::Idle => false,
            CompactionCall::Workers { .. } => self is Workers,
            CompactionCall::DrainCopy => self is Flag,
            CompactionCall::DrainScan => self is Flag,
            CompactionCall::CopyStep => self is Copy,
            CompactionCall::ScanStep => self is Scan,
            CompactionCall::Version => self is Version,
            CompactionCall::FinishPhase => self is Phase,
            CompactionCall::TakeCheckpoint => self is Checkpoint,
            CompactionCall::TakeGc => self is Gc,
            _ => self is Done,
        }
    }
}

/// All of a compaction but the keys that it holds.
pub struct CompactionState {
    pub id: MaintenanceId,
    pub options: CompactionOptions,
    pub max_keys: usize,
    pub max_key_bytes: usize,
    pub stage: CompactionStage,
    pub call: CompactionCall,
    pub checkpoint: Option<CheckpointReport>,
    pub gc: Option<GcReport>,
    /// The range is scanned to its end.
    pub scanned: bool,
    /// The version of the record that is looked at.
    pub seen: CheckpointVersion,
    /// A copy is under way, or waits for the workers.
    pub copying: bool,
    /// There are workers.
    pub pooled: bool,
    pub copied: u64,
    pub failure: Option<Error>,
    /// Why the engine failed, while the job is brought to its end.
    pub cause: Option<Error>,
    pub result: Option<Result<CompactionReport, Error>>,
    pub reported: bool,
}

/// A compaction, its keys as byte sequences.
#[verifier::ext_equal]
pub struct CompactionModel {
    pub state: CompactionState,
    pub candidates: Map<Seq<u8>, LogAddress>,
    /// The source that is looked at, or copied next.
    pub next: Option<(Seq<u8>, LogAddress)>,
}

/// The least key.
pub open spec fn first_key(m: Map<Seq<u8>, LogAddress>) -> Seq<u8> {
    choose|k: Seq<u8>| #[trigger]
        m.dom().contains(k) && forall|other: Seq<u8>| #[trigger]
            m.dom().contains(other) ==> bytes_le(k, other)
}

proof fn lemma_first_key(m: Map<Seq<u8>, LogAddress>, k: Seq<u8>)
    requires
        m.dom().contains(k),
        forall|other: Seq<u8>| #[trigger] m.dom().contains(other) ==> bytes_le(k, other),
    ensures
        first_key(m) == k,
{
    let first = first_key(m);
    assert(m.dom().contains(first) && forall|other: Seq<u8>| #[trigger]
        m.dom().contains(other) ==> bytes_le(first, other));
    lemma_total(first, k);
}

impl CompactionState {
    pub open spec fn kept(self, error: Error) -> Option<Error> {
        match self.failure {
            Some(first) => Some(first),
            None => Some(error),
        }
    }

    pub open spec fn failed(self, error: Error) -> CompactionState {
        CompactionState { failure: self.kept(error), ..self }
    }

    /// The result that a job hands over.
    pub open spec fn outcome(self) -> Result<CompactionReport, Error> {
        match self.failure {
            Some(cause) => Err(
                Error::CompactionFailed {
                    until: self.options.until,
                    copied: self.copied,
                    checkpoint: match self.checkpoint {
                        Some(report) => Some(Box::new(report)),
                        None => None,
                    },
                    gc: match self.gc {
                        Some(report) => Some(Box::new(report)),
                        None => None,
                    },
                    cause: Box::new(cause),
                },
            ),
            None => Ok(
                CompactionReport {
                    until: self.options.until,
                    copied: self.copied,
                    gc: self.gc,
                    checkpoint: self.checkpoint,
                },
            ),
        }
    }

    /// The job with its result, on the way to hand it over.
    pub open spec fn published(self) -> CompactionState {
        CompactionState {
            failure: None,
            checkpoint: None,
            gc: None,
            result: Some(self.outcome()),
            call: CompactionCall::Report,
            ..self
        }
    }

    /// What follows the copies.
    pub open spec fn after_copies(self) -> CompactionStage {
        if self.failure is Some {
            CompactionStage::Report
        } else if self.options.checkpoint {
            CompactionStage::StartCheckpoint
        } else if self.options.shift_begin {
            CompactionStage::StartGc
        } else {
            CompactionStage::Report
        }
    }
}

impl CompactionModel {
    pub open spec fn with(self, state: CompactionState) -> CompactionModel {
        CompactionModel { state, ..self }
    }

    pub open spec fn more(self, call: CompactionCall) -> (CompactionModel, Result<Flow, Error>) {
        (self.with(CompactionState { call, ..self.state }), Ok(Flow::More))
    }

    pub open spec fn stopped(self, r: Result<Flow, Error>) -> (
        CompactionModel,
        Result<Flow, Error>,
    ) {
        (
            self.with(CompactionState { call: CompactionCall::Idle, cause: None, ..self.state }),
            r,
        )
    }

    pub open spec fn ended(self, advanced: bool) -> (CompactionModel, Result<Flow, Error>) {
        self.stopped(Ok(Flow::Ended(advanced)))
    }

    pub open spec fn publishing(self) -> (CompactionModel, Result<Flow, Error>) {
        (self.with(self.state.published()), Ok(Flow::More))
    }

    /// Takes back the copy, then the scan.
    pub open spec fn draining(self) -> (CompactionModel, Result<Flow, Error>) {
        if self.state.copying {
            self.more(CompactionCall::DrainCopy)
        } else {
            self.more(CompactionCall::DrainScan)
        }
    }

    /// The step of a job whose copies are done.
    pub open spec fn followed(self) -> (CompactionModel, Result<Flow, Error>) {
        if self.state.failure is Some {
            self.publishing()
        } else {
            match self.state.stage {
                CompactionStage::StartCheckpoint => self.more(CompactionCall::StartCheckpoint),
                CompactionStage::Checkpoint => self.more(CompactionCall::TakeCheckpoint),
                CompactionStage::StartGc => self.more(CompactionCall::StartGc),
                CompactionStage::Gc => self.more(CompactionCall::TakeGc),
                _ => self.publishing(),
            }
        }
    }

    /// What a step does once it knows how far the workers are.
    pub open spec fn dispatched(self) -> (CompactionModel, Result<Flow, Error>) {
        let s = self.state;
        if s.stage != CompactionStage::Copy {
            self.followed()
        } else if s.failure is Some {
            if s.pooled {
                self.more(CompactionCall::Workers { order: Order::Abort, after: After::Drain })
            } else {
                self.draining()
            }
        } else if s.copying {
            if s.pooled {
                self.more(CompactionCall::Submit)
            } else if s.copied == u64::MAX {
                self.stopped(Err(Error::CapacityExceeded))
            } else {
                self.more(CompactionCall::CopyStep)
            }
        } else if !s.scanned {
            self.more(CompactionCall::ScanStep)
        } else if self.candidates != Map::<Seq<u8>, LogAddress>::empty() {
            let key = first_key(self.candidates);
            CompactionModel {
                candidates: self.candidates.remove(key),
                next: Some((key, self.candidates[key])),
                ..self
            }.more(CompactionCall::NewCopy)
        } else if s.pooled {
            self.more(CompactionCall::Workers { order: Order::Close, after: After::Close })
        } else {
            self.more(CompactionCall::FinishPhase)
        }
    }

    /// The start of a step.
    pub open spec fn begun(self) -> (CompactionModel, Result<Flow, Error>) {
        if self.state.pooled {
            self.more(CompactionCall::Workers { order: Order::GoOn, after: After::Step })
        } else {
            self.dispatched()
        }
    }

    /// The engine failed: what was started by the job has to fail first.
    pub open spec fn failing_child(self) -> (CompactionModel, Result<Flow, Error>) {
        match self.state.stage {
            CompactionStage::Checkpoint => self.more(CompactionCall::FailCheckpoint),
            CompactionStage::Gc => self.more(CompactionCall::FailGc),
            _ => self.failing_report(),
        }
    }

    pub open spec fn failing_report(self) -> (CompactionModel, Result<Flow, Error>) {
        let s = CompactionState { cause: None, ..self.state.failed(self.state.cause->0) };
        self.with(s).publishing()
    }

    /// The start of the end of a job whose engine failed with `cause`.
    pub open spec fn failing(self, cause: Error) -> (CompactionModel, Result<Flow, Error>) {
        let s = CompactionState { cause: Some(cause), ..self.state };
        if s.reported {
            self.ended(false)
        } else if s.pooled {
            self.with(s).more(
                CompactionCall::Workers { order: Order::Abort, after: After::Fail },
            )
        } else {
            self.with(s).failing_child()
        }
    }

    /// The stage after the copy action ended.
    pub open spec fn staged(self) -> (CompactionModel, Result<Flow, Error>) {
        let stage = self.state.after_copies();
        let next = self.with(CompactionState { stage, ..self.state });
        if stage == CompactionStage::Report {
            next.publishing()
        } else {
            next.ended(true)
        }
    }

    /// What a failed call makes of the job, and how the step goes on.
    pub open spec fn next_failed(self, error: Error) -> (CompactionModel, Result<Flow, Error>) {
        match self.state.call {
            CompactionCall::Submit => self.stopped(retried(error)),
            CompactionCall::StartCheckpoint => self.stopped(retried(error)),
            CompactionCall::StartGc => self.stopped(retried(error)),
            _ => CompactionModel { next: None, ..self }.stopped(Err(error)),
        }
    }

    /// Whether the reply to the call is followed by a request for room for a key.
    pub open spec fn asks_for_room(self) -> bool {
        self.state.call is Version && (self.next matches Some((key, _)) && key.len() > 0)
    }

    /// What a reply makes of a job that copies. `refused` says that there was no room for the key.
    pub open spec fn next_copying(self, reply: CompactionReply, refused: bool) -> (
        CompactionModel,
        Result<Flow, Error>,
    ) {
        let s = self.state;
        match s.call {
            CompactionCall::DrainCopy => if reply->Flag_0 {
                self.more(CompactionCall::DrainScan)
            } else {
                self.ended(false)
            },
            CompactionCall::DrainScan => if reply->Flag_0 {
                self.more(CompactionCall::FinishPhase)
            } else {
                self.ended(false)
            },
            CompactionCall::Submit => self.with(CompactionState { copying: false, ..s }).ended(
                true,
            ),
            CompactionCall::CopyStep => match reply->Copy_0 {
                Ok(CopyResult::Copied(_)) => self.with(
                    CompactionState { copied: (s.copied + 1) as u64, copying: false, ..s },
                ).ended(true),
                Ok(CopyResult::Obsolete) => self.with(
                    CompactionState { copying: false, ..s },
                ).ended(true),
                Ok(CopyResult::Retry) => self.ended(false),
                Err((error, published)) => self.with(
                    CompactionState {
                        copied: if published {
                            (s.copied + 1) as u64
                        } else {
                            s.copied
                        },
                        ..s
                    },
                ).stopped(Err(error)),
            },
            CompactionCall::NewCopy => CompactionModel {
                state: CompactionState { copying: true, ..s },
                next: None,
                ..self
            }.ended(true),
            CompactionCall::ScanStep => match reply->Scan_0 {
                Scanned::Pending => self.ended(false),
                Scanned::End => self.with(CompactionState { scanned: true, ..s }).ended(true),
                Scanned::Record(_, Err(error)) => self.stopped(Err(error)),
                Scanned::Record(address, Ok(record)) => if record.invalid {
                    self.ended(true)
                } else {
                    CompactionModel {
                        state: CompactionState { seen: record.version, ..s },
                        next: Some((record.key@, address)),
                        ..self
                    }.more(CompactionCall::Version)
                },
            },
            _ => {
                let (key, address) = self.next->0;
                let rest = CompactionModel { next: None, ..self };
                if s.seen.0 > reply->Version_0.0 {
                    rest.stopped(
                        Err(
                            Error::InvalidFormat(
                                "Compression scan record version exceeds current version",
                            ),
                        ),
                    )
                } else if refused {
                    rest.stopped(Err(Error::OutOfMemory))
                } else if s.options.algorithm == CompactionAlgorithm::Lookup {
                    self.more(CompactionCall::NewCopy)
                } else if self.candidates.dom().contains(key) || (self.candidates.dom().len()
                    < s.max_keys && key_bytes(self.candidates) + key.len() <= s.max_key_bytes) {
                    CompactionModel {
                        candidates: self.candidates.insert(key, address),
                        ..rest
                    }.ended(true)
                } else {
                    rest.stopped(Err(Error::CapacityExceeded))
                }
            },
        }
    }

    /// Whether the call belongs to the copies.
    pub open spec fn is_copying(self) -> bool {
        match self.state.call {
            CompactionCall::DrainCopy => true,
            CompactionCall::DrainScan => true,
            CompactionCall::Submit => true,
            CompactionCall::CopyStep => true,
            CompactionCall::NewCopy => true,
            CompactionCall::ScanStep => true,
            CompactionCall::Version => true,
            _ => false,
        }
    }

    /// What the result of the checkpoint, or of the truncation, makes of the job.
    pub open spec fn collected(self) -> (CompactionModel, Result<Flow, Error>) {
        if self.state.cause is Some {
            self.failing_report()
        } else {
            self.ended(true)
        }
    }

    /// What a reply makes of a job whose copies are done, or whose workers were looked at.
    pub open spec fn next_following(self, reply: CompactionReply) -> (
        CompactionModel,
        Result<Flow, Error>,
    ) {
        let s = self.state;
        match s.call {
            CompactionCall::Workers { after, .. } => {
                let told = CompactionState { copied: reply->copied, ..s };
                let seen = self.with(
                    match reply->failure {
                        Some(error) => told.failed(error),
                        None => told,
                    },
                );
                match after {
                    After::Step => seen.dispatched(),
                    After::Drain => if reply->finished {
                        seen.draining()
                    } else {
                        seen.ended(false)
                    },
                    After::Close => if reply->finished {
                        seen.more(CompactionCall::FinishPhase)
                    } else {
                        seen.ended(false)
                    },
                    After::Fail => if reply->finished {
                        seen.failing_child()
                    } else {
                        seen.ended(false)
                    },
                }
            },
            CompactionCall::FinishPhase => if reply->Phase_0 == Phase::Failed {
                self.staged()
            } else {
                self.more(CompactionCall::Advance)
            },
            CompactionCall::Advance => self.more(CompactionCall::FinishAction),
            CompactionCall::FinishAction => self.staged(),
            CompactionCall::StartCheckpoint => self.with(
                CompactionState { stage: CompactionStage::Checkpoint, ..s },
            ).ended(true),
            CompactionCall::StartGc => self.with(
                CompactionState { stage: CompactionStage::Gc, ..s },
            ).ended(true),
            CompactionCall::TakeCheckpoint => match reply->Checkpoint_0 {
                None => self.ended(false),
                Some(result) => {
                    let staged = CompactionState {
                        stage: if s.options.shift_begin {
                            CompactionStage::StartGc
                        } else {
                            CompactionStage::Report
                        },
                        ..s
                    };
                    self.with(
                        match result {
                            Ok(report) => CompactionState { checkpoint: Some(report), ..staged },
                            Err(error) => staged.failed(error),
                        },
                    ).collected()
                },
            },
            CompactionCall::TakeGc => match reply->Gc_0 {
                None => self.ended(false),
                Some(result) => {
                    let staged = CompactionState { stage: CompactionStage::Report, ..s };
                    self.with(
                        match result {
                            Ok(report) => CompactionState { gc: Some(report), ..staged },
                            Err(error) => staged.failed(error),
                        },
                    ).collected()
                },
            },
            CompactionCall::FailCheckpoint => self.more(CompactionCall::TakeCheckpoint),
            CompactionCall::FailGc => self.more(CompactionCall::TakeGc),
            _ => self.with(CompactionState { reported: true, ..s }).ended(true),
        }
    }

    /// What a reply makes of the job, and how the step goes on.
    pub open spec fn next(self, reply: Result<CompactionReply, Error>, refused: bool) -> (
        CompactionModel,
        Result<Flow, Error>,
    ) {
        match reply {
            Err(error) => self.next_failed(error),
            Ok(reply) => if self.is_copying() {
                self.next_copying(reply, refused)
            } else {
                self.next_following(reply)
            },
        }
    }

    pub open spec fn wf(self) -> bool {
        let s = self.state;
        &&& s.call is Version ==> self.next is Some
        &&& s.call is CopyStep ==> s.copied < u64::MAX
        &&& (s.call matches CompactionCall::Workers { after, .. } && after == After::Fail)
            || s.call is FailCheckpoint || s.call is FailGc ==> s.cause is Some
        &&& s.cause is Some ==> (s.call matches CompactionCall::Workers {
            after,
            ..
        } && after == After::Fail) || s.call is FailCheckpoint || s.call is FailGc
            || s.call is TakeCheckpoint || s.call is TakeGc
    }

    /// A compaction that has done nothing yet.
    pub open spec fn starting(
        id: MaintenanceId,
        options: CompactionOptions,
        max_keys: usize,
        max_key_bytes: usize,
        pooled: bool,
    ) -> CompactionModel {
        CompactionModel {
            state: CompactionState {
                id,
                options,
                max_keys,
                max_key_bytes,
                stage: CompactionStage::Copy,
                call: CompactionCall::Idle,
                checkpoint: None,
                gc: None,
                scanned: false,
                seen: CheckpointVersion(0),
                copying: false,
                pooled,
                copied: 0,
                failure: None,
                cause: None,
                result: None,
                reported: false,
            },
            candidates: Map::empty(),
            next: None,
        }
    }
}

pub struct CompactionJob {
    pub state: CompactionState,
    pub candidates: Candidates,
    pub next: Option<(Vec<u8>, LogAddress)>,
}

impl CompactionJob {
    pub open spec fn view(self) -> CompactionModel {
        CompactionModel {
            state: self.state,
            candidates: self.candidates@,
            next: match self.next {
                Some((key, address)) => Some((key@, address)),
                None => None,
            },
        }
    }

    pub open spec fn wf(self) -> bool {
        self.candidates.wf() && self@.wf()
    }

    /// A compaction that starts.
    pub fn new(
        id: MaintenanceId,
        options: CompactionOptions,
        max_keys: usize,
        max_key_bytes: usize,
        pooled: bool,
    ) -> (r: CompactionJob)
        ensures
            r.wf(),
            r@ == CompactionModel::starting(id, options, max_keys, max_key_bytes, pooled),
    {
        CompactionJob {
            state: CompactionState {
                id,
                options,
                max_keys,
                max_key_bytes,
                stage: CompactionStage::Copy,
                call: CompactionCall::Idle,
                checkpoint: None,
                gc: None,
                scanned: false,
                seen: CheckpointVersion(0),
                copying: false,
                pooled,
                copied: 0,
                failure: None,
                cause: None,
                result: None,
                reported: false,
            },
            candidates: Candidates::new(),
            next: None,
        }
    }

    /// Whether the job still owes a report.
    pub fn is_active(&self) -> (r: bool)
        ensures
            r == !self.state.reported,
    {
        !self.state.reported
    }

    fn call(&mut self, call: CompactionCall) -> (r: Result<Flow, Error>)
        ensures
            (final(self)@, r) == old(self)@.more(call),
            final(self).candidates == old(self).candidates,
    {
        self.state.call = call;
        Ok(Flow::More)
    }

    fn stop(&mut self, r: Result<Flow, Error>) -> (out: Result<Flow, Error>)
        ensures
            (final(self)@, out) == old(self)@.stopped(r),
            final(self).candidates == old(self).candidates,
    {
        self.state.call = CompactionCall::Idle;
        self.state.cause = None;
        r
    }

    fn end(&mut self, advanced: bool) -> (r: Result<Flow, Error>)
        ensures
            (final(self)@, r) == old(self)@.ended(advanced),
            final(self).candidates == old(self).candidates,
    {
        self.stop(Ok(Flow::Ended(advanced)))
    }

    fn keep_failure(&mut self, error: Error)
        ensures
            final(self)@ == old(self)@.with(old(self).state.failed(error)),
            final(self).candidates == old(self).candidates,
    {
        if self.state.failure.is_none() {
            self.state.failure = Some(error);
        }
    }

    fn publish(&mut self) -> (r: Result<Flow, Error>)
        ensures
            (final(self)@, r) == old(self)@.publishing(),
            final(self).candidates == old(self).candidates,
    {
        let checkpoint = self.state.checkpoint.take();
        let gc = self.state.gc.take();
        let result = match self.state.failure.take() {
            Some(cause) => Err(
                Error::CompactionFailed {
                    until: self.state.options.until,
                    copied: self.state.copied,
                    checkpoint: match checkpoint {
                        Some(report) => Some(Box::new(report)),
                        None => None,
                    },
                    gc: match gc {
                        Some(report) => Some(Box::new(report)),
                        None => None,
                    },
                    cause: Box::new(cause),
                },
            ),
            None => Ok(
                CompactionReport {
                    until: self.state.options.until,
                    copied: self.state.copied,
                    gc,
                    checkpoint,
                },
            ),
        };
        self.state.result = Some(result);
        self.state.call = CompactionCall::Report;
        Ok(Flow::More)
    }

    fn drain(&mut self) -> (r: Result<Flow, Error>)
        ensures
            (final(self)@, r) == old(self)@.draining(),
            final(self).candidates == old(self).candidates,
    {
        if self.state.copying {
            self.call(CompactionCall::DrainCopy)
        } else {
            self.call(CompactionCall::DrainScan)
        }
    }

    fn follow(&mut self) -> (r: Result<Flow, Error>)
        ensures
            (final(self)@, r) == old(self)@.followed(),
            final(self).candidates == old(self).candidates,
    {
        if self.state.failure.is_some() {
            return self.publish();
        }
        match self.state.stage {
            CompactionStage::StartCheckpoint => self.call(CompactionCall::StartCheckpoint),
            CompactionStage::Checkpoint => self.call(CompactionCall::TakeCheckpoint),
            CompactionStage::StartGc => self.call(CompactionCall::StartGc),
            CompactionStage::Gc => self.call(CompactionCall::TakeGc),
            _ => self.publish(),
        }
    }

    fn dispatch(&mut self) -> (r: Result<Flow, Error>)
        requires
            old(self).candidates.wf(),
            old(self).state.cause is None,
        ensures
            (final(self)@, r) == old(self)@.dispatched(),
            final(self).wf(),
    {
        if self.state.stage != CompactionStage::Copy {
            return self.follow();
        }
        if self.state.failure.is_some() {
            if self.state.pooled {
                return self.call(
                    CompactionCall::Workers { order: Order::Abort, after: After::Drain },
                );
            }
            return self.drain();
        }
        if self.state.copying {
            if self.state.pooled {
                return self.call(CompactionCall::Submit);
            }
            if self.state.copied == u64::MAX {
                return self.stop(Err(Error::CapacityExceeded));
            }
            return self.call(CompactionCall::CopyStep);
        }
        if !self.state.scanned {
            return self.call(CompactionCall::ScanStep);
        }
        let ghost m = self.candidates@;
        match self.candidates.pop_first() {
            Some((key, address)) => {
                proof {
                    lemma_first_key(m, key@);
                }
                self.next = Some((key, address));
                self.call(CompactionCall::NewCopy)
            },
            None => {
                if self.state.pooled {
                    self.call(
                        CompactionCall::Workers { order: Order::Close, after: After::Close },
                    )
                } else {
                    self.call(CompactionCall::FinishPhase)
                }
            },
        }
    }

    /// Starts a step.
    pub fn begin(&mut self) -> (r: Result<Flow, Error>)
        requires
            old(self).wf(),
            old(self).state.call == CompactionCall::Idle,
        ensures
            (final(self)@, r) == old(self)@.begun(),
            final(self).wf(),
    {
        if self.state.pooled {
            self.call(CompactionCall::Workers { order: Order::GoOn, after: After::Step })
        } else {
            self.dispatch()
        }
    }

    fn fail_report(&mut self) -> (r: Result<Flow, Error>)
        requires
            old(self).state.cause is Some,
        ensures
            (final(self)@, r) == old(self)@.failing_report(),
            final(self).candidates == old(self).candidates,
    {
        if let Some(cause) = self.state.cause.take() {
            self.keep_failure(cause);
        }
        self.publish()
    }

    fn fail_child(&mut self) -> (r: Result<Flow, Error>)
        requires
            old(self).state.cause is Some,
        ensures
            (final(self)@, r) == old(self)@.failing_child(),
            final(self).candidates == old(self).candidates,
    {
        match self.state.stage {
            CompactionStage::Checkpoint => self.call(CompactionCall::FailCheckpoint),
            CompactionStage::Gc => self.call(CompactionCall::FailGc),
            _ => self.fail_report(),
        }
    }

    /// Starts to bring a job to its end whose engine failed. The results of what it started are
    /// taken first, so that no effect is lost.
    pub fn fail(&mut self, cause: Error) -> (r: Result<Flow, Error>)
        requires
            old(self).wf(),
            old(self).state.call == CompactionCall::Idle,
        ensures
            (final(self)@, r) == old(self)@.failing(cause),
            final(self).wf(),
    {
        if self.state.reported {
            return self.end(false);
        }
        self.state.cause = Some(cause);
        if self.state.pooled {
            self.call(CompactionCall::Workers { order: Order::Abort, after: After::Fail })
        } else {
            self.fail_child()
        }
    }

    fn leave_copies(&mut self) -> (r: Result<Flow, Error>)
        ensures
            (final(self)@, r) == old(self)@.staged(),
            final(self).candidates == old(self).candidates,
    {
        self.state.stage = if self.state.failure.is_some() {
            CompactionStage::Report
        } else if self.state.options.checkpoint {
            CompactionStage::StartCheckpoint
        } else if self.state.options.shift_begin {
            CompactionStage::StartGc
        } else {
            CompactionStage::Report
        };
        if self.state.stage == CompactionStage::Report {
            self.publish()
        } else {
            self.end(true)
        }
    }

    /// Takes the reply to the call of the step. `memory` decides whether there is room for a key.
    pub fn accept(&mut self, reply: Result<CompactionReply, Error>, memory: Memory) -> (r: Result<
        Flow,
        Error,
    >)
        requires
            old(self).wf(),
            old(self).state.call != CompactionCall::Idle,
            reply matches Ok(reply) ==> reply.answers(old(self).state.call),
        ensures
            ({
                let asks = old(self)@.asks_for_room();
                ||| !(memory is Refused && asks) && (final(self)@, r) == old(self)@.next(
                    reply,
                    false,
                )
                ||| !(memory is Granted) && asks && (final(self)@, r) == old(self)@.next(
                    reply,
                    true,
                )
            }),
            final(self).wf(),
    {
        let reply = match reply {
            Ok(reply) => reply,
            Err(error) => {
                return match self.state.call {
                    CompactionCall::Submit | CompactionCall::StartCheckpoint
                    | CompactionCall::StartGc => self.stop(retry(error)),
                    _ => {
                        self.next = None;
                        self.stop(Err(error))
                    },
                };
            },
        };
        match self.state.call {
            CompactionCall::DrainCopy | CompactionCall::DrainScan | CompactionCall::Submit
            | CompactionCall::CopyStep | CompactionCall::NewCopy | CompactionCall::ScanStep
            | CompactionCall::Version => self.accept_copying(reply, memory),
            _ => self.accept_following(reply),
        }
    }

    fn accept_copy(&mut self, reply: CompactionReply) -> (r: Result<Flow, Error>)
        requires
            old(self).wf(),
            old(self).state.call == CompactionCall::CopyStep,
            reply.answers(old(self).state.call),
        ensures
            (final(self)@, r) == old(self)@.next_copying(reply, false),
            (final(self)@, r) == old(self)@.next_copying(reply, true),
            final(self).wf(),
    {
        match reply {
            CompactionReply::Copy(Ok(CopyResult::Copied(_))) => {
                self.state.copied = self.state.copied + 1;
                self.state.copying = false;
                self.end(true)
            },
            CompactionReply::Copy(Ok(CopyResult::Obsolete)) => {
                self.state.copying = false;
                self.end(true)
            },
            CompactionReply::Copy(Err((error, published))) => {
                if published {
                    self.state.copied = self.state.copied + 1;
                }
                self.stop(Err(error))
            },
            _ => self.end(false),
        }
    }

    fn accept_scan(&mut self, reply: CompactionReply) -> (r: Result<Flow, Error>)
        requires
            old(self).wf(),
            old(self).state.call == CompactionCall::ScanStep,
            reply.answers(old(self).state.call),
        ensures
            (final(self)@, r) == old(self)@.next_copying(reply, false),
            (final(self)@, r) == old(self)@.next_copying(reply, true),
            final(self).wf(),
    {
        match reply {
            CompactionReply::Scan(Scanned::End) => {
                self.state.scanned = true;
                self.end(true)
            },
            CompactionReply::Scan(Scanned::Record(_, Err(error))) => self.stop(Err(error)),
            CompactionReply::Scan(Scanned::Record(address, Ok(record))) => {
                if record.invalid {
                    return self.end(true);
                }
                self.state.seen = record.version;
                self.next = Some((record.key, address));
                self.call(CompactionCall::Version)
            },
            _ => self.end(false),
        }
    }

    fn accept_version(&mut self, reply: CompactionReply, memory: Memory) -> (r: Result<Flow, Error>)
        requires
            old(self).wf(),
            old(self).state.call == CompactionCall::Version,
            reply.answers(old(self).state.call),
        ensures
            ({
                let asks = old(self)@.asks_for_room();
                ||| !(memory is Refused && asks) && (final(self)@, r) == old(self)@.next_copying(
                    reply,
                    false,
                )
                ||| !(memory is Granted) && asks && (final(self)@, r) == old(self)@.next_copying(
                    reply,
                    true,
                )
            }),
            final(self).wf(),
    {
        let version = match reply {
            CompactionReply::Version(version) => version,
            _ => CheckpointVersion(0),
        };
        let (key, address) = match self.next.take() {
            Some(next) => next,
            None => (Vec::new(), LogAddress(0)),
        };
        if self.state.seen.0 > version.0 {
            return self.stop(
                Err(
                    Error::InvalidFormat(
                        "Compression scan record version exceeds current version",
                    ),
                ),
            );
        }
        let mut room: Vec<u8> = Vec::new();
        if !reserve(&mut room, key.len(), memory) {
            return self.stop(Err(Error::OutOfMemory));
        }
        match self.state.options.algorithm {
            CompactionAlgorithm::Lookup => {
                self.next = Some((key, address));
                self.call(CompactionCall::NewCopy)
            },
            CompactionAlgorithm::ScanDedup => {
                match self.candidates.note(
                    key,
                    address,
                    self.state.max_keys,
                    self.state.max_key_bytes,
                ) {
                    Ok(()) => self.end(true),
                    Err(error) => self.stop(Err(error)),
                }
            },
        }
    }

    fn accept_copying(&mut self, reply: CompactionReply, memory: Memory) -> (r: Result<Flow, Error>)
        requires
            old(self).wf(),
            old(self)@.is_copying(),
            reply.answers(old(self).state.call),
        ensures
            ({
                let asks = old(self)@.asks_for_room();
                ||| !(memory is Refused && asks) && (final(self)@, r) == old(self)@.next_copying(
                    reply,
                    false,
                )
                ||| !(memory is Granted) && asks && (final(self)@, r) == old(self)@.next_copying(
                    reply,
                    true,
                )
            }),
            final(self).wf(),
    {
        match self.state.call {
            CompactionCall::DrainCopy => match reply {
                CompactionReply::Flag(true) => self.call(CompactionCall::DrainScan),
                _ => self.end(false),
            },
            CompactionCall::DrainScan => match reply {
                CompactionReply::Flag(true) => self.call(CompactionCall::FinishPhase),
                _ => self.end(false),
            },
            CompactionCall::Submit => {
                self.state.copying = false;
                self.end(true)
            },
            CompactionCall::CopyStep => self.accept_copy(reply),
            CompactionCall::NewCopy => {
                self.next = None;
                self.state.copying = true;
                self.end(true)
            },
            CompactionCall::ScanStep => self.accept_scan(reply),
            _ => self.accept_version(reply, memory),
        }
    }

    fn accept_workers(&mut self, reply: CompactionReply, after: After) -> (r: Result<Flow, Error>)
        requires
            old(self).wf(),
            old(self).state.call matches CompactionCall::Workers { after: x, .. } && x == after,
            reply.answers(old(self).state.call),
        ensures
            (final(self)@, r) == old(self)@.next_following(reply),
            final(self).wf(),
    {
        let (copied, failure, finished) = match reply {
            CompactionReply::Workers { copied, failure, finished } => (
                copied,
                failure,
                finished,
            ),
            _ => (0, None, false),
        };
        self.state.copied = copied;
        if let Some(error) = failure {
            self.keep_failure(error);
        }
        match after {
            After::Step => self.dispatch(),
            After::Drain => {
                if finished {
                    self.drain()
                } else {
                    self.end(false)
                }
            },
            After::Close => {
                if finished {
                    self.call(CompactionCall::FinishPhase)
                } else {
                    self.end(false)
                }
            },
            After::Fail => {
                if finished {
                    self.fail_child()
                } else {
                    self.end(false)
                }
            },
        }
    }

    fn accept_checkpoint(&mut self, reply: CompactionReply) -> (r: Result<Flow, Error>)
        requires
            old(self).wf(),
            old(self).state.call == CompactionCall::TakeCheckpoint,
            reply.answers(old(self).state.call),
        ensures
            (final(self)@, r) == old(self)@.next_following(reply),
            final(self).wf(),
    {
        match reply {
            CompactionReply::Checkpoint(Some(result)) => {
                self.state.stage = if self.state.options.shift_begin {
                    CompactionStage::StartGc
                } else {
                    CompactionStage::Report
                };
                match result {
                    Ok(report) => {
                        self.state.checkpoint = Some(report);
                    },
                    Err(error) => {
                        self.keep_failure(error);
                    },
                }
                self.collect()
            },
            _ => self.end(false),
        }
    }

    fn accept_gc(&mut self, reply: CompactionReply) -> (r: Result<Flow, Error>)
        requires
            old(self).wf(),
            old(self).state.call == CompactionCall::TakeGc,
            reply.answers(old(self).state.call),
        ensures
            (final(self)@, r) == old(self)@.next_following(reply),
            final(self).wf(),
    {
        match reply {
            CompactionReply::Gc(Some(result)) => {
                self.state.stage = CompactionStage::Report;
                match result {
                    Ok(report) => {
                        self.state.gc = Some(report);
                    },
                    Err(error) => {
                        self.keep_failure(error);
                    },
                }
                self.collect()
            },
            _ => self.end(false),
        }
    }

    fn accept_following(&mut self, reply: CompactionReply) -> (r: Result<Flow, Error>)
        requires
            old(self).wf(),
            old(self).state.call != CompactionCall::Idle,
            !old(self)@.is_copying(),
            reply.answers(old(self).state.call),
        ensures
            (final(self)@, r) == old(self)@.next_following(reply),
            final(self).wf(),
    {
        match self.state.call {
            CompactionCall::Workers { after, .. } => self.accept_workers(reply, after),
            CompactionCall::FinishPhase => match reply {
                CompactionReply::Phase(Phase::Failed) => self.leave_copies(),
                _ => self.call(CompactionCall::Advance),
            },
            CompactionCall::Advance => self.call(CompactionCall::FinishAction),
            CompactionCall::FinishAction => self.leave_copies(),
            CompactionCall::StartCheckpoint => {
                self.state.stage = CompactionStage::Checkpoint;
                self.end(true)
            },
            CompactionCall::StartGc => {
                self.state.stage = CompactionStage::Gc;
                self.end(true)
            },
            CompactionCall::TakeCheckpoint => self.accept_checkpoint(reply),
            CompactionCall::TakeGc => self.accept_gc(reply),
            CompactionCall::FailCheckpoint => self.call(CompactionCall::TakeCheckpoint),
            CompactionCall::FailGc => self.call(CompactionCall::TakeGc),
            _ => {
                self.state.reported = true;
                self.end(true)
            },
        }
    }

    fn collect(&mut self) -> (r: Result<Flow, Error>)
        ensures
            (final(self)@, r) == old(self)@.collected(),
            final(self).candidates == old(self).candidates,
    {
        if self.state.cause.is_some() {
            self.fail_report()
        } else {
            self.end(true)
        }
    }

    /// Takes the outcome of a step. An error is kept as the failure of the job, unless it has one;
    /// it closes the engine where the job had failed before, or where the state is broken.
    pub fn conclude(&mut self, draining: bool, outcome: Result<bool, Error>) -> (r: Concluded)
        requires
            old(self).wf(),
        ensures
            final(self).wf(),
            match outcome {
                Ok(advanced) => final(self)@ == old(self)@ && r == (Concluded {
                    fatal: false,
                    advanced,
                }),
                Err(error) => {
                    &&& r == (Concluded {
                        fatal: draining || error is InvalidState,
                        advanced: false,
                    })
                    &&& final(self)@ == old(self)@.with(old(self).state.failed(error))
                },
            },
    {
        match outcome {
            Ok(advanced) => Concluded { fatal: false, advanced },
            Err(error) => {
                let fatal = draining || is_invalid_state(&error);
                self.keep_failure(error);
                Concluded { fatal, advanced: false }
            },
        }
    }
}

/// The compaction under way.
pub struct CompactionRuntime {
    pub job: Option<CompactionJob>,
}

impl CompactionRuntime {
    /// No step is under way.
    pub open spec fn wf(self) -> bool {
        self.job matches Some(job) ==> job.wf() && job.state.call == CompactionCall::Idle
    }

    pub fn new() -> (r: CompactionRuntime)
        ensures
            r.wf(),
            r.job is None,
    {
        CompactionRuntime { job: None }
    }

    /// Whether the copies are made by threads of their own.
    pub fn pools(options: &CompactionOptions) -> (r: bool)
        ensures
            r == (options.workers > 1),
    {
        options.workers > 1
    }

    /// Whether a compaction may ask for its action: not beside another. This is asked before any
    /// thread is made.
    pub fn alone(state: &CoordinatorState) -> (r: Result<(), Error>)
        ensures
            r == (if state.id is Some {
                Err::<(), Error>(Error::Busy)
            } else {
                Ok::<(), Error>(())
            }),
    {
        if state.id.is_some() {
            return Err(Error::Busy);
        }
        Ok(())
    }

    /// Takes the answer of the coordinator to the action that was asked for.
    pub fn start(
        &mut self,
        started: Result<MaintenanceId, Error>,
        options: CompactionOptions,
        max_keys: usize,
        max_key_bytes: usize,
    ) -> (r: Result<MaintenanceId, Error>)
        requires
            old(self).job is None,
        ensures
            final(self).wf(),
            r == started,
            started is Err ==> final(self).job is None,
            started matches Ok(id) ==> {
                &&& final(self).job matches Some(job)
                &&& job@ == CompactionModel::starting(
                    id,
                    options,
                    max_keys,
                    max_key_bytes,
                    options.workers > 1,
                )
            },
    {
        match started {
            Err(error) => Err(error),
            Ok(id) => {
                let pooled = Self::pools(&options);
                self.job = Some(CompactionJob::new(id, options, max_keys, max_key_bytes, pooled));
                Ok(id)
            },
        }
    }

    /// Whether a step is made.
    pub fn enter(&self, gate: Gate) -> (r: Result<bool, Error>)
        ensures
            r == entered(
                gate,
                "compaction_task_lock_poisoned",
                self.job matches Some(job) && !job.state.reported,
            ),
    {
        let due = match &self.job {
            Some(job) => !job.state.reported,
            None => false,
        };
        enter(gate, "compaction_task_lock_poisoned", due)
    }

    /// Ends a step. Where the engine has failed, the job was brought to its end before, and `closed`
    /// is the error that this met: nothing advances any more. Otherwise the result says whether the
    /// step advanced, and whether the compaction is done.
    pub fn leave(&mut self, failed: bool, advanced: bool, closed: Option<Error>) -> (r: Result<
        (bool, bool),
        Error,
    >)
        requires
            old(self).wf(),
            old(self).job is Some,
        ensures
            final(self).wf(),
            failed ==> {
                &&& r == Err::<(bool, bool), Error>(
                    match closed {
                        Some(error) => error,
                        None => Error::InvalidState(
                            "Compression failed to close,see_maintenance_report",
                        ),
                    },
                )
                &&& final(self).job == old(self).job
            },
            !failed ==> {
                let job = old(self).job->0;
                &&& r == Ok::<(bool, bool), Error>((advanced, job.state.reported))
                &&& final(self).job == (if job.state.reported {
                    None
                } else {
                    Some(job)
                })
            },
    {
        if failed {
            return match closed {
                Some(error) => Err(error),
                None => Err(
                    Error::InvalidState("Compression failed to close,see_maintenance_report"),
                ),
            };
        }
        let finished = match &self.job {
            Some(job) => job.state.reported,
            None => false,
        };
        if finished {
            self.job = None;
        }
        Ok((advanced, finished))
    }

    /// Whether a job has to be brought to its end because the engine failed.
    pub fn fails(&self, gate: Gate) -> (r: Result<bool, Error>)
        ensures
            r == entered(gate, "compaction_task_lock_poisoned", self.job is Some),
    {
        enter(gate, "compaction_task_lock_poisoned", self.job.is_some())
    }

    /// The device has stopped, and has given everything back: the job is dropped.
    pub fn stop(&mut self, poisoned: bool) -> (r: Result<(), Error>)
        ensures
            poisoned ==> r == Err::<(), Error>(Error::InvalidState("compaction_task_lock_poisoned"))
                && *final(self) == *old(self),
            !poisoned ==> r is Ok && final(self).job is None,
    {
        if poisoned {
            return Err(Error::InvalidState("compaction_task_lock_poisoned"));
        }
        self.job = None;
        Ok(())
    }
}

/// Why no compaction may start, as far as the engine decides. `gate` is the lock of the job, and
/// `running` says whether there is one.
pub open spec fn compaction_refusal(
    closed: bool,
    options: CompactionOptions,
    max_workers: usize,
    caps: DeviceCapabilities,
    gate: Gate,
    running: bool,
) -> Option<Error> {
    if closed {
        Some(Error::InvalidState("storage_closed_or_failed"))
    } else if options.workers == 0 {
        Some(
            Error::InvalidConfig {
                field: "compaction.workers",
                reason: "The number of compression worker threads must be non-zero",
            },
        )
    } else if options.workers > max_workers {
        Some(
            Error::InvalidConfig {
                field: "compaction.workers",
                reason: "Configured compression thread budget exceeded",
            },
        )
    } else if options.checkpoint && !keeps_checkpoints(caps) {
        Some(Error::UnsupportedDurability)
    } else if options.shift_begin && caps.supports_files && !caps.supports_directory_sync {
        Some(Error::UnsupportedDurability)
    } else if gate == Gate::Held {
        Some(Error::Busy)
    } else if gate == Gate::Poisoned {
        Some(Error::InvalidState("compaction_task_lock_poisoned"))
    } else if running {
        Some(Error::Busy)
    } else {
        None
    }
}

/// Checks whether a compaction may start.
pub fn compaction_admission(
    closed: bool,
    options: &CompactionOptions,
    max_workers: usize,
    caps: &DeviceCapabilities,
    gate: Gate,
    running: bool,
) -> (r: Result<(), Error>)
    ensures
        r == (match compaction_refusal(closed, *options, max_workers, *caps, gate, running) {
            Some(error) => Err::<(), Error>(error),
            None => Ok::<(), Error>(()),
        }),
{
    if closed {
        return Err(Error::InvalidState("storage_closed_or_failed"));
    }
    if options.workers == 0 {
        return Err(
            Error::InvalidConfig {
                field: "compaction.workers",
                reason: "The number of compression worker threads must be non-zero",
            },
        );
    }
    if options.workers > max_workers {
        return Err(
            Error::InvalidConfig {
                field: "compaction.workers",
                reason: "Configured compression thread budget exceeded",
            },
        );
    }
    if options.checkpoint {
        match checkpoint_capabilities(caps) {
            Ok(()) => {},
            Err(error) => {
                return Err(error);
            },
        }
    }
    if options.shift_begin && caps.supports_files && !caps.supports_directory_sync {
        return Err(Error::UnsupportedDurability);
    }
    match gate {
        Gate::Held => {
            return Err(Error::Busy);
        },
        Gate::Poisoned => {
            return Err(Error::InvalidState("compaction_task_lock_poisoned"));
        },
        Gate::Free => {},
    }
    if running {
        return Err(Error::Busy);
    }
    Ok(())
}

/// Whether a compaction owes a report: one that is being worked on counts as such. With `id`, only
/// the compaction of that number counts.
pub fn compaction_pending(gate: Gate, job: Option<&CompactionJob>, id: Option<MaintenanceId>) -> (r:
    Result<bool, Error>)
    ensures
        r == (match gate {
            Gate::Held => Ok::<bool, Error>(true),
            Gate::Poisoned => Err::<bool, Error>(
                Error::InvalidState("compaction_task_lock_poisoned"),
            ),
            Gate::Free => Ok::<bool, Error>(
                job is Some && !job->0.state.reported && (id is Some ==> job->0.state.id == id->0),
            ),
        }),
{
    match gate {
        Gate::Held => Ok(true),
        Gate::Poisoned => Err(Error::InvalidState("compaction_task_lock_poisoned")),
        Gate::Free => match job {
            None => Ok(false),
            Some(job) => match id {
                Some(id) => Ok(job.state.id == id && !job.state.reported),
                None => Ok(!job.state.reported),
            },
        },
    }
}

/// Whether the wait for the workers of a stopping engine is over. `finished` is what a look at the
/// workers found, where the lock was free and there is a job.
pub fn workers_stopped(gate: Gate, running: bool, finished: bool, expired: bool) -> (r: Result<
    bool,
    Error,
>)
    ensures
        r == (if gate == Gate::Poisoned {
            Err::<bool, Error>(Error::InvalidState("compaction_task_lock_poisoned"))
        } else if gate == Gate::Free && (!running || finished) {
            Ok::<bool, Error>(true)
        } else if expired {
            Err::<bool, Error>(Error::DeadlineExceeded)
        } else {
            Ok::<bool, Error>(false)
        }),
{
    match gate {
        Gate::Poisoned => {
            return Err(Error::InvalidState("compaction_task_lock_poisoned"));
        },
        Gate::Free => {
            if !running || finished {
                return Ok(true);
            }
        },
        Gate::Held => {},
    }
    if expired {
        Err(Error::DeadlineExceeded)
    } else {
        Ok(false)
    }
}

impl CompactionModel {
    /// What holds of every compaction: what follows the copies is done in its stage, and a
    /// truncation that a checkpoint has to precede is reached only with its report, unless the job
    /// failed or has its result.
    pub open spec fn ordered(self) -> bool {
        let s = self.state;
        &&& (s.stage is StartGc || s.stage is Gc) && s.options.checkpoint ==> s.checkpoint is Some
            || s.failure is Some || s.result is Some
        &&& s.call is StartCheckpoint ==> s.stage is StartCheckpoint
        &&& s.call is TakeCheckpoint || s.call is FailCheckpoint ==> s.stage is Checkpoint
        &&& s.call is StartGc ==> s.stage is StartGc && s.failure is None
        &&& s.call is TakeGc || s.call is FailGc ==> s.stage is Gc
        &&& s.call is Report ==> s.result is Some
    }
}

proof fn lemma_order_dispatched(job: CompactionModel)
    requires
        job.ordered(),
    ensures
        job.dispatched().0.ordered(),
{
}

proof fn lemma_order_failing(job: CompactionModel)
    requires
        job.ordered(),
    ensures
        job.failing_child().0.ordered(),
        job.failing_report().0.ordered(),
{
}

proof fn lemma_order_staged(job: CompactionModel)
    requires
        job.ordered(),
    ensures
        job.staged().0.ordered(),
{
}

proof fn lemma_order_copying(job: CompactionModel, reply: CompactionReply, refused: bool)
    requires
        job.ordered(),
        job.is_copying(),
        reply.answers(job.state.call),
    ensures
        job.next_copying(reply, refused).0.ordered(),
{
}

proof fn lemma_order_following(job: CompactionModel, reply: CompactionReply)
    requires
        job.wf(),
        job.ordered(),
        job.state.call != CompactionCall::Idle,
        !job.is_copying(),
        reply.answers(job.state.call),
    ensures
        job.next_following(reply).0.ordered(),
{
    let s = job.state;
    match s.call {
        CompactionCall::Workers { after, .. } => {
            let told = CompactionState { copied: reply->copied, ..s };
            let seen = job.with(
                match reply->failure {
                    Some(error) => told.failed(error),
                    None => told,
                },
            );
            assert(seen.ordered());
            lemma_order_dispatched(seen);
            lemma_order_failing(seen);
        },
        CompactionCall::FinishPhase => {
            lemma_order_staged(job);
        },
        CompactionCall::FinishAction => {
            lemma_order_staged(job);
        },
        _ => {},
    }
}

/// Every step and every reply keeps the order of a compaction.
pub proof fn law_order(
    job: CompactionModel,
    reply: Result<CompactionReply, Error>,
    refused: bool,
    cause: Error,
)
    requires
        job.wf(),
        job.ordered(),
        reply matches Ok(reply) ==> reply.answers(job.state.call),
    ensures
        job.begun().0.ordered(),
        job.failing(cause).0.ordered(),
        job.state.call != CompactionCall::Idle ==> job.next(reply, refused).0.ordered(),
{
    assert(job.begun().0.ordered()) by {
        lemma_order_dispatched(job);
    }
    assert(job.failing(cause).0.ordered()) by {
        lemma_order_failing(
            job.with(CompactionState { cause: Some(cause), ..job.state }),
        );
    }
    if job.state.call != CompactionCall::Idle {
        if let Ok(reply) = reply {
            if job.is_copying() {
                lemma_order_copying(job, reply, refused);
            } else {
                lemma_order_following(job, reply);
            }
        }
    }
}

/// A checkpoint that was asked for is written before anything is truncated.
pub proof fn law_checkpoint_before_truncation(job: CompactionModel)
    requires
        job.ordered(),
        job.state.call is StartGc,
        job.state.options.checkpoint,
        job.state.result is None,
    ensures
        job.state.checkpoint is Some,
{
}

/// The reply tells that the job itself published a record.
pub open spec fn tells_copy(reply: CompactionReply) -> bool {
    match reply {
        CompactionReply::Copy(Ok(CopyResult::Copied(_))) => true,
        CompactionReply::Copy(Err((_, published))) => published,
        _ => false,
    }
}

/// Copies are never lost from the count: it grows by one for each record that the job itself
/// published, with or without an error after it, and is what the workers counted otherwise.
pub proof fn law_copies_are_counted(
    job: CompactionModel,
    reply: CompactionReply,
    refused: bool,
    error: Error,
)
    requires
        job.wf(),
        job.state.call != CompactionCall::Idle,
        reply.answers(job.state.call),
    ensures
        job.begun().0.state.copied == job.state.copied,
        job.next(Err(error), refused).0.state.copied == job.state.copied,
        job.state.call is Workers ==> job.next(Ok(reply), refused).0.state.copied == reply->copied,
        !(job.state.call is Workers) ==> job.next(Ok(reply), refused).0.state.copied
            == job.state.copied + (if tells_copy(reply) {
            1int
        } else {
            0
        }),
{
    if job.is_copying() {
    } else if job.state.call is Workers {
        let told = CompactionState { copied: reply->copied, ..job.state };
        let seen = job.with(
            match reply->failure {
                Some(error) => told.failed(error),
                None => told,
            },
        );
        assert(seen.dispatched().0.state.copied == reply->copied);
    }
}

/// Whatever the result is, it tells how far the job was to go and how much it copied, and a failure
/// tells what the checkpoint and the truncation had done.
pub proof fn law_effects_are_reported(state: CompactionState)
    ensures
        state.published().result matches Some(result) && match result {
            Ok(report) => {
                &&& state.failure is None
                &&& report.until == state.options.until
                &&& report.copied == state.copied
                &&& report.checkpoint == state.checkpoint
                &&& report.gc == state.gc
            },
            Err(error) => {
                &&& error matches Error::CompactionFailed { until, copied, checkpoint, gc, cause }
                &&& until == state.options.until
                &&& copied == state.copied
                &&& checkpoint is Some == state.checkpoint is Some
                &&& checkpoint is Some ==> *checkpoint->0 == state.checkpoint->0
                &&& gc is Some == state.gc is Some
                &&& gc is Some ==> *gc->0 == state.gc->0
                &&& Some(*cause) == state.failure
            },
        },
{
}

/// A job reports once: what has reported stays so, and is not reported when the engine fails.
pub proof fn law_one_report(
    job: CompactionModel,
    reply: Result<CompactionReply, Error>,
    refused: bool,
    cause: Error,
)
    requires
        job.state.reported,
    ensures
        job.begun().0.state.reported,
        job.next(reply, refused).0.state.reported,
        job.failing(cause) == job.ended(false),
{
}

/// The range counts as scanned only after the scan itself said that it is at its end, and stays so.
pub proof fn law_scanned_means_at_the_end(
    job: CompactionModel,
    reply: Result<CompactionReply, Error>,
    refused: bool,
)
    requires
        job.wf(),
        job.state.call != CompactionCall::Idle,
        reply matches Ok(reply) ==> reply.answers(job.state.call),
    ensures
        job.begun().0.state.scanned == job.state.scanned,
        job.next(reply, refused).0.state.scanned != job.state.scanned ==> {
            &&& job.next(reply, refused).0.state.scanned
            &&& job.state.call is ScanStep
            &&& reply == Ok::<CompactionReply, Error>(CompactionReply::Scan(Scanned::End))
        },
{
    if let Ok(answer) = reply {
        if job.is_copying() {
            lemma_scanned_copying(job, answer, refused);
        } else if job.state.call is Workers {
            lemma_dispatch_keeps(job, answer);
        } else {
            lemma_following_keeps(job, answer);
        }
    }
}

proof fn lemma_scanned_copying(job: CompactionModel, reply: CompactionReply, refused: bool)
    requires
        job.wf(),
        job.is_copying(),
        reply.answers(job.state.call),
    ensures
        job.next_copying(reply, refused).0.state.scanned != job.state.scanned ==> {
            &&& job.next_copying(reply, refused).0.state.scanned
            &&& job.state.call is ScanStep
            &&& reply == CompactionReply::Scan(Scanned::End)
        },
{
}

proof fn lemma_following_keeps(job: CompactionModel, reply: CompactionReply)
    requires
        job.wf(),
        !job.is_copying(),
        !(job.state.call is Workers),
        job.state.call != CompactionCall::Idle,
        reply.answers(job.state.call),
    ensures
        ({
            let after = job.next_following(reply).0;
            &&& after.state.scanned == job.state.scanned
            &&& after.state.options == job.state.options
            &&& after.state.pooled == job.state.pooled
            &&& after.state.id == job.state.id
            &&& after.state.copying == job.state.copying
            &&& after.state.seen == job.state.seen
            &&& after.candidates == job.candidates
            &&& after.next == job.next
            &&& after.state.stage != job.state.stage ==> (job.state.call is FinishPhase
                || job.state.call is FinishAction || job.state.call is StartCheckpoint
                || job.state.call is StartGc || job.state.call is TakeCheckpoint
                || job.state.call is TakeGc)
            &&& after.state.reported != job.state.reported ==> job.state.call is Report
                && after.state.reported
        }),
{
}

/// A scan that waits for the device changes nothing; a record that it found is looked at with its key,
/// its address and its version, unless it is invalid; one that cannot be read fails the step.
pub proof fn law_scan_step_is_taken(job: CompactionModel, found: Scanned, refused: bool)
    requires
        job.wf(),
        job.state.call is ScanStep,
    ensures
        ({
            let (after, r) = job.next(Ok(CompactionReply::Scan(found)), refused);
            &&& after.candidates == job.candidates
            &&& after.state.copying == job.state.copying
            &&& after.state.stage == job.state.stage
            &&& match found {
                Scanned::Pending => {
                    &&& r == Ok::<Flow, Error>(Flow::Ended(false))
                    &&& after.next == job.next
                    &&& after.state.call is Idle
                    &&& after.state.scanned == job.state.scanned
                },
                Scanned::End => {
                    &&& r == Ok::<Flow, Error>(Flow::Ended(true))
                    &&& after.state.scanned
                    &&& after.next == job.next
                },
                Scanned::Record(address, found) => match found {
                    Err(error) => r == Err::<Flow, Error>(error) && after.next == job.next,
                    Ok(record) => if record.invalid {
                        r == Ok::<Flow, Error>(Flow::Ended(true)) && after.next == job.next
                    } else {
                        &&& r == Ok::<Flow, Error>(Flow::More)
                        &&& after.state.call is Version
                        &&& after.state.seen == record.version
                        &&& after.next == Some((record.key@, address))
                    },
                },
            }
        }),
{
}

/// The job as it is after it was told how far the workers are.
spec fn informed(job: CompactionModel, reply: CompactionReply) -> CompactionModel {
    let told = CompactionState { copied: reply->copied, ..job.state };
    job.with(
        match reply->failure {
            Some(error) => told.failed(error),
            None => told,
        },
    )
}

proof fn lemma_dispatch_keeps(job: CompactionModel, reply: CompactionReply)
    requires
        job.wf(),
        job.state.call is Workers,
        reply is Workers,
    ensures
        ({
            let after = job.next(Ok(reply), false).0;
            &&& after == job.next(Ok(reply), true).0
            &&& after.state.scanned == job.state.scanned
            &&& after.state.stage == job.state.stage
            &&& after.state.options == job.state.options
            &&& after.state.copying == job.state.copying
            &&& after.state.pooled == job.state.pooled
            &&& after.state.seen == job.state.seen
            &&& after.state.reported == job.state.reported
            &&& !(after.state.call is Version)
            &&& !(after.state.call is Advance)
            &&& !(after.state.call is FinishAction)
        }),
{
    let seen = informed(job, reply);
    assert(seen.dispatched().0.state.scanned == seen.state.scanned);
    assert(seen.draining().0.state.scanned == seen.state.scanned);
    assert(seen.failing_child().0.state.scanned == seen.state.scanned);
}

/// A record of the future stops the scan; any other is noted. By lookup its copy is asked for at once.
/// With the duplicates left out, its key leads from then on to its address and every other key where
/// it led; a key that is held is always taken, and a new one unless there is no room for it.
pub proof fn law_scanned_record_is_noted(
    job: CompactionModel,
    version: CheckpointVersion,
    refused: bool,
    other: Seq<u8>,
)
    requires
        job.wf(),
        job.state.call is Version,
        job.candidates.dom().finite(),
    ensures
        ({
            let (key, address) = job.next->0;
            let (after, r) = job.next(Ok(CompactionReply::Version(version)), refused);
            &&& job.state.seen.0 > version.0 ==> r is Err && r->Err_0 is InvalidFormat
            &&& job.state.seen.0 <= version.0 && refused ==> r == Err::<Flow, Error>(
                Error::OutOfMemory,
            )
            &&& job.state.seen.0 <= version.0 && !refused && job.state.options.algorithm
                == CompactionAlgorithm::Lookup ==> {
                &&& r == Ok::<Flow, Error>(Flow::More)
                &&& after.state.call is NewCopy
                &&& after.next == Some((key, address))
                &&& after.candidates == job.candidates
            }
            &&& job.state.seen.0 <= version.0 && !refused && job.state.options.algorithm
                == CompactionAlgorithm::ScanDedup ==> {
                &&& job.candidates.dom().contains(key) ==> r is Ok
                &&& job.candidates.dom().len() >= job.state.max_keys && !job.candidates.dom().contains(
                    key,
                ) ==> r == Err::<Flow, Error>(Error::CapacityExceeded)
                &&& r is Ok ==> {
                    &&& r == Ok::<Flow, Error>(Flow::Ended(true))
                    &&& after.candidates.dom().contains(key)
                    &&& after.candidates[key] == address
                    &&& other != key ==> (after.candidates.dom().contains(other)
                        == job.candidates.dom().contains(other)) && (job.candidates.dom().contains(
                        other,
                    ) ==> after.candidates[other] == job.candidates[other])
                    &&& after.candidates.dom().len() <= job.candidates.dom().len() + 1
                    &&& after.candidates.dom().len() <= job.state.max_keys
                        || after.candidates.dom().len() == job.candidates.dom().len()
                }
                &&& r is Err ==> r == Err::<Flow, Error>(Error::CapacityExceeded)
            }
            &&& r is Err ==> after.candidates == job.candidates
        }),
{
    let (key, address) = job.next->0;
    if job.candidates.dom().contains(key) {
        assert(job.candidates.insert(key, address).dom() =~= job.candidates.dom());
    }
}

/// What a job does next while it copies, workers or not: the copy under way first, then the scan until
/// it is at its end, then the candidates from the least key on, and only then the end of the phase,
/// for which the workers are closed. A job that failed takes back what it has under way instead.
pub proof fn law_copies_come_in_order(job: CompactionModel)
    requires
        job.state.stage is Copy,
        !job.state.pooled,
        job.candidates.dom().finite(),
    ensures
        ({
            let (after, r) = job.begun();
            &&& job.state.failure is Some ==> after.state.call == (if job.state.copying {
                CompactionCall::DrainCopy
            } else {
                CompactionCall::DrainScan
            })
            &&& job.state.failure is None && job.state.copying && job.state.copied < u64::MAX
                ==> after.state.call is CopyStep
            &&& job.state.failure is None && job.state.copying && job.state.copied == u64::MAX
                ==> r == Err::<Flow, Error>(Error::CapacityExceeded)
            &&& job.state.failure is None && !job.state.copying && !job.state.scanned
                ==> after.state.call is ScanStep
            &&& job.state.failure is None && !job.state.copying && job.state.scanned
                && job.candidates.dom().len() == 0 ==> after.state.call is FinishPhase
            &&& after.state.call is FinishPhase ==> job.state.scanned && !job.state.copying
                && job.candidates.dom().len() == 0
            &&& job.state.failure is None && !job.state.copying && job.state.scanned
                && job.candidates.dom().len() > 0 ==> after.state.call is NewCopy
            &&& after.state.call is NewCopy ==> {
                let (key, address) = after.next->0;
                &&& after.next is Some
                &&& after.candidates == job.candidates.remove(key)
                &&& key == first_key(job.candidates)
                &&& address == job.candidates[key]
            }
            &&& !(after.state.call is NewCopy) ==> after.candidates == job.candidates && after.next
                == job.next
            &&& after.state.copying == job.state.copying
            &&& after.state.stage is Copy
        }),
{
    if job.candidates.dom().len() == 0 {
        assert(job.candidates =~= Map::<Seq<u8>, LogAddress>::empty());
    }
}

/// As [`law_copies_come_in_order`], with workers: they are looked at first, and their failure counts.
pub proof fn law_pooled_copies_come_in_order(job: CompactionModel, reply: CompactionReply)
    requires
        job.wf(),
        job.state.stage is Copy,
        job.state.pooled,
        job.state.call == (CompactionCall::Workers { order: Order::GoOn, after: After::Step }),
        reply is Workers,
        job.candidates.dom().finite(),
    ensures
        ({
            let (after, r) = job.next(Ok(reply), false);
            let failed = job.state.failure is Some || reply->failure is Some;
            let call = after.state.call;
            &&& job.begun().0.state.call == (CompactionCall::Workers {
                order: Order::GoOn,
                after: After::Step,
            })
            &&& failed ==> call == (CompactionCall::Workers {
                order: Order::Abort,
                after: After::Drain,
            })
            &&& !failed && job.state.copying ==> call is Submit
            &&& !failed && !job.state.copying && !job.state.scanned ==> call is ScanStep
            &&& !failed && !job.state.copying && job.state.scanned && job.candidates.dom().len() > 0
                ==> call is NewCopy && after.candidates == job.candidates.remove(
                first_key(job.candidates),
            ) && after.next == Some(
                (first_key(job.candidates), job.candidates[first_key(job.candidates)]),
            )
            &&& !failed && !job.state.copying && job.state.scanned && job.candidates.dom().len()
                == 0 ==> call == (CompactionCall::Workers {
                order: Order::Close,
                after: After::Close,
            })
            &&& job.state.failure is Some ==> after.state.failure == job.state.failure
            &&& job.state.failure is None ==> after.state.failure == reply->failure
        }),
{
    let seen = informed(job, reply);
    assert(job.next(Ok(reply), false) == seen.dispatched());
    if job.candidates.dom().len() == 0 {
        assert(job.candidates =~= Map::<Seq<u8>, LogAddress>::empty());
    }
}

/// What comes of a copy: one that was made or that is not needed is over, one that has to wait stays,
/// and one that failed stays to be taken back and fails the step. A copy that was handed to the
/// workers is theirs, and one that they have no room for stays.
pub proof fn law_copy_is_kept_until_it_ends(
    job: CompactionModel,
    reply: Result<CompactionReply, Error>,
    refused: bool,
)
    requires
        job.wf(),
        job.state.call is CopyStep || job.state.call is NewCopy || job.state.call is Submit
            || job.state.call is DrainCopy || job.state.call is DrainScan,
        reply matches Ok(reply) ==> reply.answers(job.state.call),
    ensures
        ({
            let (after, r) = job.next(reply, refused);
            &&& after.candidates == job.candidates
            &&& after.state.stage == job.state.stage
            &&& after.state.failure == job.state.failure
            &&& job.state.call is NewCopy && reply is Ok ==> after.state.copying && after.next is None
                && r == Ok::<Flow, Error>(Flow::Ended(true))
            &&& job.state.call is NewCopy && reply is Err ==> r == Err::<Flow, Error>(reply->Err_0)
                && after.state.copying == job.state.copying
            &&& job.state.call is CopyStep && reply is Ok ==> match reply->Ok_0->Copy_0 {
                Ok(CopyResult::Copied(_)) => {
                    &&& !after.state.copying
                    &&& after.state.copied == job.state.copied + 1
                    &&& r == Ok::<Flow, Error>(Flow::Ended(true))
                },
                Ok(CopyResult::Obsolete) => {
                    &&& !after.state.copying
                    &&& after.state.copied == job.state.copied
                    &&& r == Ok::<Flow, Error>(Flow::Ended(true))
                },
                Ok(CopyResult::Retry) => {
                    &&& after.state.copying == job.state.copying
                    &&& after.state.copied == job.state.copied
                    &&& r == Ok::<Flow, Error>(Flow::Ended(false))
                },
                Err((error, published)) => {
                    &&& after.state.copying == job.state.copying
                    &&& after.state.copied == job.state.copied + if published {
                        1int
                    } else {
                        0
                    }
                    &&& r == Err::<Flow, Error>(error)
                },
            }
            &&& job.state.call is Submit && reply is Ok ==> !after.state.copying && r == Ok::<
                Flow,
                Error,
            >(Flow::Ended(true))
            &&& job.state.call is Submit && reply is Err ==> {
                &&& after.state.copying == job.state.copying
                &&& r == (if reply->Err_0 == Error::Busy {
                    Ok::<Flow, Error>(Flow::Ended(false))
                } else {
                    Err::<Flow, Error>(reply->Err_0)
                })
            }
            &&& job.state.call is DrainCopy && reply is Ok ==> if reply->Ok_0->Flag_0 {
                after.state.call is DrainScan && r == Ok::<Flow, Error>(Flow::More)
            } else {
                r == Ok::<Flow, Error>(Flow::Ended(false)) && after.state.copying
                    == job.state.copying
            }
            &&& job.state.call is DrainScan && reply is Ok ==> if reply->Ok_0->Flag_0 {
                after.state.call is FinishPhase && r == Ok::<Flow, Error>(Flow::More)
            } else {
                r == Ok::<Flow, Error>(Flow::Ended(false))
            }
        }),
{
}

/// What follows the copies: the phase is left and the action finished, unless it failed; then the
/// checkpoint, if one is asked for and the job did not fail, then the truncation, if the begin is to
/// move, and then the report.
pub proof fn law_options_decide_what_follows(job: CompactionModel, reply: CompactionReply)
    requires
        job.wf(),
        job.state.call is FinishPhase || job.state.call is Advance || job.state.call is FinishAction
            || job.state.call is StartCheckpoint || job.state.call is StartGc
            || job.state.call is Report,
        reply.answers(job.state.call),
    ensures
        ({
            let (after, r) = job.next(Ok(reply), false);
            let s = job.state;
            let first = if s.failure is Some {
                CompactionStage::Report
            } else if s.options.checkpoint {
                CompactionStage::StartCheckpoint
            } else if s.options.shift_begin {
                CompactionStage::StartGc
            } else {
                CompactionStage::Report
            };
            let over = s.call is FinishAction || (s.call is FinishPhase && reply->Phase_0
                == Phase::Failed);
            &&& s.call is FinishPhase && reply->Phase_0 != Phase::Failed ==> after.state.call
                is Advance && after.state.stage == s.stage && r == Ok::<Flow, Error>(Flow::More)
            &&& s.call is Advance ==> after.state.call is FinishAction && after.state.stage == s.stage
                && r == Ok::<Flow, Error>(Flow::More)
            &&& over ==> after.state.stage == first
            &&& over && first is Report ==> after.state.call is Report && after.state.result is Some
            &&& over && !(first is Report) ==> r == Ok::<Flow, Error>(Flow::Ended(true))
            &&& s.call is StartCheckpoint ==> after.state.stage is Checkpoint && r == Ok::<
                Flow,
                Error,
            >(Flow::Ended(true))
            &&& s.call is StartGc ==> after.state.stage is Gc && r == Ok::<Flow, Error>(
                Flow::Ended(true),
            )
            &&& s.call is Report ==> after.state.reported && after.state.result == s.result && r
                == Ok::<Flow, Error>(Flow::Ended(true))
        }),
{
}

/// A child that is not done is waited for; what it reports is kept, and its error fails the job, unless
/// it had failed before. The truncation comes only after the checkpoint, where the begin is to move.
pub proof fn law_child_is_waited_for(job: CompactionModel, reply: CompactionReply)
    requires
        job.wf(),
        job.state.call is TakeCheckpoint || job.state.call is TakeGc,
        job.state.cause is None,
        reply.answers(job.state.call),
    ensures
        ({
            let (after, r) = job.next(Ok(reply), false);
            let s = job.state;
            &&& s.call is TakeCheckpoint ==> match reply->Checkpoint_0 {
                None => r == Ok::<Flow, Error>(Flow::Ended(false)) && after.state.stage == s.stage
                    && after.state.checkpoint == s.checkpoint && after.state.failure == s.failure,
                Some(result) => {
                    &&& r == Ok::<Flow, Error>(Flow::Ended(true))
                    &&& after.state.stage == (if s.options.shift_begin {
                        CompactionStage::StartGc
                    } else {
                        CompactionStage::Report
                    })
                    &&& after.state.gc == s.gc
                    &&& result is Ok ==> after.state.checkpoint == Some(result->Ok_0)
                        && after.state.failure == s.failure
                    &&& result is Err ==> after.state.failure == (if s.failure is Some {
                        s.failure
                    } else {
                        Some(result->Err_0)
                    })
                },
            }
            &&& s.call is TakeGc ==> match reply->Gc_0 {
                None => r == Ok::<Flow, Error>(Flow::Ended(false)) && after.state.stage == s.stage
                    && after.state.gc == s.gc && after.state.failure == s.failure,
                Some(result) => {
                    &&& r == Ok::<Flow, Error>(Flow::Ended(true))
                    &&& after.state.stage is Report
                    &&& after.state.checkpoint == s.checkpoint
                    &&& result is Ok ==> after.state.gc == Some(result->Ok_0) && after.state.failure
                        == s.failure
                    &&& result is Err ==> after.state.failure == (if s.failure is Some {
                        s.failure
                    } else {
                        Some(result->Err_0)
                    })
                },
            }
        }),
{
}

/// A child that failed with the engine is asked for its result before the job reports: what it did is
/// part of the report, and so is the first failure.
pub proof fn law_failed_child_is_collected(job: CompactionModel, reply: CompactionReply)
    requires
        job.wf(),
        job.state.cause is Some,
        job.state.call is FailCheckpoint || job.state.call is FailGc
            || job.state.call is TakeCheckpoint || job.state.call is TakeGc,
        reply.answers(job.state.call),
    ensures
        ({
            let (after, r) = job.next(Ok(reply), false);
            let s = job.state;
            &&& s.call is FailCheckpoint ==> after.state.call is TakeCheckpoint && after.state.cause
                == s.cause
            &&& s.call is FailGc ==> after.state.call is TakeGc && after.state.cause == s.cause
            &&& s.call is TakeCheckpoint && reply->Checkpoint_0 is Some ==> {
                &&& after.state.call is Report
                &&& after.state.result matches Some(
                    Err(Error::CompactionFailed { checkpoint, cause, .. }),
                )
                &&& reply->Checkpoint_0->0 matches Ok(report) ==> checkpoint is Some
                    && *checkpoint->0 == report
                &&& *cause == (if s.failure is Some {
                    s.failure->0
                } else {
                    match reply->Checkpoint_0->0 {
                        Err(error) => error,
                        Ok(_) => s.cause->0,
                    }
                })
            }
            &&& s.call is TakeGc && reply->Gc_0 is Some ==> {
                &&& after.state.call is Report
                &&& after.state.result matches Some(Err(Error::CompactionFailed { gc, cause, .. }))
                &&& reply->Gc_0->0 matches Ok(report) ==> gc is Some && *gc->0 == report
                &&& *cause == (if s.failure is Some {
                    s.failure->0
                } else {
                    match reply->Gc_0->0 {
                        Err(error) => error,
                        Ok(_) => s.cause->0,
                    }
                })
            }
            &&& (s.call is TakeCheckpoint && reply->Checkpoint_0 is None) || (s.call is TakeGc
                && reply->Gc_0 is None) ==> r == Ok::<Flow, Error>(Flow::Ended(false))
                && after.state.result == s.result && !after.state.reported == !s.reported
        }),
{
}

/// What no reply changes: the options, the workers and the number of the job; and a stage is left, and
/// the job reported, only by the replies that are meant for it.
pub proof fn law_course_is_kept(
    job: CompactionModel,
    reply: Result<CompactionReply, Error>,
    refused: bool,
)
    requires
        job.wf(),
        job.state.call != CompactionCall::Idle,
        reply matches Ok(reply) ==> reply.answers(job.state.call),
    ensures
        ({
            let after = job.next(reply, refused).0;
            let s = job.state;
            &&& after.state.options == s.options
            &&& after.state.pooled == s.pooled
            &&& after.state.stage != s.stage ==> reply is Ok && (s.call is FinishPhase
                || s.call is FinishAction || s.call is StartCheckpoint || s.call is StartGc
                || s.call is TakeCheckpoint || s.call is TakeGc)
            &&& after.state.reported != s.reported ==> s.call is Report && reply is Ok
                && after.state.reported
        }),
{
    if let Ok(answer) = reply {
        if job.is_copying() {
        } else if job.state.call is Workers {
            lemma_dispatch_keeps(job, answer);
        } else {
            lemma_following_keeps(job, answer);
        }
    }
}

/// A call that fails fails the step with its own error and leaves the job where it was; only workers
/// that have no room and actions that cannot start now are tried again.
pub proof fn law_errors_are_kept(job: CompactionModel, error: Error, refused: bool)
    requires
        job.wf(),
        job.state.call != CompactionCall::Idle,
    ensures
        ({
            let (after, r) = job.next(Err(error), refused);
            let s = job.state;
            let again = error == Error::Busy && (s.call is Submit || s.call is StartCheckpoint
                || s.call is StartGc);
            &&& r == (if again {
                Ok::<Flow, Error>(Flow::Ended(false))
            } else {
                Err::<Flow, Error>(error)
            })
            &&& after.state.stage == s.stage
            &&& after.state.failure == s.failure
            &&& after.state.copied == s.copied
            &&& after.state.copying == s.copying
            &&& after.state.result == s.result
            &&& after.state.scanned == s.scanned
            &&& after.candidates == job.candidates
        }),
{
}

/// What a step of a job does after its copies: it starts or asks for what its stage names, and where it
/// failed or nothing is left, it reports. Its workers are looked at first, and a step of theirs that
/// is not over waits.
pub proof fn law_stage_decides_the_step(job: CompactionModel)
    requires
        !(job.state.stage is Copy),
        !job.state.pooled,
    ensures
        ({
            let (after, r) = job.begun();
            let call = after.state.call;
            &&& r == Ok::<Flow, Error>(Flow::More)
            &&& job.state.failure is Some || job.state.stage is Report ==> call is Report
                && after.state.result is Some
            &&& job.state.failure is None ==> match job.state.stage {
                CompactionStage::StartCheckpoint => call is StartCheckpoint,
                CompactionStage::Checkpoint => call is TakeCheckpoint,
                CompactionStage::StartGc => call is StartGc,
                CompactionStage::Gc => call is TakeGc,
                _ => call is Report,
            }
            &&& after.state.stage == job.state.stage
            &&& call is Report && job.state.failure is None ==> {
                &&& after.state.result matches Some(Ok(report))
                &&& report.copied == job.state.copied
                &&& report.until == job.state.options.until
                &&& report.checkpoint == job.state.checkpoint
                &&& report.gc == job.state.gc
            }
            &&& call is Report && job.state.failure is Some ==> after.state.result is Some
                && after.state.result->0 is Err
        }),
{
}

/// Workers are closed before the phase ends, and drained where the job failed: until they have
/// finished, the step ends without progress.
pub proof fn law_workers_finish_first(job: CompactionModel, reply: CompactionReply)
    requires
        job.wf(),
        job.state.call is Workers,
        reply is Workers,
    ensures
        ({
            let (after, r) = job.next(Ok(reply), false);
            let s = job.state;
            &&& after.state.copied == reply->copied
            &&& s.call->Workers_after == After::Close ==> if reply->finished {
                after.state.call is FinishPhase && r == Ok::<Flow, Error>(Flow::More)
            } else {
                r == Ok::<Flow, Error>(Flow::Ended(false)) && after.state.call is Idle
            }
            &&& s.call->Workers_after == After::Drain ==> if reply->finished {
                after.state.call == (if s.copying {
                    CompactionCall::DrainCopy
                } else {
                    CompactionCall::DrainScan
                })
            } else {
                r == Ok::<Flow, Error>(Flow::Ended(false)) && after.state.call is Idle
            }
            &&& s.call->Workers_after == After::Fail && !reply->finished ==> r == Ok::<Flow, Error>(
                Flow::Ended(false),
            )
            &&& s.call->Workers_after != After::Fail && s.call->Workers_after != After::Step ==> (
            after.state.failure == (if s.failure is Some {
                s.failure
            } else {
                reply->failure
            }))
            &&& after.candidates == job.candidates || s.call->Workers_after == After::Step
        }),
{
    let seen = informed(job, reply);
    assert(seen.dispatched().0.state.copied == reply->copied);
    assert(seen.failing_child().0.state.copied == reply->copied);
}

/// When the engine fails, a job that did not report is brought to its end: its workers are stopped
/// first, then the child that it waits for, whose effects are kept, and then it reports with the first
/// failure, its own or that of the engine.
pub proof fn law_failing_engine_is_reported(job: CompactionModel, cause: Error)
    requires
        job.state.call is Idle,
    ensures
        ({
            let (after, r) = job.failing(cause);
            let s = job.state;
            &&& s.reported ==> r == Ok::<Flow, Error>(Flow::Ended(false))
            &&& !s.reported && s.pooled ==> after.state.call == (CompactionCall::Workers {
                order: Order::Abort,
                after: After::Fail,
            }) && after.state.cause == Some(cause)
            &&& !s.reported && !s.pooled && s.stage is Checkpoint ==> after.state.call
                is FailCheckpoint && after.state.cause == Some(cause)
            &&& !s.reported && !s.pooled && s.stage is Gc ==> after.state.call is FailGc
                && after.state.cause == Some(cause)
            &&& !s.reported && !s.pooled && !(s.stage is Checkpoint) && !(s.stage is Gc) ==> {
                &&& after.state.call is Report
                &&& after.state.result matches Some(Err(Error::CompactionFailed { cause: told, .. }))
                &&& *told == (if s.failure is Some {
                    s.failure->0
                } else {
                    cause
                })
            }
            &&& after.state.copied == s.copied
        }),
{
}

/// A compaction is taken on exactly by an engine that is open, with at least one worker and no more than
/// it may have, on a device that can do what was asked besides copying, while no other is under way.
pub proof fn law_compaction_is_taken_on(
    closed: bool,
    options: CompactionOptions,
    max_workers: usize,
    caps: DeviceCapabilities,
    gate: Gate,
    running: bool,
)
    ensures
        ({
            let refusal = compaction_refusal(closed, options, max_workers, caps, gate, running);
            let workers = 0 < options.workers <= max_workers;
            let able = (options.checkpoint ==> keeps_checkpoints(caps)) && (options.shift_begin
                && caps.supports_files ==> caps.supports_directory_sync);
            &&& refusal is None <==> !closed && workers && able && gate == Gate::Free && !running
            &&& closed ==> refusal == Some(Error::InvalidState("storage_closed_or_failed"))
            &&& !closed && !workers ==> refusal->0 is InvalidConfig
            &&& !closed && workers && !able ==> refusal == Some(Error::UnsupportedDurability)
            &&& !closed && workers && able && (gate == Gate::Held || (gate == Gate::Free && running))
                ==> refusal == Some(Error::Busy)
            &&& !closed && workers && able && gate == Gate::Poisoned ==> refusal == Some(
                Error::InvalidState("compaction_task_lock_poisoned"),
            )
        }),
{
}

/// The result of a compaction says how far it was to go and what was done on the way: the copies, the
/// collection and the checkpoint, also where it failed, with the cause.
pub proof fn law_result_tells_what_was_done(state: CompactionState)
    ensures
        state.failure is None <==> state.outcome() is Ok,
        state.outcome() matches Ok(report) ==> {
            &&& report.until == state.options.until
            &&& report.copied == state.copied
            &&& report.gc == state.gc
            &&& report.checkpoint == state.checkpoint
        },
        state.failure matches Some(cause) ==> {
            &&& state.outcome()->Err_0 matches Error::CompactionFailed {
                until,
                copied,
                checkpoint,
                gc,
                cause: told,
            }
            &&& until == state.options.until
            &&& copied == state.copied
            &&& *told == cause
            &&& checkpoint is Some <==> state.checkpoint is Some
            &&& gc is Some <==> state.gc is Some
            &&& checkpoint is Some ==> *(checkpoint->0) == state.checkpoint->0
            &&& gc is Some ==> *(gc->0) == state.gc->0
        },
{
}

/// A compaction starts with what was asked for, at the copies, with nothing scanned, noted, copied,
/// failed or reported.
pub proof fn law_starts_with_nothing(
    id: MaintenanceId,
    options: CompactionOptions,
    max_keys: usize,
    max_key_bytes: usize,
    pooled: bool,
)
    ensures
        ({
            let job = CompactionModel::starting(id, options, max_keys, max_key_bytes, pooled);
            &&& job.state.id == id
            &&& job.state.options == options
            &&& job.state.max_keys == max_keys
            &&& job.state.max_key_bytes == max_key_bytes
            &&& job.state.pooled == pooled
            &&& job.state.stage is Copy
            &&& job.state.call is Idle
            &&& !job.state.scanned && !job.state.copying && !job.state.reported
            &&& job.state.copied == 0
            &&& job.state.checkpoint is None && job.state.gc is None
            &&& job.state.failure is None && job.state.cause is None && job.state.result is None
            &&& job.candidates.dom().len() == 0
            &&& job.next is None
        }),
{
    assert(Map::<Seq<u8>, LogAddress>::empty().dom() =~= Set::<Seq<u8>>::empty());
}

/// The first failure of a compaction is kept, and nothing else changes with it.
pub proof fn law_first_failure_is_kept(state: CompactionState, error: Error)
    ensures
        state.failure is Some ==> state.failed(error) == state,
        state.failure is None ==> state.failed(error) == (CompactionState {
            failure: Some(error),
            ..state
        }),
{
}

/// A compaction owes a report until it is handed over: while its lock is held it is taken to owe one, and
/// one that is asked for by its number is the only one that counts.
pub proof fn law_report_is_owed(
    gate: Gate,
    job: Option<&CompactionJob>,
    id: Option<MaintenanceId>,
    r: Result<bool, Error>,
)
    requires
        call_ensures(compaction_pending, (gate, job, id), r),
    ensures
        r is Err <==> gate == Gate::Poisoned,
        gate == Gate::Held ==> r == Ok::<bool, Error>(true),
        gate == Gate::Free ==> {
            let owes = job is Some && !job->0.state.reported;
            &&& id is None ==> r == Ok::<bool, Error>(owes)
            &&& id is Some ==> r == Ok::<bool, Error>(owes && job->0.state.id == id->0)
        },
{
}

/// The workers have stopped when none runs or all are done; until the deadline they are waited for.
pub proof fn law_workers_are_waited_for(
    gate: Gate,
    running: bool,
    finished: bool,
    expired: bool,
    r: Result<bool, Error>,
)
    requires
        call_ensures(workers_stopped, (gate, running, finished, expired), r),
    ensures
        r == Ok::<bool, Error>(true) <==> gate == Gate::Free && (!running || finished),
        r == Ok::<bool, Error>(false) <==> !expired && (gate == Gate::Held || (gate == Gate::Free
            && running && !finished)),
        gate == Gate::Poisoned ==> r is Err,
{
}

/// A compaction has workers of its own exactly if more than one was asked for.
pub proof fn law_one_worker_needs_no_pool(options: CompactionOptions, r: bool)
    requires
        call_ensures(CompactionRuntime::pools, (&options,), r),
    ensures
        r <==> options.workers > 1,
{
}

/// A compaction is dropped exactly when its report was handed over; a failed one stays for the end of the
/// engine.
pub proof fn law_dropped_when_reported(
    runtime: &mut CompactionRuntime,
    failed: bool,
    advanced: bool,
    closed: Option<Error>,
    r: Result<(bool, bool), Error>,
)
    requires
        old(runtime).job is Some,
        call_ensures(CompactionRuntime::leave, (runtime, failed, advanced, closed), r),
    ensures
        failed ==> r is Err && final(runtime).job == old(runtime).job,
        failed && closed is Some ==> r == Err::<(bool, bool), Error>(closed->0),
        !failed ==> r == Ok::<(bool, bool), Error>((advanced, old(runtime).job->0.state.reported)),
        !failed ==> (final(runtime).job is None <==> old(runtime).job->0.state.reported),
        final(runtime).job is Some ==> final(runtime).job == old(runtime).job,
{
}

} // verus!
