//! The release of a checkpoint. Under the exclusive lock of the catalogue the commit record is
//! renamed and the directory synchronised; only then are the materials deleted, one by one. A
//! checkpoint that others build on is left alone. Nothing is tried again after a failure.
use crate::device::path::copy_bytes;
use crate::device::{
    CompletionRoute, DeviceCapabilities, IoCompletion, IoOperation, IoOutcome, IoRequest,
};
use crate::engine::common::{
    enter, entered, is_invalid_state, retried, retry, Flow, Gate,
};
use crate::engine::gc::Concluded;
use crate::engine::io_hub::{give_back_error, given_back, CompletionHub};
use crate::reports::{CheckpointReleaseReport, PhysicalReclamation, RecoverySet};
use crate::types::{
    is_set, CheckpointRetirement, CheckpointToken, Error, Generation, IoErrorKind, IoId, LogAddress,
    MaintenanceId, RequestId,
};
use vstd::prelude::*;

verus! {

/// How far a release has come.
#[derive(Clone, Copy, Debug, PartialEq, Eq, Structural)]
pub enum ReleaseStage {
    Lock,
    Catalog,
    Retire,
    RetirementSync,
    Delete,
    DeleteSync,
    Unlock,
    Finish,
}

/// A file of a checkpoint that its manifest lists.
#[derive(Clone, Copy, Debug, PartialEq, Eq, Structural)]
pub struct CatalogMaterial {
    pub id: u64,
    pub generation: Generation,
}

/// What a path is made for.
#[derive(Clone, Copy, Debug, PartialEq, Eq, Structural)]
pub enum CheckpointFile {
    /// The commit record.
    Commit,
    /// The commit record once it is renamed.
    Released,
    /// The directory that the commit record is in.
    Directory,
    Material(CatalogMaterial),
}

impl CheckpointFile {
    /// The name of the file in the directory of its checkpoint; for the directory, that of the
    /// commit record in it. A material has the name that the storage makes of it.
    pub open spec fn spec_name(self) -> Option<&'static str> {
        match self {
            CheckpointFile::Commit => Some("commit"),
            CheckpointFile::Released => Some("commit.released"),
            CheckpointFile::Directory => Some("commit"),
            CheckpointFile::Material(_) => None,
        }
    }

    pub fn name(&self) -> (r: Option<&'static str>)
        ensures
            r == self.spec_name(),
    {
        match self {
            CheckpointFile::Commit | CheckpointFile::Directory => Some("commit"),
            CheckpointFile::Released => Some("commit.released"),
            CheckpointFile::Material(_) => None,
        }
    }
}

/// The call that a step waits for.
#[derive(Clone, Copy, Debug, PartialEq, Eq, Structural)]
pub enum ReleaseCall {
    /// No step is under way.
    Idle,
    /// Look whether the reader of the catalogue holds anything.
    ReaderResources,
    /// Look whether someone else holds the lock.
    Contention,
    /// Give up the lock that is not held, after contention or a failure.
    CancelContended,
    /// Look whether the lock is held.
    LockHeld,
    NewReader,
    /// One step of the reader, with the completion in the mailbox.
    ReaderStep,
    /// Take what the reader read.
    ReaderResult { advanced: bool },
    /// Make a path for the metadata request of the stage.
    Path { file: CheckpointFile },
    /// Collect the completion in the mailbox.
    Take,
    /// Submit the metadata request of the stage.
    Submit,
    /// Forget the checkpoint in memory, as one that is retired or, where that is not confirmed, may
    /// be.
    Invalidate { confirmed: bool },
    LockClosed,
    /// Look whether the lock is held, before it is given back.
    UnlockHeld,
    CancelUnacquired,
    ReleaseLock,
    /// Hand the completion in the mailbox to the lock, if there is one.
    LockTake,
    /// Submit the next request of the lock.
    LockSubmit,
    /// Let the coordinator leave the phase.
    Leave,
    FinishAction,
    Report,
}

/// What the catalogue says of a checkpoint.
#[derive(Debug)]
pub struct CatalogTarget {
    /// Whether its commit record was renamed already.
    pub retired: bool,
    /// The recovery sets that need it.
    pub blockers: Vec<RecoverySet>,
    pub begin: LogAddress,
    pub end: LogAddress,
    /// The materials that its manifest lists.
    pub materials: Vec<CatalogMaterial>,
}

/// The reply to a call that did not fail.
#[derive(Debug)]
pub enum ReleaseReply {
    Done,
    Flag(bool),
    Catalog(Option<CatalogTarget>),
    Path(Vec<u8>),
    Completion(Option<IoCompletion>),
    Submitted(IoId),
}

impl ReleaseReply {
    /// Whether this is the kind of reply that `call` gets.
    pub open spec fn answers(self, call: ReleaseCall) -> bool {
        match call {
            ReleaseCall::Idle => false,
            ReleaseCall::ReaderResources => self is Flag,
            ReleaseCall::Contention => self is Flag,
            ReleaseCall::LockHeld => self is Flag,
            ReleaseCall::ReaderStep => self is Flag,
            ReleaseCall::ReaderResult { .. } => self is Catalog,
            ReleaseCall::Path { .. } => self is Path,
            ReleaseCall::Take => self is Completion,
            ReleaseCall::Submit => self is Submitted,
            ReleaseCall::LockClosed => self is Flag,
            ReleaseCall::UnlockHeld => self is Flag,
            ReleaseCall::LockTake => self is Flag,
            ReleaseCall::LockSubmit => self is Flag,
            _ => self is Done,
        }
    }
}

pub struct ReleaseJob {
    pub id: MaintenanceId,
    pub mailbox: RequestId,
    pub token: CheckpointToken,
    pub stage: ReleaseStage,
    pub call: ReleaseCall,
    /// Whether there is a reader of the catalogue.
    pub reading: bool,
    pub catalog: Option<CatalogTarget>,
    /// The path of the metadata request, as it was made last.
    pub path: Option<Vec<u8>>,
    /// The path that the commit record gets.
    pub destination: Option<Vec<u8>>,
    pub pending: Option<IoId>,
    pub retirement: CheckpointRetirement,
    /// The material that is deleted next.
    pub material: usize,
    pub deleted: u64,
    pub failure: Option<Error>,
    pub result: Option<Result<CheckpointReleaseReport, Error>>,
    pub reported: bool,
}

pub open spec fn unconfirmed() -> Error {
    Error::InvalidState("The release failed and there are still unconfirmed resources.")
}

impl ReleaseJob {
    pub open spec fn route(self) -> CompletionRoute {
        CompletionRoute(self.mailbox.slot)
    }

    pub open spec fn error(self, cause: Error) -> Error {
        Error::CheckpointReleaseFailed {
            token: self.token,
            retirement: self.retirement,
            confirmed_absent_materials: self.deleted,
            cause: Box::new(cause),
        }
    }

    pub open spec fn report(self) -> CheckpointReleaseReport {
        let catalog = self.catalog->0;
        CheckpointReleaseReport {
            token: self.token,
            retirement: self.retirement,
            confirmed_absent_materials: self.deleted,
            physical: if catalog.blockers@.len() == 0 {
                PhysicalReclamation::Completed
            } else {
                PhysicalReclamation::DeferredByRecoverySet {
                    blockers: catalog.blockers,
                    begin: catalog.begin,
                    end: catalog.end,
                }
            },
        }
    }

    /// Whether the stage submits metadata requests.
    pub open spec fn is_metadata(self) -> bool {
        match self.stage {
            ReleaseStage::Retire => true,
            ReleaseStage::RetirementSync => true,
            ReleaseStage::Delete => true,
            ReleaseStage::DeleteSync => true,
            _ => false,
        }
    }

    /// What the path of the stage's request is made for.
    pub open spec fn file(self) -> CheckpointFile {
        match self.stage {
            ReleaseStage::Retire => CheckpointFile::Commit,
            ReleaseStage::Delete => CheckpointFile::Material(
                self.catalog->0.materials@[self.material as int],
            ),
            _ => CheckpointFile::Directory,
        }
    }

    /// Whether this is the metadata request of the stage.
    pub open spec fn submits(self, operation: IoOperation) -> bool {
        match self.stage {
            ReleaseStage::Retire => operation matches IoOperation::Rename { source, destination }
                && source@ == self.path->0@ && destination@ == self.destination->0@,
            ReleaseStage::RetirementSync => operation matches IoOperation::SyncDirectory(path)
                && path@ == self.path->0@,
            ReleaseStage::Delete => operation matches IoOperation::RemoveFile(path) && path@
                == self.path->0@,
            ReleaseStage::DeleteSync => operation matches IoOperation::SyncDirectory(path) && path@
                == self.path->0@,
            _ => false,
        }
    }

    pub open spec fn more(self, call: ReleaseCall) -> (ReleaseJob, Result<Flow, Error>) {
        (ReleaseJob { call, ..self }, Ok(Flow::More))
    }

    pub open spec fn ended(self, advanced: bool) -> (ReleaseJob, Result<Flow, Error>) {
        (ReleaseJob { call: ReleaseCall::Idle, ..self }, Ok(Flow::Ended(advanced)))
    }

    pub open spec fn stopped(self, r: Result<Flow, Error>) -> (ReleaseJob, Result<Flow, Error>) {
        (ReleaseJob { call: ReleaseCall::Idle, ..self }, r)
    }

    /// What a job does first in its stage.
    pub open spec fn staged(self) -> (ReleaseJob, Result<Flow, Error>) {
        match self.stage {
            ReleaseStage::Lock => self.more(ReleaseCall::Contention),
            ReleaseStage::Catalog => self.more(ReleaseCall::ReaderStep),
            ReleaseStage::Delete => if self.material < self.catalog->0.materials@.len() {
                self.more(ReleaseCall::Path { file: self.file() })
            } else {
                ReleaseJob { stage: ReleaseStage::Unlock, ..self }.ended(true)
            },
            ReleaseStage::Unlock => self.more(ReleaseCall::LockClosed),
            ReleaseStage::Finish => match self.failure {
                Some(cause) => ReleaseJob {
                    failure: None,
                    result: Some(Err(self.error(cause))),
                    ..self
                }.more(ReleaseCall::Leave),
                None => ReleaseJob {
                    catalog: None,
                    result: Some(Ok(self.report())),
                    ..self
                }.more(ReleaseCall::Leave),
            },
            _ => self.more(ReleaseCall::Path { file: self.file() }),
        }
    }

    /// The start of a step. A job that failed goes to give back the lock, once nothing is under way.
    pub open spec fn begun(self) -> (ReleaseJob, Result<Flow, Error>) {
        if self.failure is Some && !(self.stage is Unlock) && !(self.stage is Finish) {
            if self.pending is Some {
                self.stopped(Err(unconfirmed()))
            } else if self.reading {
                self.more(ReleaseCall::ReaderResources)
            } else {
                ReleaseJob { stage: ReleaseStage::Unlock, ..self }.staged()
            }
        } else {
            self.staged()
        }
    }

    /// Why a completion is not the one that the job waits for.
    pub open spec fn is_foreign(self, c: IoCompletion) -> bool {
        self.pending != Some(c.id) || c.route != self.route() || c.buffer is Some
    }

    /// What the completion of a metadata request makes of the job. A material that is not there
    /// counts as deleted.
    pub open spec fn completed(self, c: IoCompletion) -> (ReleaseJob, Result<Flow, Error>) {
        let taken = ReleaseJob { pending: None, ..self };
        if self.is_foreign(c) {
            self.stopped(
                Err(Error::InvalidState("Free metadata completion identity or buffering error")),
            )
        } else {
            match c.result {
                Err(error) => if self.stage is Delete && error == Error::Io(IoErrorKind::NotFound) {
                    taken.confirmed()
                } else {
                    taken.stopped(Err(error))
                },
                Ok(outcome) => if outcome is Done {
                    taken.confirmed()
                } else {
                    taken.stopped(
                        Err(Error::InvalidState("Release metadata completion type error")),
                    )
                },
            }
        }
    }

    /// What a metadata request that is done makes of the job.
    pub open spec fn confirmed(self) -> (ReleaseJob, Result<Flow, Error>) {
        match self.stage {
            ReleaseStage::Retire => ReleaseJob { stage: ReleaseStage::RetirementSync, ..self }.ended(
                true,
            ),
            ReleaseStage::RetirementSync => ReleaseJob {
                retirement: CheckpointRetirement::Retired,
                ..self
            }.more(ReleaseCall::Invalidate { confirmed: true }),
            ReleaseStage::Delete => ReleaseJob { stage: ReleaseStage::DeleteSync, ..self }.ended(
                true,
            ),
            _ => if self.deleted == u64::MAX {
                self.stopped(Err(Error::CapacityExceeded))
            } else {
                ReleaseJob {
                    deleted: (self.deleted + 1) as u64,
                    material: (self.material + 1) as usize,
                    stage: ReleaseStage::Delete,
                    ..self
                }.ended(true)
            },
        }
    }

    /// What a failed call makes of the job, and how the step goes on.
    pub open spec fn next_failed(self, error: Error) -> (ReleaseJob, Result<Flow, Error>) {
        match self.call {
            ReleaseCall::Submit => self.stopped(retried(error)),
            ReleaseCall::LockSubmit => self.stopped(retried(error)),
            ReleaseCall::CancelUnacquired => self.more(ReleaseCall::LockTake),
            _ => self.stopped(Err(error)),
        }
    }

    /// What the reply to a call of the lock makes of the job, and how the step goes on.
    pub open spec fn next_locking(self, reply: ReleaseReply) -> (ReleaseJob, Result<Flow, Error>) {
        match self.call {
            ReleaseCall::Contention => if reply->Flag_0 {
                ReleaseJob { failure: Some(Error::Busy), ..self }.more(ReleaseCall::CancelContended)
            } else {
                self.more(ReleaseCall::LockHeld)
            },
            ReleaseCall::CancelContended => ReleaseJob { stage: ReleaseStage::Finish, ..self }.ended(
                true,
            ),
            ReleaseCall::LockHeld => if reply->Flag_0 {
                self.more(ReleaseCall::NewReader)
            } else {
                self.more(ReleaseCall::LockTake)
            },
            ReleaseCall::LockClosed => if reply->Flag_0 {
                ReleaseJob { stage: ReleaseStage::Finish, ..self }.ended(true)
            } else {
                self.more(ReleaseCall::UnlockHeld)
            },
            ReleaseCall::UnlockHeld => if !reply->Flag_0 && self.failure is Some {
                self.more(ReleaseCall::CancelUnacquired)
            } else {
                self.more(ReleaseCall::ReleaseLock)
            },
            ReleaseCall::CancelUnacquired => ReleaseJob {
                stage: ReleaseStage::Finish,
                ..self
            }.ended(true),
            ReleaseCall::ReleaseLock => self.more(ReleaseCall::LockTake),
            ReleaseCall::LockTake => if reply->Flag_0 {
                self.ended(true)
            } else {
                self.more(ReleaseCall::LockSubmit)
            },
            _ => self.ended(reply->Flag_0),
        }
    }

    /// Whether the call is one of the lock.
    pub open spec fn is_locking(self) -> bool {
        match self.call {
            ReleaseCall::Contention => true,
            ReleaseCall::CancelContended => true,
            ReleaseCall::LockHeld => true,
            ReleaseCall::LockClosed => true,
            ReleaseCall::UnlockHeld => true,
            ReleaseCall::CancelUnacquired => true,
            ReleaseCall::ReleaseLock => true,
            ReleaseCall::LockTake => true,
            ReleaseCall::LockSubmit => true,
            _ => false,
        }
    }

    /// What a reply makes of the job, and how the step goes on.
    pub open spec fn next_releasing(self, reply: ReleaseReply) -> (ReleaseJob, Result<Flow, Error>) {
        match self.call {
            ReleaseCall::ReaderResources => if reply->Flag_0 {
                self.stopped(Err(unconfirmed()))
            } else {
                ReleaseJob { stage: ReleaseStage::Unlock, ..self }.staged()
            },
            ReleaseCall::NewReader => ReleaseJob {
                reading: true,
                stage: ReleaseStage::Catalog,
                ..self
            }.ended(true),
            ReleaseCall::ReaderStep => self.more(
                ReleaseCall::ReaderResult { advanced: reply->Flag_0 },
            ),
            ReleaseCall::ReaderResult { advanced } => match reply->Catalog_0 {
                None => self.ended(advanced),
                Some(catalog) => ReleaseJob {
                    retirement: if catalog.retired {
                        CheckpointRetirement::PossiblyRetired
                    } else {
                        CheckpointRetirement::NotAttempted
                    },
                    stage: if catalog.blockers@.len() > 0 {
                        ReleaseStage::Unlock
                    } else if catalog.retired {
                        ReleaseStage::RetirementSync
                    } else {
                        ReleaseStage::Retire
                    },
                    catalog: Some(catalog),
                    reading: false,
                    ..self
                }.ended(advanced),
            },
            ReleaseCall::Path { file } => match file {
                CheckpointFile::Commit => ReleaseJob { path: Some(reply->Path_0), ..self }.more(
                    ReleaseCall::Path { file: CheckpointFile::Released },
                ),
                CheckpointFile::Released => ReleaseJob {
                    destination: Some(reply->Path_0),
                    ..self
                }.more(ReleaseCall::Take),
                _ => ReleaseJob { path: Some(reply->Path_0), ..self }.more(ReleaseCall::Take),
            },
            ReleaseCall::Take => match reply->Completion_0 {
                Some(c) => self.completed(c),
                None => if self.pending is Some {
                    self.ended(false)
                } else {
                    self.more(ReleaseCall::Submit)
                },
            },
            ReleaseCall::Submit => {
                let submitted = ReleaseJob { pending: Some(reply->Submitted_0), ..self };
                if self.stage is Retire {
                    ReleaseJob {
                        retirement: CheckpointRetirement::PossiblyRetired,
                        ..submitted
                    }.more(ReleaseCall::Invalidate { confirmed: false })
                } else {
                    submitted.ended(true)
                }
            },
            ReleaseCall::Invalidate { .. } => if self.stage is RetirementSync {
                ReleaseJob { stage: ReleaseStage::Delete, ..self }.ended(true)
            } else {
                self.ended(true)
            },
            ReleaseCall::Leave => self.more(ReleaseCall::FinishAction),
            ReleaseCall::FinishAction => self.more(ReleaseCall::Report),
            _ => ReleaseJob { reported: true, ..self }.ended(true),
        }
    }

    pub open spec fn next(self, reply: Result<ReleaseReply, Error>) -> (
        ReleaseJob,
        Result<Flow, Error>,
    ) {
        match reply {
            Err(error) => self.next_failed(error),
            Ok(reply) => if self.is_locking() {
                self.next_locking(reply)
            } else {
                self.next_releasing(reply)
            },
        }
    }

    /// What a job needs to hold: a catalogue where materials are deleted or success is reported, and
    /// a material where one is deleted.
    pub open spec fn wf(self) -> bool {
        let asking = self.call is Path || self.call is Take || self.call is Submit;
        &&& self.is_metadata() ==> self.catalog is Some
        &&& self.stage is Unlock || self.stage is Finish ==> self.catalog is Some || self.failure
            is Some || self.result is Some
        &&& self.stage is DeleteSync || (self.stage is Delete && (asking || self.pending is Some))
            ==> self.material < self.catalog->0.materials@.len()
        &&& self.call_fits_stage()
    }

    /// Whether the call is one of the stage, with the failure that leads to it.
    pub open spec fn call_fits_stage(self) -> bool {
        match self.call {
            ReleaseCall::Idle => true,
            ReleaseCall::ReaderResources => self.failure is Some && self.pending is None && !(
            self.stage is Unlock) && !(self.stage is Finish),
            ReleaseCall::Contention => self.stage is Lock,
            ReleaseCall::CancelContended => self.stage is Lock && self.failure is Some,
            ReleaseCall::LockHeld => self.stage is Lock,
            ReleaseCall::NewReader => self.stage is Lock,
            ReleaseCall::ReaderStep => self.stage is Catalog,
            ReleaseCall::ReaderResult { .. } => self.stage is Catalog,
            ReleaseCall::Path { file } => self.is_metadata() && (file == self.file() || (file
                == CheckpointFile::Released && self.stage is Retire && self.path is Some)),
            ReleaseCall::Take => self.has_paths(),
            ReleaseCall::Submit => self.has_paths(),
            ReleaseCall::Invalidate { confirmed } => {
                &&& self.stage is Retire || (self.stage is RetirementSync && self.pending is None)
                &&& confirmed == self.stage is RetirementSync
            },
            ReleaseCall::LockClosed => self.stage is Unlock,
            ReleaseCall::UnlockHeld => self.stage is Unlock,
            ReleaseCall::CancelUnacquired => self.stage is Unlock,
            ReleaseCall::ReleaseLock => self.stage is Unlock,
            ReleaseCall::LockTake => self.stage is Lock || self.stage is Unlock,
            ReleaseCall::LockSubmit => self.stage is Lock || self.stage is Unlock,
            _ => self.stage is Finish && self.result is Some,
        }
    }

    /// Whether the stage has a metadata request and the paths for it.
    pub open spec fn has_paths(self) -> bool {
        &&& self.is_metadata()
        &&& self.path is Some
        &&& self.stage is Retire ==> self.destination is Some
    }

    /// What holds of every release: nothing is deleted before the retirement is durable, and nothing
    /// at all is done to a checkpoint that others need.
    pub open spec fn ordered(self) -> bool {
        &&& self.stage is Delete || self.stage is DeleteSync ==> self.retirement
            == CheckpointRetirement::Retired
        &&& self.call matches ReleaseCall::Invalidate { confirmed } ==> confirmed == (
        self.retirement == CheckpointRetirement::Retired)
        &&& self.deleted > 0 ==> self.retirement == CheckpointRetirement::Retired
        &&& self.catalog is Some && self.catalog->0.blockers@.len() > 0 ==> {
            &&& self.stage is Unlock || self.stage is Finish
            &&& self.retirement != CheckpointRetirement::Retired
            &&& self.deleted == 0
        }
        &&& self.stage is Lock || self.stage is Catalog ==> self.retirement
            == CheckpointRetirement::NotAttempted && self.deleted == 0
        &&& self.stage is Retire ==> self.retirement != CheckpointRetirement::Retired
            && self.deleted == 0
    }

    pub fn new(id: MaintenanceId, mailbox: RequestId, token: CheckpointToken) -> (r: ReleaseJob)
        ensures
            r.wf(),
            r.ordered(),
            r == (ReleaseJob {
                id,
                mailbox,
                token,
                stage: ReleaseStage::Lock,
                call: ReleaseCall::Idle,
                reading: false,
                catalog: None,
                path: None,
                destination: None,
                pending: None,
                retirement: CheckpointRetirement::NotAttempted,
                material: 0,
                deleted: 0,
                failure: None,
                result: None,
                reported: false,
            }),
    {
        ReleaseJob {
            id,
            mailbox,
            token,
            stage: ReleaseStage::Lock,
            call: ReleaseCall::Idle,
            reading: false,
            catalog: None,
            path: None,
            destination: None,
            pending: None,
            retirement: CheckpointRetirement::NotAttempted,
            material: 0,
            deleted: 0,
            failure: None,
            result: None,
            reported: false,
        }
    }

    fn start_stage(&mut self) -> (r: Result<Flow, Error>)
        requires
            old(self).wf(),
            old(self).stage is Finish ==> old(self).failure is Some || old(self).catalog is Some,
        ensures
            (*final(self), r) == old(self).staged(),
    {
        match self.stage {
            ReleaseStage::Lock => {
                self.call = ReleaseCall::Contention;
                Ok(Flow::More)
            },
            ReleaseStage::Catalog => {
                self.call = ReleaseCall::ReaderStep;
                Ok(Flow::More)
            },
            ReleaseStage::Delete => {
                let next = match &self.catalog {
                    Some(catalog) if self.material < catalog.materials.len() => Some(
                        catalog.materials[self.material],
                    ),
                    _ => None,
                };
                match next {
                    Some(material) => {
                        self.call = ReleaseCall::Path { file: CheckpointFile::Material(material) };
                        Ok(Flow::More)
                    },
                    None => {
                        self.stage = ReleaseStage::Unlock;
                        self.call = ReleaseCall::Idle;
                        Ok(Flow::Ended(true))
                    },
                }
            },
            ReleaseStage::Unlock => {
                self.call = ReleaseCall::LockClosed;
                Ok(Flow::More)
            },
            ReleaseStage::Finish => {
                self.call = ReleaseCall::Leave;
                match self.failure.take() {
                    Some(cause) => {
                        self.result = Some(
                            Err(
                                Error::CheckpointReleaseFailed {
                                    token: self.token,
                                    retirement: self.retirement,
                                    confirmed_absent_materials: self.deleted,
                                    cause: Box::new(cause),
                                },
                            ),
                        );
                    },
                    None => match self.catalog.take() {
                        Some(catalog) => {
                            let physical = if catalog.blockers.len() == 0 {
                                PhysicalReclamation::Completed
                            } else {
                                PhysicalReclamation::DeferredByRecoverySet {
                                    blockers: catalog.blockers,
                                    begin: catalog.begin,
                                    end: catalog.end,
                                }
                            };
                            self.result = Some(
                                Ok(
                                    CheckpointReleaseReport {
                                        token: self.token,
                                        retirement: self.retirement,
                                        confirmed_absent_materials: self.deleted,
                                        physical,
                                    },
                                ),
                            );
                        },
                        None => {},
                    },
                }
                Ok(Flow::More)
            },
            ReleaseStage::Retire => {
                self.call = ReleaseCall::Path { file: CheckpointFile::Commit };
                Ok(Flow::More)
            },
            _ => {
                self.call = ReleaseCall::Path { file: CheckpointFile::Directory };
                Ok(Flow::More)
            },
        }
    }

    /// Starts a step.
    pub fn begin(&mut self) -> (r: Result<Flow, Error>)
        requires
            old(self).wf(),
            old(self).call == ReleaseCall::Idle,
            old(self).stage is Finish ==> old(self).failure is Some || old(self).catalog is Some,
        ensures
            (*final(self), r) == old(self).begun(),
            final(self).wf(),
    {
        let unlocking = match self.stage {
            ReleaseStage::Unlock | ReleaseStage::Finish => true,
            _ => false,
        };
        if self.failure.is_some() && !unlocking {
            if self.pending.is_some() {
                self.call = ReleaseCall::Idle;
                return Err(
                    Error::InvalidState(
                        "The release failed and there are still unconfirmed resources.",
                    ),
                );
            }
            if self.reading {
                self.call = ReleaseCall::ReaderResources;
                return Ok(Flow::More);
            }
            self.stage = ReleaseStage::Unlock;
        }
        self.start_stage()
    }

    /// A call of the step panicked: the step is over, whatever call it was.
    pub fn panicked(&mut self) -> (r: Error)
        requires
            old(self).wf(),
        ensures
            final(self).wf(),
            *final(self) == (ReleaseJob { call: ReleaseCall::Idle, ..*old(self) }),
            r == Error::InvalidState("Checkpoint release advances panic"),
    {
        self.call = ReleaseCall::Idle;
        Error::InvalidState("Checkpoint release advances panic")
    }

    /// Takes the reply to the call of the step.
    pub fn accept(&mut self, reply: Result<ReleaseReply, Error>) -> (r: Result<Flow, Error>)
        requires
            old(self).wf(),
            old(self).call != ReleaseCall::Idle,
            reply matches Ok(reply) ==> reply.answers(old(self).call),
        ensures
            (*final(self), r) == old(self).next(reply),
            final(self).wf(),
    {
        let reply = match reply {
            Ok(reply) => reply,
            Err(error) => {
                let call = self.call;
                self.call = ReleaseCall::Idle;
                return match call {
                    ReleaseCall::Submit | ReleaseCall::LockSubmit => retry(error),
                    ReleaseCall::CancelUnacquired => {
                        self.call = ReleaseCall::LockTake;
                        Ok(Flow::More)
                    },
                    _ => Err(error),
                };
            },
        };
        match self.call {
            ReleaseCall::Contention | ReleaseCall::CancelContended | ReleaseCall::LockHeld
            | ReleaseCall::LockClosed | ReleaseCall::UnlockHeld | ReleaseCall::CancelUnacquired
            | ReleaseCall::ReleaseLock | ReleaseCall::LockTake | ReleaseCall::LockSubmit => {
                self.accept_locking(reply)
            },
            _ => self.accept_releasing(reply),
        }
    }

    fn accept_locking(&mut self, reply: ReleaseReply) -> (r: Result<Flow, Error>)
        requires
            old(self).is_locking(),
            reply.answers(old(self).call),
        ensures
            (*final(self), r) == old(self).next_locking(reply),
    {
        let flag = match reply {
            ReleaseReply::Flag(flag) => flag,
            _ => false,
        };
        let call = self.call;
        self.call = ReleaseCall::Idle;
        match call {
            ReleaseCall::Contention => {
                if flag {
                    self.failure = Some(Error::Busy);
                    self.call = ReleaseCall::CancelContended;
                } else {
                    self.call = ReleaseCall::LockHeld;
                }
                Ok(Flow::More)
            },
            ReleaseCall::CancelContended | ReleaseCall::CancelUnacquired => {
                self.stage = ReleaseStage::Finish;
                Ok(Flow::Ended(true))
            },
            ReleaseCall::LockHeld => {
                self.call = if flag {
                    ReleaseCall::NewReader
                } else {
                    ReleaseCall::LockTake
                };
                Ok(Flow::More)
            },
            ReleaseCall::LockClosed => {
                if flag {
                    self.stage = ReleaseStage::Finish;
                    Ok(Flow::Ended(true))
                } else {
                    self.call = ReleaseCall::UnlockHeld;
                    Ok(Flow::More)
                }
            },
            ReleaseCall::UnlockHeld => {
                self.call = if !flag && self.failure.is_some() {
                    ReleaseCall::CancelUnacquired
                } else {
                    ReleaseCall::ReleaseLock
                };
                Ok(Flow::More)
            },
            ReleaseCall::ReleaseLock => {
                self.call = ReleaseCall::LockTake;
                Ok(Flow::More)
            },
            ReleaseCall::LockTake => {
                if flag {
                    Ok(Flow::Ended(true))
                } else {
                    self.call = ReleaseCall::LockSubmit;
                    Ok(Flow::More)
                }
            },
            _ => Ok(Flow::Ended(flag)),
        }
    }

    fn accept_releasing(&mut self, reply: ReleaseReply) -> (r: Result<Flow, Error>)
        requires
            old(self).wf(),
            !old(self).is_locking(),
            old(self).call != ReleaseCall::Idle,
            reply.answers(old(self).call),
        ensures
            (*final(self), r) == old(self).next_releasing(reply),
    {
        let call = self.call;
        self.call = ReleaseCall::Idle;
        match call {
            ReleaseCall::ReaderResources => {
                if let ReleaseReply::Flag(true) = reply {
                    return Err(
                        Error::InvalidState(
                            "The release failed and there are still unconfirmed resources.",
                        ),
                    );
                }
                self.stage = ReleaseStage::Unlock;
                self.start_stage()
            },
            ReleaseCall::NewReader => {
                self.reading = true;
                self.stage = ReleaseStage::Catalog;
                Ok(Flow::Ended(true))
            },
            ReleaseCall::ReaderStep => {
                let advanced = match reply {
                    ReleaseReply::Flag(advanced) => advanced,
                    _ => false,
                };
                self.call = ReleaseCall::ReaderResult { advanced };
                Ok(Flow::More)
            },
            ReleaseCall::ReaderResult { advanced } => {
                if let ReleaseReply::Catalog(Some(catalog)) = reply {
                    self.retirement = if catalog.retired {
                        CheckpointRetirement::PossiblyRetired
                    } else {
                        CheckpointRetirement::NotAttempted
                    };
                    self.stage = if catalog.blockers.len() > 0 {
                        ReleaseStage::Unlock
                    } else if catalog.retired {
                        ReleaseStage::RetirementSync
                    } else {
                        ReleaseStage::Retire
                    };
                    self.catalog = Some(catalog);
                    self.reading = false;
                }
                Ok(Flow::Ended(advanced))
            },
            ReleaseCall::Path { file } => {
                let path = match reply {
                    ReleaseReply::Path(path) => Some(path),
                    _ => None,
                };
                self.call = match file {
                    CheckpointFile::Commit => {
                        self.path = path;
                        ReleaseCall::Path { file: CheckpointFile::Released }
                    },
                    CheckpointFile::Released => {
                        self.destination = path;
                        ReleaseCall::Take
                    },
                    _ => {
                        self.path = path;
                        ReleaseCall::Take
                    },
                };
                Ok(Flow::More)
            },
            ReleaseCall::Take => {
                if let ReleaseReply::Completion(Some(c)) = reply {
                    proof {
                        let materials = self.catalog->0.materials;
                        assert(materials.len() == materials@.len());
                    }
                    return self.complete(c);
                }
                if self.pending.is_some() {
                    return Ok(Flow::Ended(false));
                }
                self.call = ReleaseCall::Submit;
                Ok(Flow::More)
            },
            ReleaseCall::Submit => {
                if let ReleaseReply::Submitted(id) = reply {
                    self.pending = Some(id);
                }
                if self.stage == ReleaseStage::Retire {
                    self.retirement = CheckpointRetirement::PossiblyRetired;
                    self.call = ReleaseCall::Invalidate { confirmed: false };
                    return Ok(Flow::More);
                }
                Ok(Flow::Ended(true))
            },
            ReleaseCall::Invalidate { .. } => {
                if self.stage == ReleaseStage::RetirementSync {
                    self.stage = ReleaseStage::Delete;
                }
                Ok(Flow::Ended(true))
            },
            ReleaseCall::Leave => {
                self.call = ReleaseCall::FinishAction;
                Ok(Flow::More)
            },
            ReleaseCall::FinishAction => {
                self.call = ReleaseCall::Report;
                Ok(Flow::More)
            },
            _ => {
                self.reported = true;
                Ok(Flow::Ended(true))
            },
        }
    }

    /// The metadata request of the stage: the commit record is renamed, the directory synchronised,
    /// or a material removed.
    pub fn request(&self) -> (r: IoRequest)
        requires
            self.wf(),
            self.call is Submit,
        ensures
            r.route == self.route(),
            self.submits(r.operation),
    {
        let path = match &self.path {
            Some(path) => copy_bytes(path.as_slice()),
            None => Vec::new(),
        };
        let operation = match self.stage {
            ReleaseStage::Retire => {
                let destination = match &self.destination {
                    Some(destination) => copy_bytes(destination.as_slice()),
                    None => Vec::new(),
                };
                IoOperation::Rename { source: path, destination }
            },
            ReleaseStage::Delete => IoOperation::RemoveFile(path),
            _ => IoOperation::SyncDirectory(path),
        };
        IoRequest { route: CompletionRoute(self.mailbox.slot), operation }
    }

    /// Takes the completion of a metadata request.
    fn complete(&mut self, c: IoCompletion) -> (r: Result<Flow, Error>)
        requires
            old(self).call == ReleaseCall::Idle,
            old(self).is_metadata(),
            old(self).stage is DeleteSync ==> old(self).material < usize::MAX,
        ensures
            (*final(self), r) == old(self).completed(c),
    {
        let expected = match self.pending {
            Some(id) => id == c.id,
            None => false,
        };
        if !expected || c.route.0 != self.mailbox.slot || c.buffer.is_some() {
            return Err(Error::InvalidState("Free metadata completion identity or buffering error"));
        }
        self.pending = None;
        match c.result {
            Ok(IoOutcome::Done) => self.confirm(),
            Ok(_) => Err(Error::InvalidState("Release metadata completion type error")),
            Err(Error::Io(IoErrorKind::NotFound)) => {
                if self.stage == ReleaseStage::Delete {
                    self.confirm()
                } else {
                    Err(Error::Io(IoErrorKind::NotFound))
                }
            },
            Err(error) => Err(error),
        }
    }

    fn confirm(&mut self) -> (r: Result<Flow, Error>)
        requires
            old(self).call == ReleaseCall::Idle,
            old(self).is_metadata(),
            old(self).stage is DeleteSync ==> old(self).material < usize::MAX,
        ensures
            (*final(self), r) == old(self).confirmed(),
    {
        match self.stage {
            ReleaseStage::Retire => {
                self.stage = ReleaseStage::RetirementSync;
                Ok(Flow::Ended(true))
            },
            ReleaseStage::RetirementSync => {
                self.retirement = CheckpointRetirement::Retired;
                self.call = ReleaseCall::Invalidate { confirmed: true };
                Ok(Flow::More)
            },
            ReleaseStage::Delete => {
                self.stage = ReleaseStage::DeleteSync;
                Ok(Flow::Ended(true))
            },
            _ => match self.deleted.checked_add(1) {
                Some(deleted) => {
                    self.deleted = deleted;
                    self.material = self.material + 1;
                    self.stage = ReleaseStage::Delete;
                    Ok(Flow::Ended(true))
                },
                None => Err(Error::CapacityExceeded),
            },
        }
    }

    /// Takes the outcome of a step. An error is kept as the failure of the job, unless it has one;
    /// it closes the engine where the job had failed before, where the state is broken, and where
    /// the lock is in doubt.
    pub fn conclude(&mut self, draining: bool, outcome: Result<bool, Error>) -> (r: Concluded)
        ensures
            match outcome {
                Ok(advanced) => *final(self) == *old(self) && r == (Concluded {
                    fatal: false,
                    advanced,
                }),
                Err(error) => {
                    &&& r == (Concluded {
                        fatal: draining || error is InvalidState || old(self).stage is Lock || old(
                            self,
                        ).stage is Unlock,
                        advanced: false,
                    })
                    &&& *final(self) == (ReleaseJob {
                        failure: if old(self).failure is Some {
                            old(self).failure
                        } else {
                            Some(error)
                        },
                        ..*old(self)
                    })
                },
            },
    {
        match outcome {
            Ok(advanced) => Concluded { fatal: false, advanced },
            Err(error) => {
                let locking = match self.stage {
                    ReleaseStage::Lock | ReleaseStage::Unlock => true,
                    _ => false,
                };
                let fatal = draining || is_invalid_state(&error) || locking;
                if self.failure.is_none() {
                    self.failure = Some(error);
                }
                Concluded { fatal, advanced: false }
            },
        }
    }

    /// The error that goes to the ticket when the engine fails, unless the job has reported.
    pub fn fail(&mut self) -> (r: Option<Error>)
        ensures
            old(self).reported ==> r is None && *final(self) == *old(self),
            !old(self).reported ==> {
                let cause = match old(self).failure {
                    Some(failure) => failure,
                    None => Error::InvalidState("Engine failed shutdown during checkpoint release"),
                };
                &&& r == Some(old(self).error(cause))
                &&& *final(self) == (ReleaseJob { failure: None, ..*old(self) })
            },
    {
        if self.reported {
            return None;
        }
        let cause = match self.failure.take() {
            Some(failure) => failure,
            None => Error::InvalidState("Engine failed shutdown during checkpoint release"),
        };
        Some(
            Error::CheckpointReleaseFailed {
                token: self.token,
                retirement: self.retirement,
                confirmed_absent_materials: self.deleted,
                cause: Box::new(cause),
            },
        )
    }
}

/// The release under way.
pub struct ReleaseRuntime {
    pub job: Option<ReleaseJob>,
}

impl ReleaseRuntime {
    pub fn new() -> (r: ReleaseRuntime)
        ensures
            r.job is None,
    {
        ReleaseRuntime { job: None }
    }

    /// Takes what came of the two steps of a start after the mailbox was reserved: the lock of the
    /// catalog, and the action at the coordinator. The mailbox of a release that did not start is
    /// given back.
    pub fn start(
        &mut self,
        hub: &mut CompletionHub,
        mailbox: RequestId,
        started: Result<MaintenanceId, Error>,
        token: CheckpointToken,
    ) -> (r: Result<MaintenanceId, Error>)
        requires
            old(self).job is None,
            old(hub).wf(),
        ensures
            final(hub).wf(),
            match started {
                Err(error) => {
                    &&& final(self).job is None
                    &&& final(hub)@ == given_back(old(hub)@, Some(mailbox))
                    &&& r == Err::<MaintenanceId, Error>(
                        match give_back_error(old(hub)@, Some(mailbox)) {
                            Some(lost) => lost,
                            None => error,
                        },
                    )
                },
                Ok(id) => {
                    &&& final(hub)@ == old(hub)@
                    &&& r == Ok::<MaintenanceId, Error>(id)
                    &&& final(self).job matches Some(job)
                    &&& job.wf()
                    &&& job.ordered()
                    &&& job == (ReleaseJob {
                        id,
                        mailbox,
                        token,
                        stage: ReleaseStage::Lock,
                        call: ReleaseCall::Idle,
                        reading: false,
                        catalog: None,
                        path: None,
                        destination: None,
                        pending: None,
                        retirement: CheckpointRetirement::NotAttempted,
                        material: 0,
                        deleted: 0,
                        failure: None,
                        result: None,
                        reported: false,
                    })
                },
            },
    {
        match started {
            Err(error) => match hub.release(mailbox) {
                Err(lost) => Err(lost),
                Ok(()) => Err(error),
            },
            Ok(id) => {
                self.job = Some(ReleaseJob::new(id, mailbox, token));
                Ok(id)
            },
        }
    }

    /// Whether a step is made.
    pub fn enter(&self, gate: Gate) -> (r: Result<bool, Error>)
        ensures
            r == entered(
                gate,
                "checkpoint_release_task_lock_poisoned",
                self.job matches Some(job) && !job.reported,
            ),
    {
        let due = match &self.job {
            Some(job) => !job.reported,
            None => false,
        };
        enter(gate, "checkpoint_release_task_lock_poisoned", due)
    }

    /// Ends a step. Where the engine has failed, the job was told so before, and `delivered` says
    /// what came of its report, if it had one to make: nothing advances any more. Otherwise the
    /// result says whether the step advanced, and whether the release is done; its mailbox is then
    /// given back.
    pub fn leave(
        &mut self,
        hub: &mut CompletionHub,
        failed: bool,
        advanced: bool,
        delivered: Option<Result<(), Error>>,
    ) -> (r: Result<(bool, bool), Error>)
        requires
            old(self).job is Some,
            old(hub).wf(),
        ensures
            final(hub).wf(),
            failed ==> {
                &&& r == Err::<(bool, bool), Error>(
                    match delivered {
                        Some(Err(error)) => error,
                        _ => Error::InvalidState(
                            "Checkpoint release failed shutdown,see_maintenance_report",
                        ),
                    },
                )
                &&& final(hub)@ == old(hub)@
                &&& final(self).job == Some(
                    if delivered matches Some(Ok(_)) {
                        ReleaseJob { reported: true, ..old(self).job->0 }
                    } else {
                        old(self).job->0
                    },
                )
            },
            !failed && !old(self).job->0.reported ==> {
                &&& r == Ok::<(bool, bool), Error>((advanced, false))
                &&& final(hub)@ == old(hub)@
                &&& final(self).job == old(self).job
            },
            !failed && old(self).job->0.reported ==> {
                let mailbox = Some(old(self).job->0.mailbox);
                &&& final(hub)@ == given_back(old(hub)@, mailbox)
                &&& match give_back_error(old(hub)@, mailbox) {
                    Some(lost) => r == Err::<(bool, bool), Error>(lost) && final(self).job == old(
                        self,
                    ).job,
                    None => final(self).job is None && r == Ok::<(bool, bool), Error>(
                        (advanced, true),
                    ),
                }
            },
    {
        if failed {
            return match self.told(delivered) {
                Err(error) => Err(error),
                Ok(()) => Err(
                    Error::InvalidState("Checkpoint release failed shutdown,see_maintenance_report"),
                ),
            };
        }
        let mailbox = match &self.job {
            Some(job) if job.reported => job.mailbox,
            _ => {
                return Ok((advanced, false));
            },
        };
        match hub.release(mailbox) {
            Err(lost) => Err(lost),
            Ok(()) => {
                self.job = None;
                Ok((advanced, true))
            },
        }
    }

    /// Whether a job has to be told that the engine failed.
    pub fn fails(&self, gate: Gate) -> (r: Result<bool, Error>)
        ensures
            r == entered(gate, "checkpoint_release_task_lock_poisoned", self.job is Some),
    {
        enter(gate, "checkpoint_release_task_lock_poisoned", self.job.is_some())
    }

    /// A job was told that the engine failed. `delivered` says what came of its report, if it had
    /// one to make: only a report that was taken is the last one.
    pub fn told(&mut self, delivered: Option<Result<(), Error>>) -> (r: Result<(), Error>)
        requires
            old(self).job is Some,
        ensures
            match delivered {
                None => r is Ok && final(self).job == old(self).job,
                Some(Err(error)) => r == Err::<(), Error>(error) && final(self).job == old(
                    self,
                ).job,
                Some(Ok(_)) => r is Ok && final(self).job == Some(
                    ReleaseJob { reported: true, ..old(self).job->0 },
                ),
            },
    {
        match delivered {
            None => Ok(()),
            Some(Err(error)) => Err(error),
            Some(Ok(())) => {
                if let Some(job) = &mut self.job {
                    job.reported = true;
                }
                Ok(())
            },
        }
    }

    /// The device has stopped, and has given everything back: the job is dropped, and its mailbox
    /// given back.
    pub fn stop(&mut self, hub: &mut CompletionHub, poisoned: bool) -> (r: Result<(), Error>)
        requires
            old(hub).wf(),
        ensures
            final(hub).wf(),
            poisoned ==> {
                &&& r == Err::<(), Error>(
                    Error::InvalidState("checkpoint_release_task_lock_poisoned"),
                )
                &&& final(self).job == old(self).job
                &&& final(hub)@ == old(hub)@
            },
            !poisoned ==> {
                let mailbox = match old(self).job {
                    Some(job) => Some(job.mailbox),
                    None => None,
                };
                &&& final(self).job is None
                &&& final(hub)@ == given_back(old(hub)@, mailbox)
                &&& r == (match give_back_error(old(hub)@, mailbox) {
                    Some(lost) => Err::<(), Error>(lost),
                    None => Ok::<(), Error>(()),
                })
            },
    {
        if poisoned {
            return Err(Error::InvalidState("checkpoint_release_task_lock_poisoned"));
        }
        match self.job.take() {
            Some(job) => hub.release(job.mailbox),
            None => Ok(()),
        }
    }
}

/// Whether a device can release a checkpoint.
pub open spec fn releases_checkpoints(caps: DeviceCapabilities) -> bool {
    &&& caps.supports_files
    &&& caps.supports_file_sync
    &&& caps.supports_directory_sync
    &&& caps.supports_atomic_publish
    &&& caps.supports_file_locks
    &&& caps.supports_directory_listing
    &&& caps.transfer_alignment == 1
}

/// Whether a release may start, as far as the engine decides.
pub fn release_admission(
    token: &CheckpointToken,
    failed: bool,
    shutdown_requested: bool,
    caps: &DeviceCapabilities,
    gate: Gate,
    running: bool,
) -> (r: Result<(), Error>)
    ensures
        r == (if !is_set(token.0) {
            Err::<(), Error>(Error::InvalidFormat("an identity must not be zero"))
        } else if failed || shutdown_requested {
            Err::<(), Error>(Error::InvalidState("Storage has been closed or failed"))
        } else if !releases_checkpoints(*caps) {
            Err::<(), Error>(Error::UnsupportedDurability)
        } else if gate == Gate::Held {
            Err::<(), Error>(Error::Busy)
        } else if gate == Gate::Poisoned {
            Err::<(), Error>(Error::InvalidState("checkpoint_release_task_lock_poisoned"))
        } else if running {
            Err::<(), Error>(Error::Busy)
        } else {
            Ok::<(), Error>(())
        }),
{
    match token.validate() {
        Ok(()) => {},
        Err(error) => {
            return Err(error);
        },
    }
    if failed || shutdown_requested {
        return Err(Error::InvalidState("Storage has been closed or failed"));
    }
    if !caps.supports_files || !caps.supports_file_sync || !caps.supports_directory_sync
        || !caps.supports_atomic_publish || !caps.supports_file_locks
        || !caps.supports_directory_listing || caps.transfer_alignment != 1 {
        return Err(Error::UnsupportedDurability);
    }
    match gate {
        Gate::Held => {
            return Err(Error::Busy);
        },
        Gate::Poisoned => {
            return Err(Error::InvalidState("checkpoint_release_task_lock_poisoned"));
        },
        Gate::Free => {},
    }
    if running {
        return Err(Error::Busy);
    }
    Ok(())
}

/// The order of a release is kept by every step and every reply: no material is deleted before the
/// retirement of its checkpoint is durable, and a checkpoint that others need is neither retired nor
/// emptied.
pub proof fn law_order(job: ReleaseJob, reply: Result<ReleaseReply, Error>)
    requires
        job.wf(),
        job.ordered(),
        reply matches Ok(reply) ==> reply.answers(job.call),
    ensures
        job.call == ReleaseCall::Idle ==> job.begun().0.ordered(),
        job.call != ReleaseCall::Idle ==> job.next(reply).0.ordered(),
{
}

/// What a release asks of the device, and when: the commit record is renamed, and a material removed,
/// only where no other checkpoint needs this one; a material is removed only once the retirement is
/// durable, and it is one that the checkpoint's own manifest lists, which the path was made for.
pub proof fn law_requests_are_in_order(job: ReleaseJob, operation: IoOperation)
    requires
        job.wf(),
        job.ordered(),
        job.call is Submit,
        job.submits(operation),
    ensures
        job.catalog matches Some(catalog) && catalog.blockers@.len() == 0,
        match operation {
            IoOperation::Rename { .. } => job.stage is Retire && job.retirement
                != CheckpointRetirement::Retired && job.deleted == 0,
            IoOperation::SyncDirectory(_) => job.file() == CheckpointFile::Directory,
            IoOperation::RemoveFile(_) => {
                &&& job.stage is Delete
                &&& job.retirement == CheckpointRetirement::Retired
                &&& job.file() matches CheckpointFile::Material(material)
                    && job.catalog->0.materials@.contains(material)
            },
            _ => false,
        },
{
    if job.stage is Delete {
        let materials = job.catalog->0.materials@;
        assert(materials.contains(materials[job.material as int]));
    }
}

/// The paths of a request are those that were made for it in the same step: that of the commit
/// record and that of its new name, that of the directory, or that of the material.
pub proof fn law_paths_are_those_asked_for(job: ReleaseJob, path: Vec<u8>)
    requires
        job.wf(),
        job.call is Path,
    ensures
        job.call->file == job.file() || (job.stage is Retire && job.call->file
            == CheckpointFile::Released),
        ({
            let next = job.next(Ok(ReleaseReply::Path(path))).0;
            &&& next.stage == job.stage
            &&& next.file() == job.file()
            &&& if job.call->file == CheckpointFile::Released {
                next.destination == Some(path) && next.path == job.path && next.call is Take
            } else {
                &&& next.path == Some(path)
                &&& next.call == (if job.stage is Retire {
                    ReleaseCall::Path { file: CheckpointFile::Released }
                } else {
                    ReleaseCall::Take
                })
            }
            &&& next.call is Take ==> {
                let waiting = next.next(Ok(ReleaseReply::Completion(None))).0;
                &&& waiting.path == next.path
                &&& waiting.destination == next.destination
                &&& waiting.stage == next.stage
                &&& waiting.call is Submit <==> next.pending is None
            }
        }),
{
}

/// A checkpoint counts as retired only when the synchronisation of its directory came back done,
/// and that is asked for only after the rename came back done, or where the catalogue showed the
/// renamed record. A request under way keeps the release in its stage.
pub proof fn law_retired_by_synchronisation(job: ReleaseJob, reply: Result<ReleaseReply, Error>)
    requires
        job.wf(),
        job.ordered(),
        job.call != ReleaseCall::Idle,
        reply matches Ok(reply) ==> reply.answers(job.call),
    ensures
        job.retirement != CheckpointRetirement::Retired && job.next(reply).0.retirement
            == CheckpointRetirement::Retired ==> {
            &&& job.stage is RetirementSync
            &&& job.call is Take
            &&& reply matches Ok(ReleaseReply::Completion(Some(c)))
            &&& !job.is_foreign(c)
            &&& c.result matches Ok(IoOutcome::Done)
        },
        !(job.stage is RetirementSync) && job.next(reply).0.stage is RetirementSync ==> {
            ||| {
                &&& job.stage is Retire
                &&& job.call is Take
                &&& reply matches Ok(ReleaseReply::Completion(Some(c)))
                &&& !job.is_foreign(c)
                &&& c.result matches Ok(IoOutcome::Done)
            }
            ||| {
                &&& job.call is ReaderResult
                &&& reply matches Ok(ReleaseReply::Catalog(Some(catalog)))
                &&& catalog.retired
            }
        },
        job.pending is Some && job.is_metadata() && job.next(reply).0.pending == job.pending
            ==> job.next(reply).0.stage == job.stage,
{
}

/// Before a request that retires the checkpoint can take effect, the job knows that it may have: once
/// the rename is submitted the retirement is no longer reported as not attempted.
pub proof fn law_retirement_is_never_hidden(job: ReleaseJob, id: IoId)
    requires
        job.stage is Retire,
        job.call is Submit,
    ensures
        job.next(Ok(ReleaseReply::Submitted(id))).0.retirement
            == CheckpointRetirement::PossiblyRetired,
        job.next(Ok(ReleaseReply::Submitted(id))).0.pending == Some(id),
{
}

/// The retirement of a checkpoint and the deletion of its materials are never taken back: what was
/// counted stays counted, and what is retired stays retired.
pub proof fn law_progress_is_kept(job: ReleaseJob, reply: Result<ReleaseReply, Error>)
    requires
        job.wf(),
        job.ordered(),
        job.call != ReleaseCall::Idle,
        reply matches Ok(reply) ==> reply.answers(job.call),
    ensures
        job.next(reply).0.deleted >= job.deleted,
        job.retirement == CheckpointRetirement::Retired ==> job.next(reply).0.retirement
            == CheckpointRetirement::Retired,
        job.reported ==> job.next(reply).0.reported,
{
}

/// A step begins where the stage stands: with the lock, the reader, the path of the request, or the
/// end. A release that failed first gives back the lock, but not while a request is under way or the
/// reader holds something.
pub proof fn law_stage_decides_the_step(job: ReleaseJob)
    requires
        job.wf(),
        job.call is Idle,
    ensures
        ({
            let (next, r) = job.begun();
            let failing = job.failure is Some && !(job.stage is Unlock) && !(job.stage is Finish);
            &&& failing && job.pending is Some ==> r == Err::<Flow, Error>(
                Error::InvalidState("The release failed and there are still unconfirmed resources."),
            ) && next == job
            &&& failing && job.pending is None && job.reading ==> next == (ReleaseJob {
                call: ReleaseCall::ReaderResources,
                ..job
            }) && r == Ok::<Flow, Error>(Flow::More)
            &&& failing && job.pending is None && !job.reading ==> next == (ReleaseJob {
                call: ReleaseCall::LockClosed,
                stage: ReleaseStage::Unlock,
                ..job
            }) && r == Ok::<Flow, Error>(Flow::More)
            &&& !failing && job.stage is Lock ==> next == (ReleaseJob {
                call: ReleaseCall::Contention,
                ..job
            }) && r == Ok::<Flow, Error>(Flow::More)
            &&& !failing && job.stage is Catalog ==> next == (ReleaseJob {
                call: ReleaseCall::ReaderStep,
                ..job
            }) && r == Ok::<Flow, Error>(Flow::More)
            &&& !failing && job.stage is Retire ==> next == (ReleaseJob {
                call: ReleaseCall::Path { file: CheckpointFile::Commit },
                ..job
            }) && r == Ok::<Flow, Error>(Flow::More)
            &&& !failing && (job.stage is RetirementSync || job.stage is DeleteSync) ==> next == (
            ReleaseJob { call: ReleaseCall::Path { file: CheckpointFile::Directory }, ..job })
                && r == Ok::<Flow, Error>(Flow::More)
            &&& !failing && job.stage is Delete ==> {
                let materials = job.catalog->0.materials@;
                if job.material < materials.len() {
                    next == (ReleaseJob {
                        call: ReleaseCall::Path {
                            file: CheckpointFile::Material(materials[job.material as int]),
                        },
                        ..job
                    }) && r == Ok::<Flow, Error>(Flow::More)
                } else {
                    next == (ReleaseJob { stage: ReleaseStage::Unlock, ..job }) && r == Ok::<
                        Flow,
                        Error,
                    >(Flow::Ended(true))
                }
            }
            &&& job.stage is Unlock ==> next == (ReleaseJob { call: ReleaseCall::LockClosed, ..job })
                && r == Ok::<Flow, Error>(Flow::More)
        }),
{
}

/// The result of a release: its failure, with how far it came, or else how far it came and what the
/// recovery sets hold back. Nothing is held back exactly when no set needs the checkpoint.
pub proof fn law_result_tells_how_far(job: ReleaseJob)
    requires
        job.wf(),
        job.call is Idle,
        job.stage is Finish,
        job.failure is Some || job.catalog is Some,
    ensures
        ({
            let (next, r) = job.begun();
            &&& r == Ok::<Flow, Error>(Flow::More)
            &&& next.call is Leave
            &&& next.stage is Finish
            &&& next.failure is None
            &&& next.deleted == job.deleted
            &&& next.retirement == job.retirement
            &&& job.failure matches Some(cause) ==> next.result == Some(
                Err::<CheckpointReleaseReport, Error>(
                    Error::CheckpointReleaseFailed {
                        token: job.token,
                        retirement: job.retirement,
                        confirmed_absent_materials: job.deleted,
                        cause: Box::new(cause),
                    },
                ),
            )
            &&& job.failure is None ==> {
                let catalog = job.catalog->0;
                &&& next.result matches Some(Ok(report))
                &&& report.token == job.token
                &&& report.retirement == job.retirement
                &&& report.confirmed_absent_materials == job.deleted
                &&& report.physical is Completed <==> catalog.blockers@.len() == 0
                &&& catalog.blockers@.len() > 0 ==> report.physical
                    == (PhysicalReclamation::DeferredByRecoverySet {
                    blockers: catalog.blockers,
                    begin: catalog.begin,
                    end: catalog.end,
                })
            }
        }),
{
}

/// A request is done with when its own completion says so: one with the identity that was submitted,
/// on the route of the release, without a buffer. Only where a material is deleted a file that is not
/// there counts too. Every other completion is an error, and the work of the stage stays undone.
pub proof fn law_completion_is_checked(job: ReleaseJob, c: IoCompletion)
    requires
        job.wf(),
        job.call is Take,
    ensures
        ({
            let (next, r) = job.next(Ok(ReleaseReply::Completion(Some(c))));
            let own = job.pending == Some(c.id) && c.route.0 == job.mailbox.slot && c.buffer is None;
            let done = c.result == Ok::<IoOutcome, Error>(IoOutcome::Done) || (job.stage is Delete
                && c.result == Err::<IoOutcome, Error>(Error::Io(IoErrorKind::NotFound)));
            &&& !own ==> next == (ReleaseJob { call: ReleaseCall::Idle, ..job }) && r == Err::<
                Flow,
                Error,
            >(Error::InvalidState("Free metadata completion identity or buffering error"))
            &&& own ==> next.pending is None
            &&& own && !done ==> next == (ReleaseJob {
                call: ReleaseCall::Idle,
                pending: None,
                ..job
            }) && r == Err::<Flow, Error>(
                match c.result {
                    Err(error) => error,
                    Ok(_) => Error::InvalidState("Release metadata completion type error"),
                },
            )
            &&& own && done && job.stage is Retire ==> next == (ReleaseJob {
                call: ReleaseCall::Idle,
                pending: None,
                stage: ReleaseStage::RetirementSync,
                ..job
            }) && r == Ok::<Flow, Error>(Flow::Ended(true))
            &&& own && done && job.stage is RetirementSync ==> next == (ReleaseJob {
                call: ReleaseCall::Invalidate { confirmed: true },
                pending: None,
                retirement: CheckpointRetirement::Retired,
                ..job
            }) && r == Ok::<Flow, Error>(Flow::More)
            &&& own && done && job.stage is Delete ==> next == (ReleaseJob {
                call: ReleaseCall::Idle,
                pending: None,
                stage: ReleaseStage::DeleteSync,
                ..job
            }) && r == Ok::<Flow, Error>(Flow::Ended(true))
            &&& own && done && job.stage is DeleteSync && job.deleted < u64::MAX ==> {
                &&& next.deleted == job.deleted + 1
                &&& next.material == job.material + 1
                &&& next == (ReleaseJob {
                    call: ReleaseCall::Idle,
                    pending: None,
                    stage: ReleaseStage::Delete,
                    deleted: next.deleted,
                    material: next.material,
                    ..job
                })
                &&& r == Ok::<Flow, Error>(Flow::Ended(true))
            }
            &&& own && done && job.stage is DeleteSync && job.deleted == u64::MAX ==> r == Err::<
                Flow,
                Error,
            >(Error::CapacityExceeded)
        }),
{
    if job.stage is DeleteSync {
        assert(job.catalog->0.materials.len() == job.catalog->0.materials@.len());
    }
}

/// What is counted as deleted grows by one exactly when the deletion of the material that is next is
/// synchronised, and with it the material moves on by one; nothing else changes either.
pub proof fn law_deleted_one_by_one(job: ReleaseJob, reply: Result<ReleaseReply, Error>)
    requires
        job.wf(),
        job.call != ReleaseCall::Idle,
        reply matches Ok(reply) ==> reply.answers(job.call),
    ensures
        ({
            let next = job.next(reply).0;
            &&& next.deleted == job.deleted || next.deleted == job.deleted + 1
            &&& next.material - job.material == next.deleted - job.deleted
            &&& next.deleted == job.deleted + 1 <==> {
                &&& job.stage is DeleteSync
                &&& job.call is Take
                &&& job.deleted < u64::MAX
                &&& reply matches Ok(ReleaseReply::Completion(Some(c)))
                &&& job.pending == Some(c.id)
                &&& c.route.0 == job.mailbox.slot
                &&& c.buffer is None
                &&& c.result matches Ok(IoOutcome::Done)
            }
        }),
{
    if job.stage is DeleteSync {
        assert(job.catalog->0.materials.len() == job.catalog->0.materials@.len());
    }
}

/// What the catalogue says decides what is done: a checkpoint that a recovery set needs is left alone
/// and the lock is given back; one whose commit record was renamed before only has to be
/// synchronised; every other one is retired. Until the catalogue is read the step waits.
pub proof fn law_catalog_decides(job: ReleaseJob, found: Option<CatalogTarget>, advanced: bool)
    requires
        job.wf(),
        job.call == (ReleaseCall::ReaderResult { advanced }),
    ensures
        ({
            let (next, r) = job.next(Ok(ReleaseReply::Catalog(found)));
            &&& r == Ok::<Flow, Error>(Flow::Ended(advanced))
            &&& found is None ==> next == (ReleaseJob { call: ReleaseCall::Idle, ..job })
            &&& found matches Some(catalog) ==> {
                &&& next.catalog == Some(catalog)
                &&& !next.reading
                &&& next.stage is Unlock <==> catalog.blockers@.len() > 0
                &&& next.stage is RetirementSync <==> catalog.blockers@.len() == 0 && catalog.retired
                &&& next.stage is Retire <==> catalog.blockers@.len() == 0 && !catalog.retired
                &&& next.retirement == (if catalog.retired {
                    CheckpointRetirement::PossiblyRetired
                } else {
                    CheckpointRetirement::NotAttempted
                })
                &&& next == (ReleaseJob {
                    call: ReleaseCall::Idle,
                    catalog: next.catalog,
                    reading: next.reading,
                    stage: next.stage,
                    retirement: next.retirement,
                    ..job
                })
            }
        }),
{
}

/// A lock that someone else waits for is given up at once, and the release fails as busy. A lock that
/// is held leads to the reader. When the lock is to be given back, one that was never got is
/// cancelled; if that cannot be, it is driven on as one that is given back.
pub proof fn law_lock_is_taken_and_given_back(job: ReleaseJob, reply: ReleaseReply)
    requires
        job.wf(),
        reply.answers(job.call),
        job.call is Contention || job.call is CancelContended || job.call is LockHeld || job.call
            is LockClosed || job.call is UnlockHeld || job.call is CancelUnacquired || job.call
            is ReleaseLock || job.call is LockTake || job.call is LockSubmit,
    ensures
        ({
            let (next, r) = job.next(Ok(reply));
            &&& next == (ReleaseJob {
                call: next.call,
                failure: next.failure,
                stage: next.stage,
                ..job
            })
            &&& r is Ok
            &&& next.failure == (if job.call is Contention && reply->Flag_0 {
                Some(Error::Busy)
            } else {
                job.failure
            })
            &&& next.stage == (if job.call is CancelContended || job.call is CancelUnacquired || (
            job.call is LockClosed && reply->Flag_0) {
                ReleaseStage::Finish
            } else {
                job.stage
            })
            &&& job.call is Contention ==> next.call == (if reply->Flag_0 {
                ReleaseCall::CancelContended
            } else {
                ReleaseCall::LockHeld
            })
            &&& job.call is LockHeld ==> next.call == (if reply->Flag_0 {
                ReleaseCall::NewReader
            } else {
                ReleaseCall::LockTake
            })
            &&& job.call is LockClosed && !reply->Flag_0 ==> next.call is UnlockHeld
            &&& job.call is UnlockHeld ==> next.call == (if !reply->Flag_0 && job.failure is Some {
                ReleaseCall::CancelUnacquired
            } else {
                ReleaseCall::ReleaseLock
            })
            &&& job.call is ReleaseLock ==> next.call is LockTake
            &&& job.call is LockTake && !reply->Flag_0 ==> next.call is LockSubmit
            &&& next.call is Idle <==> !(r->Ok_0 is More)
            &&& job.call is LockSubmit ==> r->Ok_0 == Flow::Ended(reply->Flag_0)
            &&& !(job.call is LockSubmit) && next.call is Idle ==> r->Ok_0 == Flow::Ended(true)
            &&& next.call is Idle <==> job.call is CancelContended || job.call is CancelUnacquired
                || job.call is LockSubmit || (reply is Flag && reply->Flag_0 && (job.call is LockClosed
                || job.call is LockTake))
        }),
{
}

/// The other replies: a reader is made once the lock is held, a failed release waits for its reader
/// to hold nothing, a request that was submitted is pending and an unconfirmed retirement is told, and
/// the result is reported after the phase and the action are left.
pub proof fn law_release_comes_in_order(job: ReleaseJob, reply: ReleaseReply)
    requires
        job.wf(),
        reply.answers(job.call),
    ensures
        ({
            let (next, r) = job.next(Ok(reply));
            &&& job.call is ReaderResources && reply->Flag_0 ==> next == (ReleaseJob {
                call: ReleaseCall::Idle,
                ..job
            }) && r is Err
            &&& job.call is ReaderResources && !reply->Flag_0 ==> next == (ReleaseJob {
                call: ReleaseCall::LockClosed,
                stage: ReleaseStage::Unlock,
                ..job
            }) && r == Ok::<Flow, Error>(Flow::More)
            &&& job.call is NewReader ==> next == (ReleaseJob {
                call: ReleaseCall::Idle,
                stage: ReleaseStage::Catalog,
                reading: true,
                ..job
            }) && r == Ok::<Flow, Error>(Flow::Ended(true))
            &&& job.call is ReaderStep ==> next == (ReleaseJob {
                call: ReleaseCall::ReaderResult { advanced: reply->Flag_0 },
                ..job
            }) && r == Ok::<Flow, Error>(Flow::More)
            &&& job.call is Take && reply->Completion_0 is None ==> next == (ReleaseJob {
                call: next.call,
                ..job
            }) && (if job.pending is Some {
                next.call is Idle && r == Ok::<Flow, Error>(Flow::Ended(false))
            } else {
                next.call is Submit && r == Ok::<Flow, Error>(Flow::More)
            })
            &&& job.call is Submit ==> {
                &&& next.pending == Some(reply->Submitted_0)
                &&& next.stage == job.stage
                &&& next.deleted == job.deleted
                &&& job.stage is Retire ==> next.retirement == CheckpointRetirement::PossiblyRetired
                    && next.call == (ReleaseCall::Invalidate { confirmed: false }) && r == Ok::<
                    Flow,
                    Error,
                >(Flow::More)
                &&& !(job.stage is Retire) ==> next.retirement == job.retirement && next.call is Idle
                    && r == Ok::<Flow, Error>(Flow::Ended(true))
            }
            &&& job.call is Invalidate ==> next == (ReleaseJob {
                call: ReleaseCall::Idle,
                stage: if job.stage is RetirementSync {
                    ReleaseStage::Delete
                } else {
                    job.stage
                },
                ..job
            }) && r == Ok::<Flow, Error>(Flow::Ended(true))
            &&& job.call is Leave ==> next == (ReleaseJob { call: ReleaseCall::FinishAction, ..job })
                && r == Ok::<Flow, Error>(Flow::More)
            &&& job.call is FinishAction ==> next == (ReleaseJob {
                call: ReleaseCall::Report,
                ..job
            }) && r == Ok::<Flow, Error>(Flow::More)
            &&& job.call is Report ==> next == (ReleaseJob {
                call: ReleaseCall::Idle,
                reported: true,
                ..job
            }) && r == Ok::<Flow, Error>(Flow::Ended(true))
        }),
{
}

/// A call that failed changes nothing but the call. A busy device is asked again in a later step, a
/// lock that could not be cancelled is driven on, and every other error is that of the step.
pub proof fn law_errors_are_kept(job: ReleaseJob, error: Error)
    requires
        job.wf(),
        job.call != ReleaseCall::Idle,
    ensures
        ({
            let (next, r) = job.next(Err(error));
            let patient = job.call is Submit || job.call is LockSubmit;
            &&& next == (ReleaseJob { call: next.call, ..job })
            &&& job.call is CancelUnacquired ==> next.call is LockTake && r == Ok::<Flow, Error>(
                Flow::More,
            )
            &&& !(job.call is CancelUnacquired) ==> next.call is Idle
            &&& patient && error == Error::Busy ==> r == Ok::<Flow, Error>(Flow::Ended(false))
            &&& !(job.call is CancelUnacquired) && !(patient && error == Error::Busy) ==> r == Err::<
                Flow,
                Error,
            >(error)
        }),
{
}

/// A request goes out on the route of the release: the rename of the commit record from the first path
/// to the second, the removal of the material, or the synchronisation of the directory.
pub proof fn law_request_uses_the_paths(job: ReleaseJob, operation: IoOperation)
    requires
        job.wf(),
        job.call is Submit,
        job.submits(operation),
    ensures
        job.stage is Retire <==> operation is Rename,
        job.stage is Delete <==> operation is RemoveFile,
        job.stage is RetirementSync || job.stage is DeleteSync <==> operation is SyncDirectory,
        operation matches IoOperation::Rename { source, destination } ==> source@ == job.path->0@
            && destination@ == job.destination->0@,
        operation matches IoOperation::RemoveFile(path) ==> path@ == job.path->0@,
        operation matches IoOperation::SyncDirectory(path) ==> path@ == job.path->0@,
        job.route().0 == job.mailbox.slot,
{
}

/// A device that lacks any one of what a release needs releases nothing: what a checkpoint needs, and
/// that it can list a directory.
pub proof fn law_releases_need_all(caps: DeviceCapabilities)
    ensures
        releases_checkpoints(caps) <==> caps.supports_directory_listing
            && crate::engine::common::keeps_checkpoints(caps),
        !caps.supports_files ==> !releases_checkpoints(caps),
        !caps.supports_file_sync ==> !releases_checkpoints(caps),
        !caps.supports_directory_sync ==> !releases_checkpoints(caps),
        !caps.supports_atomic_publish ==> !releases_checkpoints(caps),
        !caps.supports_file_locks ==> !releases_checkpoints(caps),
        !caps.supports_directory_listing ==> !releases_checkpoints(caps),
        caps.transfer_alignment != 1 ==> !releases_checkpoints(caps),
{
}

/// The commit record and the renamed one have two names, and the directory is named by what lies in it.
pub proof fn law_released_has_another_name(material: CatalogMaterial)
    ensures
        CheckpointFile::Commit.spec_name() is Some,
        CheckpointFile::Released.spec_name() is Some,
        CheckpointFile::Commit.spec_name()->0@ != CheckpointFile::Released.spec_name()->0@,
        CheckpointFile::Directory.spec_name() == CheckpointFile::Commit.spec_name(),
        CheckpointFile::Material(material).spec_name() is None,
{
    reveal_strlit("commit");
    reveal_strlit("commit.released");
    assert(CheckpointFile::Commit.spec_name()->0@.len() == 6);
    assert(CheckpointFile::Released.spec_name()->0@.len() == 15);
}

/// A release is taken on exactly for a token that is set, by an engine that is open, on a device that can
/// release checkpoints, while no other is under way.
pub proof fn law_release_is_taken_on(
    token: CheckpointToken,
    failed: bool,
    shutdown_requested: bool,
    caps: DeviceCapabilities,
    gate: Gate,
    running: bool,
    r: Result<(), Error>,
)
    requires
        call_ensures(
            release_admission,
            (&token, failed, shutdown_requested, &caps, gate, running),
            r,
        ),
    ensures
        r is Ok <==> {
            &&& is_set(token.0)
            &&& !failed
            &&& !shutdown_requested
            &&& releases_checkpoints(caps)
            &&& gate == Gate::Free
            &&& !running
        },
        r == Err::<(), Error>(Error::UnsupportedDurability) ==> !releases_checkpoints(caps),
        r == Err::<(), Error>(Error::Busy) ==> gate == Gate::Held || running,
{
}

/// What ends a step: an error is kept as the failure of the release unless it has one, and closes the
/// engine where its state is broken, it drains, or the lock is concerned.
pub proof fn law_first_failure_is_kept(
    job: &mut ReleaseJob,
    draining: bool,
    outcome: Result<bool, Error>,
    r: Concluded,
)
    requires
        call_ensures(ReleaseJob::conclude, (job, draining, outcome), r),
    ensures
        outcome matches Ok(advanced) ==> final(job).failure == old(job).failure && r.advanced
            == advanced && !r.fatal,
        outcome matches Err(error) ==> {
            &&& !r.advanced
            &&& r.fatal <==> draining || error is InvalidState || old(job).stage is Lock || old(
                job,
            ).stage is Unlock
            &&& old(job).failure is Some ==> final(job).failure == old(job).failure
            &&& old(job).failure is None ==> final(job).failure == Some(error)
        },
        final(job).stage == old(job).stage,
        final(job).deleted == old(job).deleted,
        final(job).retirement == old(job).retirement,
        final(job).reported == old(job).reported,
{
}

} // verus!
