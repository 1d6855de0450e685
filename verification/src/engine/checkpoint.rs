//! A checkpoint: the index is copied, the log is frozen and flushed, the materials are written under
//! the shared lock of the catalogue, and the manifest is published last. The job decides; whoever
//! runs it makes the calls.
use crate::allocation::{reserve, Memory};
use crate::engine::common::{retried, retry, CoordinatorState, Flow, Frontiers, Gate, Phase};
use crate::engine::pending::SessionCut;
use crate::reports::{CheckpointKind, CheckpointReport, DurableProgress};
use crate::types::{
    CheckpointToken, CheckpointVersion, Error, Generation, LogAddress, MaintenanceId, RequestId,
    Serial, SessionId, StoreId,
};
use vstd::prelude::*;

verus! {

/// How keys and values are written, as far as a checkpoint has to know.
#[derive(Clone, Copy, Debug, PartialEq, Eq, Structural)]
pub struct Semantics {
    pub key_format: u64,
    pub value_format: u64,
    pub hash: u64,
}

#[derive(Clone, Copy, Debug, PartialEq, Eq, Structural)]
pub enum MaterialKind {
    Index,
    Log,
}

/// One file of a checkpoint.
#[derive(Clone, Copy, Debug, PartialEq, Eq, Structural)]
pub struct Material {
    pub id: u64,
    pub generation: Generation,
    pub kind: MaterialKind,
    pub begin: LogAddress,
    pub end: LogAddress,
    pub bytes: u64,
    pub checksum: u64,
}

/// What a checkpoint consists of.
#[derive(Debug)]
pub struct Manifest {
    pub store: StoreId,
    pub token: CheckpointToken,
    pub kind: CheckpointKind,
    /// The checkpoint whose index this one builds on: itself, or an earlier one.
    pub base_index: CheckpointToken,
    pub semantics: Semantics,
    pub version: CheckpointVersion,
    pub begin: LogAddress,
    pub end: LogAddress,
    pub replay_from: LogAddress,
    pub session_progress: Vec<(SessionId, Serial)>,
    pub materials: Vec<Material>,
}

#[verifier::ext_equal]
pub struct ManifestModel {
    pub store: StoreId,
    pub token: CheckpointToken,
    pub kind: CheckpointKind,
    pub base_index: CheckpointToken,
    pub semantics: Semantics,
    pub version: CheckpointVersion,
    pub begin: LogAddress,
    pub end: LogAddress,
    pub replay_from: LogAddress,
    pub sessions: Seq<(SessionId, Serial)>,
    pub materials: Seq<Material>,
}

impl Manifest {
    pub open spec fn view(self) -> ManifestModel {
        ManifestModel {
            store: self.store,
            token: self.token,
            kind: self.kind,
            base_index: self.base_index,
            semantics: self.semantics,
            version: self.version,
            begin: self.begin,
            end: self.end,
            replay_from: self.replay_from,
            sessions: self.session_progress@,
            materials: self.materials@,
        }
    }
}

/// Work that a checkpoint has at the device.
#[derive(Clone, Copy, Debug, PartialEq, Eq, Structural)]
pub enum Work {
    Directory,
    Index,
    Log,
    Publish,
    BaseIndex,
}

/// What a piece of work gave.
#[derive(Clone, Copy, Debug, PartialEq, Eq, Structural)]
pub enum WorkOutput {
    Directory,
    Index,
    Log(Material),
    Published,
    BaseIndex,
}

impl WorkOutput {
    pub open spec fn of(self, work: Work) -> bool {
        match work {
            Work::Directory => self is Directory,
            Work::Index => self is Index,
            Work::Log => self is Log,
            Work::Publish => self is Published,
            Work::BaseIndex => self is BaseIndex,
        }
    }
}

/// The call that a step waits for.
#[derive(Clone, Copy, Debug, PartialEq, Eq, Structural)]
pub enum CheckpointCall {
    /// No step is under way.
    Idle,
    /// Look at the coordinator.
    State,
    /// Hand the completion in the mailbox to the work, if there is one.
    WorkTake,
    /// Take what the work gave.
    WorkOutput,
    /// Submit the next request of the work.
    WorkSubmit,
    /// Check that the index that was read fits the manifest.
    MatchRecovery,
    /// Look where the log begins, before the index is copied.
    SnapshotBegin,
    SnapshotIndex { begin: LogAddress },
    /// Look where the log ends, after the index was copied.
    SnapshotEnd { begin: LogAddress, bytes: u64, checksum: u64 },
    /// Let the coordinator leave the phase of the snapshot.
    LeaveSnapshot,
    /// Look whether pages are being flushed.
    StorageGate,
    /// Ask all sessions what they accepted.
    Cuts,
    /// Fill the last page, so that the log ends at a page.
    PadTail,
    /// Look where the log begins, after it was frozen.
    FrozenFrontiers,
    /// Make room for so many files.
    ReserveFiles { count: usize },
    /// Look how far the log is read-only.
    ReadOnlyFrontiers,
    AdvanceReadOnly { to: LogAddress },
    /// Look how far the log is flushed.
    FlushedFrontiers,
    NewLock,
    LockHeld,
    LockTake,
    LockSubmit,
    NewDirectory,
    NewIndexWrite,
    NewLogWrite,
    NewBaseRead,
    /// Prepare the publication of the manifest.
    NewPublish,
    LeaveFlush,
    LockClosed,
    ReleaseLock,
    /// Remember that the checkpoint is committed.
    RecordCommitted,
    FinishAction,
    Report,
}

/// The reply to a call that did not fail.
#[derive(Debug)]
pub enum CheckpointReply {
    Done,
    Flag(bool),
    State(CoordinatorState),
    Frontiers(Frontiers),
    /// The length and the checksum of the copied index.
    Snapshot { bytes: u64, checksum: u64 },
    Gate(Gate),
    Cuts(Vec<SessionCut>),
    Tail(LogAddress),
    Output(Option<WorkOutput>),
}

/// The last serials of the sessions that have one.
pub open spec fn progress_of(cuts: Seq<SessionCut>) -> Seq<(SessionId, Serial)>
    decreases cuts.len(),
{
    if cuts.len() == 0 {
        Seq::empty()
    } else {
        let before = progress_of(cuts.drop_last());
        match cuts.last().last_accepted {
            Some(serial) => before.push((cuts.last().session, serial)),
            None => before,
        }
    }
}

/// Whether a session still has tasks of the old version.
pub open spec fn any_pending(cuts: Seq<SessionCut>) -> bool {
    exists|i: int| 0 <= i < cuts.len() && (#[trigger] cuts[i]).old_pending != 0
}

/// The materials, with an end that is known now.
pub open spec fn ending_at(materials: Seq<Material>, end: LogAddress) -> Seq<Material> {
    materials.map_values(|m: Material| Material { end, ..m })
}

/// All that a checkpoint job holds.
#[verifier::ext_equal]
pub struct CheckpointModel {
    pub id: MaintenanceId,
    pub mailbox: RequestId,
    pub manifest: ManifestModel,
    pub chunk: u64,
    pub max_items: usize,
    pub call: CheckpointCall,
    /// Whether the copied index waits to be written.
    pub index: bool,
    pub frozen: Option<LogAddress>,
    pub next_page: u64,
    pub directory: bool,
    /// How many files are written and not yet published.
    pub files: nat,
    pub work: Option<Work>,
    pub published: bool,
    pub finished: bool,
    pub failed: bool,
    pub locking: bool,
    pub base_validated: bool,
}

pub type Step = (CheckpointModel, Result<Flow, Error>);

impl CheckpointModel {
    pub open spec fn more(self, call: CheckpointCall) -> Step {
        (CheckpointModel { call, ..self }, Ok(Flow::More))
    }

    pub open spec fn ended(self, advanced: bool) -> Step {
        (CheckpointModel { call: CheckpointCall::Idle, ..self }, Ok(Flow::Ended(advanced)))
    }

    pub open spec fn stopped(self, r: Result<Flow, Error>) -> Step {
        (CheckpointModel { call: CheckpointCall::Idle, ..self }, r)
    }

    pub open spec fn first_page(self) -> u64 {
        self.manifest.begin.0 / self.chunk
    }

    /// The page after the last one of the checkpoint.
    pub open spec fn end_page(self) -> u64 {
        self.manifest.end.0 / self.chunk
    }

    pub open spec fn holds_log(self) -> bool {
        self.manifest.kind != CheckpointKind::Index
    }

    /// What the state of the coordinator makes of the job.
    pub open spec fn seen(self, state: CoordinatorState) -> Step {
        if state.id != Some(self.id) || state.phase == Phase::Failed {
            self.stopped(Err(Error::InvalidState("Checkpoint action has expired")))
        } else if self.work is Some {
            self.more(CheckpointCall::WorkTake)
        } else {
            match state.phase {
                Phase::IndexSnapshot => self.more(CheckpointCall::SnapshotBegin),
                Phase::WaitFlush => if self.holds_log() {
                    self.more(CheckpointCall::StorageGate)
                } else {
                    self.locked()
                },
                Phase::Publish => if self.published {
                    self.more(CheckpointCall::LockClosed)
                } else {
                    self.ended(false)
                },
                _ => self.ended(false),
            }
        }
    }

    /// The job goes on to the lock of the catalogue.
    pub open spec fn locked(self) -> Step {
        if self.locking {
            self.more(CheckpointCall::LockHeld)
        } else {
            self.more(CheckpointCall::NewLock)
        }
    }

    /// What the job writes next, under the lock.
    pub open spec fn writing(self) -> Step {
        if !self.directory {
            self.more(CheckpointCall::NewDirectory)
        } else if self.index {
            CheckpointModel { index: false, ..self }.more(CheckpointCall::NewIndexWrite)
        } else if self.holds_log() && self.next_page < self.end_page() {
            self.more(CheckpointCall::NewLogWrite)
        } else if self.manifest.kind == CheckpointKind::Log && !self.base_validated {
            self.more(CheckpointCall::NewBaseRead)
        } else {
            CheckpointModel { directory: false, files: 0, ..self }.more(CheckpointCall::NewPublish)
        }
    }

    pub open spec fn working(self, work: Work) -> Step {
        CheckpointModel { work: Some(work), ..self }.ended(true)
    }

    /// What a piece of work that is done makes of the job.
    pub open spec fn worked(self, output: WorkOutput) -> Step {
        let rest = CheckpointModel { work: None, ..self };
        match output {
            WorkOutput::Directory => CheckpointModel { directory: true, ..rest }.ended(true),
            WorkOutput::Index => CheckpointModel { files: self.files + 1, ..rest }.ended(true),
            WorkOutput::Log(material) => CheckpointModel {
                files: self.files + 1,
                next_page: (self.next_page + 1) as u64,
                manifest: ManifestModel {
                    materials: self.manifest.materials.push(material),
                    ..self.manifest
                },
                ..rest
            }.ended(true),
            WorkOutput::Published => CheckpointModel { published: true, ..rest }.ended(true),
            WorkOutput::BaseIndex => self.more(CheckpointCall::MatchRecovery),
        }
    }

    /// The log is frozen at `end`.
    pub open spec fn frozen_at(self, end: LogAddress) -> CheckpointModel {
        CheckpointModel {
            frozen: Some(end),
            manifest: ManifestModel { end, ..self.manifest },
            ..self
        }
    }

    /// What the frontiers of the frozen log make of the job.
    pub open spec fn measured(self, f: Frontiers) -> Step {
        let pages = self.end_page() - self.first_page();
        let measured = CheckpointModel {
            next_page: self.first_page(),
            manifest: ManifestModel {
                materials: ending_at(self.manifest.materials, self.manifest.end),
                ..self.manifest
            },
            ..self
        };
        if self.manifest.begin.0 < f.begin.0 {
            self.stopped(Err(Error::RangeTruncated))
        } else if pages > usize::MAX || pages + self.manifest.materials.len() > self.max_items {
            measured.stopped(Err(Error::CapacityExceeded))
        } else {
            measured.more(CheckpointCall::ReserveFiles { count: (pages + 1) as usize })
        }
    }

    /// What a failed call makes of the job.
    pub open spec fn next_failed(self, error: Error) -> Step {
        match self.call {
            CheckpointCall::WorkSubmit => self.stopped(retried(error)),
            CheckpointCall::LockSubmit => self.stopped(retried(error)),
            CheckpointCall::SnapshotIndex { .. } => self.stopped(retried(error)),
            CheckpointCall::Cuts => self.stopped(retried(error)),
            CheckpointCall::PadTail => self.stopped(retried(error)),
            CheckpointCall::AdvanceReadOnly { .. } => self.stopped(retried(error)),
            _ => self.stopped(Err(error)),
        }
    }

    /// What a reply makes of a job that copies the index or freezes the log.
    pub open spec fn next_preparing(self, reply: CheckpointReply, memory: Memory, r: Step) -> bool {
        match self.call {
            CheckpointCall::State => r == self.seen(reply->State_0),
            CheckpointCall::SnapshotBegin => r == self.more(
                CheckpointCall::SnapshotIndex { begin: reply->Frontiers_0.begin },
            ),
            CheckpointCall::SnapshotIndex { begin } => r == self.more(
                CheckpointCall::SnapshotEnd {
                    begin,
                    bytes: reply->bytes,
                    checksum: reply->checksum,
                },
            ),
            CheckpointCall::SnapshotEnd { begin, bytes, checksum } => {
                let end = reply->Frontiers_0.tail;
                r == CheckpointModel {
                    index: true,
                    manifest: ManifestModel {
                        begin,
                        replay_from: begin,
                        end,
                        materials: self.manifest.materials.push(
                            Material {
                                id: 0,
                                generation: Generation(0),
                                kind: MaterialKind::Index,
                                begin,
                                end,
                                bytes,
                                checksum,
                            },
                        ),
                        ..self.manifest
                    },
                    ..self
                }.more(CheckpointCall::LeaveSnapshot)
            },
            CheckpointCall::LeaveSnapshot => r == self.ended(true),
            CheckpointCall::StorageGate => match reply->Gate_0 {
                Gate::Held => r == self.ended(false),
                Gate::Poisoned => r == self.stopped(
                    Err(Error::InvalidState("background_log_progress_lock_poisoned")),
                ),
                Gate::Free => if self.frozen is None {
                    r == self.more(CheckpointCall::Cuts)
                } else {
                    r == self.more(CheckpointCall::ReadOnlyFrontiers)
                },
            },
            CheckpointCall::Cuts => if any_pending(reply->Cuts_0@) {
                r == self.ended(false)
            } else {
                r == CheckpointModel {
                    manifest: ManifestModel {
                        sessions: progress_of(reply->Cuts_0@),
                        ..self.manifest
                    },
                    ..self
                }.more(CheckpointCall::PadTail)
            },
            CheckpointCall::PadTail => r == self.frozen_at(reply->Tail_0).more(
                CheckpointCall::FrozenFrontiers,
            ),
            CheckpointCall::FrozenFrontiers => {
                let measured = self.measured(reply->Frontiers_0);
                let asks = measured.1 is Ok && self.first_page() < self.end_page();
                ||| r == measured && !(asks && memory is Refused)
                ||| asks && !(memory is Granted) && r == measured.0.stopped(Err(Error::OutOfMemory))
            },
            CheckpointCall::ReserveFiles { .. } => r == self.more(CheckpointCall::ReadOnlyFrontiers),
            CheckpointCall::ReadOnlyFrontiers => {
                let f = reply->Frontiers_0;
                let end = self.frozen->0;
                if f.safe_read_only.0 < end.0 {
                    r == self.more(
                        CheckpointCall::AdvanceReadOnly {
                            to: if end.0 < f.read_only.0 {
                                f.read_only
                            } else {
                                end
                            },
                        },
                    )
                } else {
                    r == self.more(CheckpointCall::FlushedFrontiers)
                }
            },
            CheckpointCall::AdvanceReadOnly { .. } => r == self.more(
                CheckpointCall::FlushedFrontiers,
            ),
            _ => if reply->Frontiers_0.flushed_until.0 < (self.frozen->0).0 {
                r == self.ended(false)
            } else {
                r == self.locked()
            },
        }
    }

    /// Whether the call copies the index or freezes the log.
    pub open spec fn is_preparing(self) -> bool {
        match self.call {
            CheckpointCall::State => true,
            CheckpointCall::SnapshotBegin => true,
            CheckpointCall::SnapshotIndex { .. } => true,
            CheckpointCall::SnapshotEnd { .. } => true,
            CheckpointCall::LeaveSnapshot => true,
            CheckpointCall::StorageGate => true,
            CheckpointCall::Cuts => true,
            CheckpointCall::PadTail => true,
            CheckpointCall::FrozenFrontiers => true,
            CheckpointCall::ReserveFiles { .. } => true,
            CheckpointCall::ReadOnlyFrontiers => true,
            CheckpointCall::AdvanceReadOnly { .. } => true,
            CheckpointCall::FlushedFrontiers => true,
            _ => false,
        }
    }

    /// What a reply makes of a job that writes and publishes.
    pub open spec fn next_writing(self, reply: CheckpointReply) -> Step {
        match self.call {
            CheckpointCall::WorkTake => self.more(CheckpointCall::WorkOutput),
            CheckpointCall::WorkOutput => match reply->Output_0 {
                Some(output) => self.worked(output),
                None => self.more(CheckpointCall::WorkSubmit),
            },
            CheckpointCall::WorkSubmit => self.ended(reply->Flag_0),
            CheckpointCall::MatchRecovery => CheckpointModel {
                work: None,
                base_validated: true,
                ..self
            }.ended(true),
            CheckpointCall::NewLock => CheckpointModel { locking: true, ..self }.more(
                CheckpointCall::LockHeld,
            ),
            CheckpointCall::LockHeld => if reply->Flag_0 {
                self.writing()
            } else {
                self.more(CheckpointCall::LockTake)
            },
            CheckpointCall::LockTake => if reply->Flag_0 {
                self.ended(true)
            } else {
                self.more(CheckpointCall::LockSubmit)
            },
            CheckpointCall::LockSubmit => self.ended(reply->Flag_0),
            CheckpointCall::NewDirectory => self.working(Work::Directory),
            CheckpointCall::NewIndexWrite => self.working(Work::Index),
            CheckpointCall::NewLogWrite => self.working(Work::Log),
            CheckpointCall::NewBaseRead => self.working(Work::BaseIndex),
            CheckpointCall::NewPublish => self.more(CheckpointCall::LeaveFlush),
            CheckpointCall::LeaveFlush => self.working(Work::Publish),
            CheckpointCall::LockClosed => if reply->Flag_0 {
                self.more(CheckpointCall::RecordCommitted)
            } else {
                self.more(CheckpointCall::ReleaseLock)
            },
            CheckpointCall::ReleaseLock => self.more(CheckpointCall::LockTake),
            CheckpointCall::RecordCommitted => self.more(CheckpointCall::FinishAction),
            CheckpointCall::FinishAction => self.more(CheckpointCall::Report),
            _ => CheckpointModel { finished: true, ..self }.ended(true),
        }
    }

    pub open spec fn next(
        self,
        reply: Result<CheckpointReply, Error>,
        memory: Memory,
        r: Step,
    ) -> bool {
        match reply {
            Err(error) => r == self.next_failed(error),
            Ok(reply) => if self.is_preparing() {
                self.next_preparing(reply, memory, r)
            } else {
                r == self.next_writing(reply)
            },
        }
    }

    /// Whether `reply` is one that the call can get.
    pub open spec fn admits(self, reply: CheckpointReply) -> bool {
        match self.call {
            CheckpointCall::Idle => false,
            // The phase of the snapshot comes once and first, and nothing is flushed after the end.
            CheckpointCall::State => reply is State && (reply->State_0.phase == Phase::IndexSnapshot
                ==> self.work is Some || (self.manifest.materials.len() == 0 && self.frozen is None
                && !self.published)) && (reply->State_0.phase == Phase::WaitFlush ==> self.work is Some
                || !self.published),
            CheckpointCall::WorkOutput => reply is Output && (reply->Output_0 matches Some(output)
                ==> output.of(self.work->0)),
            CheckpointCall::WorkSubmit => reply is Flag,
            CheckpointCall::SnapshotBegin => reply is Frontiers,
            CheckpointCall::SnapshotIndex { .. } => reply is Snapshot,
            CheckpointCall::SnapshotEnd { .. } => reply is Frontiers,
            CheckpointCall::StorageGate => reply is Gate,
            CheckpointCall::Cuts => reply is Cuts,
            // The log does not end before it begins.
            CheckpointCall::PadTail => reply matches CheckpointReply::Tail(end) && end.0
                >= self.manifest.begin.0,
            CheckpointCall::FrozenFrontiers => reply is Frontiers,
            CheckpointCall::ReadOnlyFrontiers => reply is Frontiers,
            CheckpointCall::FlushedFrontiers => reply is Frontiers,
            CheckpointCall::LockHeld => reply is Flag,
            CheckpointCall::LockTake => reply is Flag,
            CheckpointCall::LockSubmit => reply is Flag,
            CheckpointCall::LockClosed => reply is Flag,
            _ => reply is Done,
        }
    }

    /// Whether the publication has begun.
    pub open spec fn publishing(self) -> bool {
        self.call is NewPublish || self.call is LeaveFlush || self.work == Some(Work::Publish)
            || self.published
    }

    /// How many materials have no file yet: the copied index.
    pub open spec fn unwritten(self) -> nat {
        if self.index || self.call is NewIndexWrite || self.work == Some(Work::Index) {
            1
        } else {
            0
        }
    }

    /// A checkpoint that has done nothing yet.
    pub open spec fn starting(
        id: MaintenanceId,
        mailbox: RequestId,
        manifest: ManifestModel,
        chunk: u64,
        max_items: usize,
    ) -> CheckpointModel {
        CheckpointModel {
            id,
            mailbox,
            manifest,
            chunk,
            max_items,
            call: CheckpointCall::Idle,
            index: false,
            frozen: None,
            next_page: 0,
            directory: false,
            files: 0,
            work: None,
            published: false,
            finished: false,
            failed: false,
            locking: false,
            base_validated: false,
        }
    }

    /// What holds of every job that did not fail. Until the publication every material but the copied
    /// index has its file, and a frozen log leaves room in the manifest for all of its pages.
    pub open spec fn sound(self) -> bool {
        &&& self.chunk > 0
        &&& self.max_items < usize::MAX
        &&& self.frozen matches Some(end) ==> self.manifest.end == end && self.manifest.begin.0
            <= end.0
        &&& self.holds_log() && self.next_page > 0 ==> self.frozen is Some || self.call
            is FrozenFrontiers
        &&& !self.publishing() ==> self.files + self.unwritten() == self.manifest.materials.len()
        &&& self.frozen is Some && !(self.call is FrozenFrontiers) ==> {
            &&& self.first_page() <= self.next_page <= self.end_page()
            &&& self.manifest.materials.len() + (self.end_page() - self.next_page)
                <= self.max_items
        }
        &&& self.frozen is None ==> self.manifest.materials.len() <= 1
        &&& self.index ==> self.manifest.materials.len() > 0 && !self.publishing() && self.work
            != Some(Work::Index) && !(self.call is NewIndexWrite)
        &&& self.published ==> self.locking && self.work is None
        &&& self.work is Some ==> self.locking
        &&& self.work == Some(Work::Log) ==> self.holds_log() && self.frozen is Some
            && self.next_page < self.end_page()
        &&& self.call_fits()
    }

    pub open spec fn call_fits(self) -> bool {
        let before = self.work is None && !self.published;
        let freezing = before && self.holds_log();
        let writing = before && self.locking && (self.holds_log() ==> self.frozen is Some);
        match self.call {
            CheckpointCall::WorkTake => self.work is Some,
            CheckpointCall::WorkOutput => self.work is Some,
            CheckpointCall::WorkSubmit => self.work is Some,
            CheckpointCall::MatchRecovery => self.work == Some(Work::BaseIndex),
            CheckpointCall::SnapshotBegin => before && self.manifest.materials.len() == 0
                && self.frozen is None,
            CheckpointCall::SnapshotIndex { .. } => before && self.manifest.materials.len() == 0
                && self.frozen is None,
            CheckpointCall::SnapshotEnd { .. } => before && self.manifest.materials.len() == 0
                && self.frozen is None,
            CheckpointCall::StorageGate => freezing,
            CheckpointCall::Cuts => freezing && self.frozen is None,
            CheckpointCall::PadTail => freezing && self.frozen is None,
            CheckpointCall::FrozenFrontiers => freezing && self.frozen is Some,
            CheckpointCall::ReserveFiles { .. } => freezing && self.frozen is Some,
            CheckpointCall::ReadOnlyFrontiers => freezing && self.frozen is Some,
            CheckpointCall::AdvanceReadOnly { .. } => freezing && self.frozen is Some,
            CheckpointCall::FlushedFrontiers => freezing && self.frozen is Some,
            CheckpointCall::NewLock => before && (self.holds_log() ==> self.frozen is Some),
            CheckpointCall::LockHeld => writing,
            CheckpointCall::NewDirectory => writing,
            CheckpointCall::NewIndexWrite => writing && self.manifest.materials.len() > 0,
            CheckpointCall::NewLogWrite => writing && self.holds_log() && self.next_page
                < self.end_page(),
            CheckpointCall::NewBaseRead => writing,
            CheckpointCall::NewPublish => writing,
            CheckpointCall::LeaveFlush => writing,
            CheckpointCall::LockClosed => self.published,
            CheckpointCall::ReleaseLock => self.published,
            CheckpointCall::RecordCommitted => self.published,
            CheckpointCall::FinishAction => self.published,
            CheckpointCall::Report => self.published,
            _ => true,
        }
    }
}

proof fn lemma_sound_preparing(job: CheckpointModel, reply: CheckpointReply, memory: Memory, r: Step)
    requires
        job.sound(),
        job.is_preparing(),
        job.admits(reply),
        job.next_preparing(reply, memory, r),
        r.1 is Ok,
    ensures
        r.0.sound(),
{
    match job.call {
        CheckpointCall::State => {
            assert(r.0.sound());
        },
        CheckpointCall::SnapshotEnd { .. } => {
            assert(r.0.sound());
        },
        CheckpointCall::FrozenFrontiers => {
            vstd::arithmetic::div_mod::lemma_div_is_ordered(
                job.manifest.begin.0 as int,
                job.manifest.end.0 as int,
                job.chunk as int,
            );
            assert(r.0.sound());
        },
        _ => {
            assert(r.0.sound());
        },
    }
}

proof fn lemma_sound_writing(job: CheckpointModel, reply: CheckpointReply)
    requires
        job.sound(),
        !job.is_preparing(),
        job.call != CheckpointCall::Idle,
        job.admits(reply),
    ensures
        job.next_writing(reply).0.sound(),
{
    match job.call {
        CheckpointCall::WorkOutput => {
            assert(job.next_writing(reply).0.sound());
        },
        CheckpointCall::LockHeld => {
            assert(job.next_writing(reply).0.sound());
        },
        _ => {
            assert(job.next_writing(reply).0.sound());
        },
    }
}

/// Every reply that does not end a checkpoint in an error keeps it sound.
pub proof fn law_sound(
    job: CheckpointModel,
    reply: Result<CheckpointReply, Error>,
    memory: Memory,
    r: Step,
)
    requires
        job.sound(),
        job.call != CheckpointCall::Idle,
        reply matches Ok(reply) ==> job.admits(reply),
        job.next(reply, memory, r),
        r.1 is Ok,
    ensures
        r.0.sound(),
{
    if let Ok(given) = reply {
        if job.is_preparing() {
            lemma_sound_preparing(job, given, memory, r);
        } else {
            lemma_sound_writing(job, given);
        }
    }
}

/// A manifest is published only when everything that it names is written: each material has its file,
/// each page of the frozen log is one of them, and a checkpoint of the log alone has an index that
/// was found to fit.
pub proof fn law_published_when_written(job: CheckpointModel, reply: CheckpointReply)
    requires
        job.sound(),
        job.call is LockHeld,
        job.admits(reply),
        job.next_writing(reply).0.call is NewPublish,
    ensures
        job.directory,
        job.files == job.manifest.materials.len(),
        job.holds_log() ==> job.frozen == Some(job.manifest.end) && job.next_page == job.end_page(),
        job.manifest.kind == CheckpointKind::Log ==> job.base_validated,
{
}

/// Nothing is written before the log is flushed to its frozen end: the lock of the catalogue is asked
/// for only then.
pub proof fn law_flushed_before_written(job: CheckpointModel, reply: CheckpointReply, r: Step)
    requires
        job.sound(),
        job.call is FlushedFrontiers,
        job.admits(reply),
        job.next_preparing(reply, Memory::Granted, r),
        r.0.call is NewLock || r.0.call is LockHeld,
    ensures
        reply->Frontiers_0.flushed_until.0 >= (job.frozen->0).0,
        job.manifest.end == job.frozen->0,
{
}

/// Success is reported only after the manifest was published and the lock given back.
pub proof fn law_reported_when_published(
    job: CheckpointModel,
    reply: Result<CheckpointReply, Error>,
    memory: Memory,
    r: Step,
)
    requires
        job.sound(),
        job.call != CheckpointCall::Idle,
        reply matches Ok(reply) ==> job.admits(reply),
        job.next(reply, memory, r),
        r.0.finished,
        !job.finished,
    ensures
        job.published,
        job.call is Report,
        reply is Ok,
{
}

/// A checkpoint promises the progress of sessions only if it holds the log, and only what they had
/// accepted when none of them had a request of the old version left. One of the index alone promises
/// nothing of them. What it is and what it builds on never changes.
pub proof fn law_sessions_are_settled(
    job: CheckpointModel,
    reply: Result<CheckpointReply, Error>,
    memory: Memory,
    r: Step,
)
    requires
        job.sound(),
        job.call != CheckpointCall::Idle,
        reply matches Ok(reply) ==> job.admits(reply),
        job.next(reply, memory, r),
    ensures
        r.0.manifest.kind == job.manifest.kind,
        r.0.manifest.token == job.manifest.token,
        r.0.manifest.base_index == job.manifest.base_index,
        job.manifest.kind == CheckpointKind::Index ==> r.0.manifest.sessions
            == job.manifest.sessions,
        r.0.manifest.sessions != job.manifest.sessions ==> {
            &&& reply matches Ok(CheckpointReply::Cuts(cuts))
            &&& !any_pending(cuts@)
            &&& r.0.manifest.sessions == progress_of(cuts@)
        },
{
}

pub struct CheckpointJob {
    pub id: MaintenanceId,
    pub mailbox: RequestId,
    pub manifest: Manifest,
    pub chunk: u64,
    pub max_items: usize,
    pub call: CheckpointCall,
    pub index: bool,
    pub frozen: Option<LogAddress>,
    pub next_page: u64,
    pub directory: bool,
    pub files: usize,
    pub work: Option<Work>,
    pub published: bool,
    pub finished: bool,
    pub failed: bool,
    pub locking: bool,
    pub base_validated: bool,
}

impl CheckpointJob {
    pub open spec fn view(self) -> CheckpointModel {
        CheckpointModel {
            id: self.id,
            mailbox: self.mailbox,
            manifest: self.manifest@,
            chunk: self.chunk,
            max_items: self.max_items,
            call: self.call,
            index: self.index,
            frozen: self.frozen,
            next_page: self.next_page,
            directory: self.directory,
            files: self.files as nat,
            work: self.work,
            published: self.published,
            finished: self.finished,
            failed: self.failed,
            locking: self.locking,
            base_validated: self.base_validated,
        }
    }

    /// A checkpoint that starts, with an empty manifest.
    pub fn new(
        id: MaintenanceId,
        mailbox: RequestId,
        manifest: Manifest,
        chunk: u64,
        max_items: usize,
    ) -> (r: CheckpointJob)
        requires
            chunk > 0,
            max_items < usize::MAX,
            manifest.materials@.len() == 0,
        ensures
            r@.sound(),
            r@ == CheckpointModel::starting(id, mailbox, manifest@, chunk, max_items),
    {
        CheckpointJob {
            id,
            mailbox,
            manifest,
            chunk,
            max_items,
            call: CheckpointCall::Idle,
            index: false,
            frozen: None,
            next_page: 0,
            directory: false,
            files: 0,
            work: None,
            published: false,
            finished: false,
            failed: false,
            locking: false,
            base_validated: false,
        }
    }

    /// Starts a step.
    pub fn begin(&mut self)
        requires
            old(self)@.sound(),
            old(self)@.call is Idle,
        ensures
            final(self)@.sound(),
            final(self)@ == (CheckpointModel { call: CheckpointCall::State, ..old(self)@ }),
    {
        self.call = CheckpointCall::State;
    }

    fn ask(&mut self, call: CheckpointCall) -> (r: Result<Flow, Error>)
        ensures
            (final(self)@, r) == old(self)@.more(call),
    {
        self.call = call;
        Ok(Flow::More)
    }

    fn holds_log(&self) -> (r: bool)
        ensures
            r == self@.holds_log(),
    {
        match self.manifest.kind {
            CheckpointKind::Index => false,
            _ => true,
        }
    }

    fn go_to_lock(&mut self) -> (r: Result<Flow, Error>)
        ensures
            (final(self)@, r) == old(self)@.locked(),
    {
        if self.locking {
            self.ask(CheckpointCall::LockHeld)
        } else {
            self.ask(CheckpointCall::NewLock)
        }
    }

    fn see(&mut self, state: CoordinatorState) -> (r: Result<Flow, Error>)
        ensures
            (final(self)@, r) == old(self)@.seen(state),
    {
        self.call = CheckpointCall::Idle;
        let current = match state.id {
            Some(id) => id == self.id,
            None => false,
        };
        if !current || state.phase == Phase::Failed {
            return Err(Error::InvalidState("Checkpoint action has expired"));
        }
        if self.work.is_some() {
            return self.ask(CheckpointCall::WorkTake);
        }
        match state.phase {
            Phase::IndexSnapshot => self.ask(CheckpointCall::SnapshotBegin),
            Phase::WaitFlush => {
                if self.holds_log() {
                    self.ask(CheckpointCall::StorageGate)
                } else {
                    self.go_to_lock()
                }
            },
            Phase::Publish => {
                if self.published {
                    self.ask(CheckpointCall::LockClosed)
                } else {
                    Ok(Flow::Ended(false))
                }
            },
            _ => Ok(Flow::Ended(false)),
        }
    }

    /// Chooses what is written next.
    fn write_next(&mut self) -> (r: Result<Flow, Error>)
        requires
            old(self)@.chunk > 0,
        ensures
            (final(self)@, r) == old(self)@.writing(),
    {
        if !self.directory {
            return self.ask(CheckpointCall::NewDirectory);
        }
        if self.index {
            self.index = false;
            return self.ask(CheckpointCall::NewIndexWrite);
        }
        if self.holds_log() && self.next_page < self.manifest.end.0 / self.chunk {
            return self.ask(CheckpointCall::NewLogWrite);
        }
        if self.manifest.kind == CheckpointKind::Log && !self.base_validated {
            return self.ask(CheckpointCall::NewBaseRead);
        }
        self.directory = false;
        self.files = 0;
        self.ask(CheckpointCall::NewPublish)
    }

    fn take_output(&mut self, output: WorkOutput) -> (r: Result<Flow, Error>)
        requires
            old(self)@.sound(),
            old(self)@.call is WorkOutput,
            output.of(old(self)@.work->0),
        ensures
            (final(self)@, r) == old(self)@.worked(output),
    {
        self.call = CheckpointCall::Idle;
        match output {
            WorkOutput::BaseIndex => {
                return self.ask(CheckpointCall::MatchRecovery);
            },
            WorkOutput::Directory => {
                self.directory = true;
            },
            WorkOutput::Index => {
                self.files = self.files + 1;
            },
            WorkOutput::Log(material) => {
                self.files = self.files + 1;
                self.manifest.materials.push(material);
                self.next_page = self.next_page + 1;
            },
            WorkOutput::Published => {
                self.published = true;
            },
        }
        self.work = None;
        assert(self@ =~= old(self)@.worked(output).0);
        Ok(Flow::Ended(true))
    }

    /// Takes what the sessions accepted.
    fn take_cuts(&mut self, cuts: &Vec<SessionCut>) -> (r: Result<Flow, Error>)
        requires
            old(self)@.call is Cuts,
        ensures
            (final(self)@, r) == (if any_pending(cuts@) {
                old(self)@.ended(false)
            } else {
                CheckpointModel {
                    manifest: ManifestModel {
                        sessions: progress_of(cuts@),
                        ..old(self)@.manifest
                    },
                    ..old(self)@
                }.more(CheckpointCall::PadTail)
            }),
    {
        self.call = CheckpointCall::Idle;
        let mut sessions: Vec<(SessionId, Serial)> = Vec::new();
        let mut i: usize = 0;
        assert(cuts@.take(0) =~= Seq::<SessionCut>::empty());
        while i < cuts.len()
            invariant
                i <= cuts@.len(),
                sessions@ == progress_of(cuts@.take(i as int)),
                forall|j: int| 0 <= j < i ==> (#[trigger] cuts@[j]).old_pending == 0,
                self@ == old(self)@.ended(false).0,
            decreases cuts@.len() - i,
        {
            if cuts[i].old_pending != 0 {
                assert(cuts@[i as int].old_pending != 0);
                return Ok(Flow::Ended(false));
            }
            assert(cuts@.take(i + 1).drop_last() =~= cuts@.take(i as int));
            if let Some(serial) = cuts[i].last_accepted {
                sessions.push((cuts[i].session, serial));
            }
            i += 1;
        }
        assert(cuts@.take(i as int) =~= cuts@);
        self.manifest.session_progress = sessions;
        self.ask(CheckpointCall::PadTail)
    }

    /// Gives all materials the end of the frozen log.
    fn end_materials(&mut self)
        ensures
            final(self)@ == (CheckpointModel {
                manifest: ManifestModel {
                    materials: ending_at(old(self)@.manifest.materials, old(self)@.manifest.end),
                    ..old(self)@.manifest
                },
                ..old(self)@
            }),
    {
        let end = self.manifest.end;
        let mut i: usize = 0;
        while i < self.manifest.materials.len()
            invariant
                i <= self.manifest.materials@.len(),
                self.manifest.materials@.len() == old(self).manifest.materials@.len(),
                end == old(self).manifest.end,
                self@ == (CheckpointModel {
                    manifest: ManifestModel {
                        materials: self.manifest.materials@,
                        ..old(self)@.manifest
                    },
                    ..old(self)@
                }),
                forall|j: int|
                    0 <= j < self.manifest.materials@.len() ==> #[trigger] self.manifest.materials@[j]
                        == (if j < i {
                        Material { end, ..old(self).manifest.materials@[j] }
                    } else {
                        old(self).manifest.materials@[j]
                    }),
            decreases self.manifest.materials@.len() - i,
        {
            let m = self.manifest.materials[i];
            self.manifest.materials.set(
                i,
                Material {
                    id: m.id,
                    generation: m.generation,
                    kind: m.kind,
                    begin: m.begin,
                    end,
                    bytes: m.bytes,
                    checksum: m.checksum,
                },
            );
            i += 1;
        }
        assert(self.manifest.materials@ =~= ending_at(old(self).manifest.materials@, end));
    }

    /// Measures the frozen log.
    fn measure(&mut self, f: Frontiers, memory: Memory) -> (r: Result<Flow, Error>)
        requires
            old(self)@.sound(),
            old(self)@.call is FrozenFrontiers,
        ensures
            ({
                let measured = old(self)@.measured(f);
                let asks = measured.1 is Ok && old(self)@.first_page() < old(self)@.end_page();
                ||| (final(self)@, r) == measured && !(asks && memory is Refused)
                ||| asks && !(memory is Granted) && (final(self)@, r) == measured.0.stopped(
                    Err(Error::OutOfMemory),
                )
            }),
    {
        self.call = CheckpointCall::Idle;
        if self.manifest.begin.0 < f.begin.0 {
            return Err(Error::RangeTruncated);
        }
        proof {
            vstd::arithmetic::div_mod::lemma_div_is_ordered(
                self.manifest.begin.0 as int,
                self.manifest.end.0 as int,
                self.chunk as int,
            );
        }
        self.end_materials();
        self.next_page = self.manifest.begin.0 / self.chunk;
        let pages = self.manifest.end.0 / self.chunk - self.next_page;
        if pages > usize::MAX as u64 {
            return Err(Error::CapacityExceeded);
        }
        let count = pages as usize;
        let fits = match count.checked_add(self.manifest.materials.len()) {
            Some(total) => total <= self.max_items,
            None => false,
        };
        if !fits {
            return Err(Error::CapacityExceeded);
        }
        if !reserve(&mut self.manifest.materials, count, memory) {
            return Err(Error::OutOfMemory);
        }
        self.ask(CheckpointCall::ReserveFiles { count: count + 1 })
    }

    fn accept_preparing(&mut self, reply: CheckpointReply, memory: Memory) -> (r: Result<Flow, Error>)
        requires
            old(self)@.sound(),
            old(self)@.is_preparing(),
            old(self)@.admits(reply),
        ensures
            old(self)@.next_preparing(reply, memory, (final(self)@, r)),
    {
        match self.call {
            CheckpointCall::State => match reply {
                CheckpointReply::State(state) => self.see(state),
                _ => Ok(Flow::Ended(false)),
            },
            CheckpointCall::SnapshotBegin => match reply {
                CheckpointReply::Frontiers(f) => self.ask(
                    CheckpointCall::SnapshotIndex { begin: f.begin },
                ),
                _ => Ok(Flow::Ended(false)),
            },
            CheckpointCall::SnapshotIndex { begin } => match reply {
                CheckpointReply::Snapshot { bytes, checksum } => self.ask(
                    CheckpointCall::SnapshotEnd { begin, bytes, checksum },
                ),
                _ => Ok(Flow::Ended(false)),
            },
            CheckpointCall::SnapshotEnd { begin, bytes, checksum } => match reply {
                CheckpointReply::Frontiers(f) => {
                    self.manifest.begin = begin;
                    self.manifest.replay_from = begin;
                    self.manifest.end = f.tail;
                    self.manifest.materials.push(
                        Material {
                            id: 0,
                            generation: Generation(0),
                            kind: MaterialKind::Index,
                            begin,
                            end: f.tail,
                            bytes,
                            checksum,
                        },
                    );
                    self.index = true;
                    self.ask(CheckpointCall::LeaveSnapshot)
                },
                _ => Ok(Flow::Ended(false)),
            },
            CheckpointCall::LeaveSnapshot => {
                self.call = CheckpointCall::Idle;
                Ok(Flow::Ended(true))
            },
            CheckpointCall::StorageGate => {
                self.call = CheckpointCall::Idle;
                match reply {
                    CheckpointReply::Gate(Gate::Poisoned) => Err(
                        Error::InvalidState("background_log_progress_lock_poisoned"),
                    ),
                    CheckpointReply::Gate(Gate::Free) => {
                        if self.frozen.is_none() {
                            self.ask(CheckpointCall::Cuts)
                        } else {
                            self.ask(CheckpointCall::ReadOnlyFrontiers)
                        }
                    },
                    _ => Ok(Flow::Ended(false)),
                }
            },
            CheckpointCall::Cuts => match reply {
                CheckpointReply::Cuts(cuts) => self.take_cuts(&cuts),
                _ => Ok(Flow::Ended(false)),
            },
            CheckpointCall::PadTail => match reply {
                CheckpointReply::Tail(end) => {
                    self.frozen = Some(end);
                    self.manifest.end = end;
                    self.ask(CheckpointCall::FrozenFrontiers)
                },
                _ => Ok(Flow::Ended(false)),
            },
            CheckpointCall::FrozenFrontiers => match reply {
                CheckpointReply::Frontiers(f) => self.measure(f, memory),
                _ => Ok(Flow::Ended(false)),
            },
            CheckpointCall::ReserveFiles { .. } => self.ask(CheckpointCall::ReadOnlyFrontiers),
            CheckpointCall::ReadOnlyFrontiers => match reply {
                CheckpointReply::Frontiers(f) => self.advance_read_only(f),
                _ => Ok(Flow::Ended(false)),
            },
            CheckpointCall::AdvanceReadOnly { .. } => self.ask(CheckpointCall::FlushedFrontiers),
            _ => match reply {
                CheckpointReply::Frontiers(f) => self.check_flushed(f),
                _ => Ok(Flow::Ended(false)),
            },
        }
    }

    fn advance_read_only(&mut self, f: Frontiers) -> (r: Result<Flow, Error>)
        requires
            old(self)@.frozen is Some,
        ensures
            (final(self)@, r) == (if f.safe_read_only.0 < (old(self)@.frozen->0).0 {
                old(self)@.more(
                    CheckpointCall::AdvanceReadOnly {
                        to: if (old(self)@.frozen->0).0 < f.read_only.0 {
                            f.read_only
                        } else {
                            old(self)@.frozen->0
                        },
                    },
                )
            } else {
                old(self)@.more(CheckpointCall::FlushedFrontiers)
            }),
    {
        let end = match self.frozen {
            Some(end) => end,
            None => f.tail,
        };
        if f.safe_read_only.0 < end.0 {
            let to = if end.0 < f.read_only.0 {
                f.read_only
            } else {
                end
            };
            self.ask(CheckpointCall::AdvanceReadOnly { to })
        } else {
            self.ask(CheckpointCall::FlushedFrontiers)
        }
    }

    fn check_flushed(&mut self, f: Frontiers) -> (r: Result<Flow, Error>)
        requires
            old(self)@.frozen is Some,
        ensures
            (final(self)@, r) == (if f.flushed_until.0 < (old(self)@.frozen->0).0 {
                old(self)@.ended(false)
            } else {
                old(self)@.locked()
            }),
    {
        let end = match self.frozen {
            Some(end) => end,
            None => f.tail,
        };
        if f.flushed_until.0 < end.0 {
            self.call = CheckpointCall::Idle;
            return Ok(Flow::Ended(false));
        }
        self.go_to_lock()
    }

    fn start_work(&mut self, work: Work) -> (r: Result<Flow, Error>)
        ensures
            (final(self)@, r) == old(self)@.working(work),
    {
        self.call = CheckpointCall::Idle;
        self.work = Some(work);
        Ok(Flow::Ended(true))
    }

    fn accept_writing(&mut self, reply: CheckpointReply) -> (r: Result<Flow, Error>)
        requires
            old(self)@.sound(),
            !old(self)@.is_preparing(),
            old(self)@.admits(reply),
        ensures
            (final(self)@, r) == old(self)@.next_writing(reply),
    {
        let flag = match &reply {
            CheckpointReply::Flag(flag) => *flag,
            _ => false,
        };
        match self.call {
            CheckpointCall::WorkTake => self.ask(CheckpointCall::WorkOutput),
            CheckpointCall::WorkOutput => match reply {
                CheckpointReply::Output(Some(output)) => self.take_output(output),
                _ => self.ask(CheckpointCall::WorkSubmit),
            },
            CheckpointCall::WorkSubmit | CheckpointCall::LockSubmit => {
                self.call = CheckpointCall::Idle;
                Ok(Flow::Ended(flag))
            },
            CheckpointCall::MatchRecovery => {
                self.call = CheckpointCall::Idle;
                self.work = None;
                self.base_validated = true;
                Ok(Flow::Ended(true))
            },
            CheckpointCall::NewLock => {
                self.locking = true;
                self.ask(CheckpointCall::LockHeld)
            },
            CheckpointCall::LockHeld => {
                if flag {
                    self.write_next()
                } else {
                    self.ask(CheckpointCall::LockTake)
                }
            },
            CheckpointCall::LockTake => {
                if flag {
                    self.call = CheckpointCall::Idle;
                    Ok(Flow::Ended(true))
                } else {
                    self.ask(CheckpointCall::LockSubmit)
                }
            },
            CheckpointCall::NewDirectory => self.start_work(Work::Directory),
            CheckpointCall::NewIndexWrite => self.start_work(Work::Index),
            CheckpointCall::NewLogWrite => self.start_work(Work::Log),
            CheckpointCall::NewBaseRead => self.start_work(Work::BaseIndex),
            CheckpointCall::NewPublish => self.ask(CheckpointCall::LeaveFlush),
            CheckpointCall::LeaveFlush => self.start_work(Work::Publish),
            CheckpointCall::LockClosed => {
                if flag {
                    self.ask(CheckpointCall::RecordCommitted)
                } else {
                    self.ask(CheckpointCall::ReleaseLock)
                }
            },
            CheckpointCall::ReleaseLock => self.ask(CheckpointCall::LockTake),
            CheckpointCall::RecordCommitted => self.ask(CheckpointCall::FinishAction),
            CheckpointCall::FinishAction => self.ask(CheckpointCall::Report),
            _ => {
                self.call = CheckpointCall::Idle;
                self.finished = true;
                Ok(Flow::Ended(true))
            },
        }
    }

    /// Takes the reply to the call of the step.
    pub fn accept(&mut self, reply: Result<CheckpointReply, Error>, memory: Memory) -> (r: Result<
        Flow,
        Error,
    >)
        requires
            old(self)@.sound(),
            old(self)@.call != CheckpointCall::Idle,
            reply matches Ok(reply) ==> old(self)@.admits(reply),
        ensures
            old(self)@.next(reply, memory, (final(self)@, r)),
            r is Ok ==> final(self)@.sound(),
    {
        let ghost before = self@;
        let ghost given = reply;
        let r = match reply {
            Err(error) => {
                let call = self.call;
                self.call = CheckpointCall::Idle;
                match call {
                    CheckpointCall::WorkSubmit | CheckpointCall::LockSubmit
                    | CheckpointCall::SnapshotIndex { .. } | CheckpointCall::Cuts
                    | CheckpointCall::PadTail | CheckpointCall::AdvanceReadOnly { .. } => {
                        retry(error)
                    },
                    _ => Err(error),
                }
            },
            Ok(reply) => match self.call {
                CheckpointCall::State | CheckpointCall::SnapshotBegin
                | CheckpointCall::SnapshotIndex { .. } | CheckpointCall::SnapshotEnd { .. }
                | CheckpointCall::LeaveSnapshot | CheckpointCall::StorageGate
                | CheckpointCall::Cuts | CheckpointCall::PadTail | CheckpointCall::FrozenFrontiers
                | CheckpointCall::ReserveFiles { .. } | CheckpointCall::ReadOnlyFrontiers
                | CheckpointCall::AdvanceReadOnly { .. } | CheckpointCall::FlushedFrontiers => {
                    self.accept_preparing(reply, memory)
                },
                _ => self.accept_writing(reply),
            },
        };
        proof {
            if r is Ok {
                law_sound(before, given, memory, (self@, r));
            }
        }
        r
    }

    /// The number of the material that holds the next page.
    pub fn material_id(&self) -> (r: Result<u64, Error>)
        ensures
            r == (if self@.next_page == u64::MAX {
                Err::<u64, Error>(Error::CapacityExceeded)
            } else {
                Ok::<u64, Error>((self@.next_page + 1) as u64)
            }),
    {
        match self.next_page.checked_add(1) {
            Some(id) => Ok(id),
            None => Err(Error::CapacityExceeded),
        }
    }

    /// The report of a checkpoint that is done.
    pub fn report(&self) -> (r: CheckpointReport)
        ensures
            r.kind == self@.manifest.kind,
            r.token == self@.manifest.token,
            r.version == self@.manifest.version,
            r.begin == self@.manifest.begin,
            r.end == self@.manifest.end,
            r.sessions@ == self@.manifest.sessions.map_values(
                |p: (SessionId, Serial)|
                    DurableProgress {
                        session: p.0,
                        serial: p.1,
                        version: self@.manifest.version,
                    },
            ),
    {
        let mut sessions: Vec<DurableProgress> = Vec::new();
        let mut i: usize = 0;
        while i < self.manifest.session_progress.len()
            invariant
                i <= self.manifest.session_progress@.len(),
                sessions@.len() == i,
                forall|j: int|
                    0 <= j < i ==> #[trigger] sessions@[j] == (DurableProgress {
                        session: self.manifest.session_progress@[j].0,
                        serial: self.manifest.session_progress@[j].1,
                        version: self.manifest.version,
                    }),
            decreases self.manifest.session_progress@.len() - i,
        {
            let (session, serial) = self.manifest.session_progress[i];
            sessions.push(DurableProgress { session, serial, version: self.manifest.version });
            i += 1;
        }
        assert(sessions@ =~= self@.manifest.sessions.map_values(
            |p: (SessionId, Serial)|
                DurableProgress { session: p.0, serial: p.1, version: self@.manifest.version },
        ));
        CheckpointReport {
            kind: self.manifest.kind,
            token: self.manifest.token,
            version: self.manifest.version,
            begin: self.manifest.begin,
            end: self.manifest.end,
            sessions,
        }
    }
}

proof fn lemma_progress_of(cuts: Seq<SessionCut>)
    ensures
        ({
            let told = cuts.filter(|c: SessionCut| c.last_accepted is Some);
            &&& progress_of(cuts).len() == told.len()
            &&& forall|k: int|
                0 <= k < told.len() ==> #[trigger] progress_of(cuts)[k] == (
                    told[k].session,
                    told[k].last_accepted->0,
                )
        }),
        forall|i: int, serial: Serial|
            0 <= i < cuts.len() && #[trigger] cuts[i].last_accepted == Some(serial)
                ==> #[trigger] progress_of(cuts).contains((cuts[i].session, serial)),
    decreases cuts.len(),
{
    reveal(Seq::filter);
    if cuts.len() > 0 {
        let before = cuts.drop_last();
        lemma_progress_of(before);
        let last = cuts.len() - 1;
        assert forall|i: int, serial: Serial|
            0 <= i < cuts.len() && #[trigger] cuts[i].last_accepted == Some(
                serial,
            ) implies #[trigger] progress_of(cuts).contains((cuts[i].session, serial)) by {
            let pair = (cuts[i].session, serial);
            if i < last {
                assert(before[i] == cuts[i]);
                assert(progress_of(before).contains(pair));
                let k = choose|k: int|
                    0 <= k < progress_of(before).len() && progress_of(before)[k] == pair;
                assert(progress_of(cuts)[k] == pair);
            } else {
                assert(progress_of(cuts)[progress_of(cuts).len() - 1] == pair);
            }
        }
    }
}

/// The progress that a checkpoint promises has one entry for each session that had accepted
/// something, in the order of the sessions' answers, and no other: the session and its last accepted
/// serial. It is taken only when no session has a request of the old version left; otherwise the step
/// waits and nothing changes.
pub proof fn law_progress_of_every_session(
    job: CheckpointModel,
    cuts: Vec<SessionCut>,
    memory: Memory,
    r: Step,
)
    requires
        job.call is Cuts,
        job.next(Ok(CheckpointReply::Cuts(cuts)), memory, r),
    ensures
        (exists|i: int| 0 <= i < cuts@.len() && (#[trigger] cuts@[i]).old_pending != 0) ==> r.1 == Ok::<
            Flow,
            Error,
        >(Flow::Ended(false)) && r.0 == (CheckpointModel { call: CheckpointCall::Idle, ..job }),
        (forall|i: int| 0 <= i < cuts@.len() ==> (#[trigger] cuts@[i]).old_pending == 0) ==> {
            let promised = r.0.manifest.sessions;
            let told = cuts@.filter(|c: SessionCut| c.last_accepted is Some);
            &&& r.1 == Ok::<Flow, Error>(Flow::More)
            &&& r.0.call is PadTail
            &&& promised.len() == told.len()
            &&& forall|k: int|
                0 <= k < told.len() ==> #[trigger] promised[k] == (
                    told[k].session,
                    told[k].last_accepted->0,
                )
            &&& forall|i: int, serial: Serial|
                0 <= i < cuts@.len() && #[trigger] cuts@[i].last_accepted == Some(serial)
                    ==> #[trigger] promised.contains((cuts@[i].session, serial))
        },
{
    lemma_progress_of(cuts@);
}

/// The report of a checkpoint gives the progress of every session that the manifest promises, in its
/// order, with the version of the checkpoint.
pub proof fn law_report_tells_the_progress(job: CheckpointJob, report: CheckpointReport, k: int)
    requires
        call_ensures(CheckpointJob::report, (&job,), report),
        0 <= k < job@.manifest.sessions.len(),
    ensures
        report.sessions@.len() == job@.manifest.sessions.len(),
        report.sessions@[k].session == job@.manifest.sessions[k].0,
        report.sessions@[k].serial == job@.manifest.sessions[k].1,
        report.sessions@[k].version == job@.manifest.version,
{
}

/// A step stops with an error when another action has taken the coordinator or the action failed.
/// Otherwise work that is under way goes on first, and then the phase says what is done: the index is
/// copied, the log is frozen and written, or what was published is finished.
pub proof fn law_phase_decides(
    job: CheckpointModel,
    state: CoordinatorState,
    memory: Memory,
    r: Step,
)
    requires
        job.call is State,
        job.next(Ok(CheckpointReply::State(state)), memory, r),
    ensures
        r.0 == (CheckpointModel { call: r.0.call, ..job }),
        r.1 is Err <==> state.id != Some(job.id) || state.phase == Phase::Failed,
        r.1 matches Err(error) ==> error == Error::InvalidState("Checkpoint action has expired"),
        r.1 is Ok && job.work is Some ==> r.0.call is WorkTake,
        r.1 is Ok && job.work is None ==> match state.phase {
            Phase::IndexSnapshot => r.0.call is SnapshotBegin,
            Phase::WaitFlush => if job.manifest.kind == CheckpointKind::Index {
                r.0.call == if job.locking {
                    CheckpointCall::LockHeld
                } else {
                    CheckpointCall::NewLock
                }
            } else {
                r.0.call is StorageGate
            },
            Phase::Publish => if job.published {
                r.0.call is LockClosed
            } else {
                r.0.call is Idle
            },
            _ => r.0.call is Idle,
        },
        r.1 is Ok ==> (if r.0.call is Idle {
            r.1->Ok_0 == Flow::Ended(false)
        } else {
            r.1->Ok_0 is More
        }),
{
}

/// The copied index becomes the first material: it covers the log from where it began before the copy
/// to where it ended after it, and a recovery replays the log from where it began.
pub proof fn law_index_is_bracketed(
    job: CheckpointModel,
    before: Frontiers,
    bytes: u64,
    checksum: u64,
    after: Frontiers,
    memory: Memory,
    copying: Step,
    copied: Step,
    measured: Step,
)
    requires
        job.call is SnapshotBegin,
        job.next(Ok(CheckpointReply::Frontiers(before)), memory, copying),
        copying.0.next(Ok(CheckpointReply::Snapshot { bytes, checksum }), memory, copied),
        copied.0.next(Ok(CheckpointReply::Frontiers(after)), memory, measured),
    ensures
        copying.0.call is SnapshotIndex,
        copied.0.call is SnapshotEnd,
        measured.0.call is LeaveSnapshot,
        copying.1 == Ok::<Flow, Error>(Flow::More),
        copied.1 == copying.1,
        measured.1 == copying.1,
        measured.0.index,
        measured.0.manifest.begin == before.begin,
        measured.0.manifest.replay_from == before.begin,
        measured.0.manifest.end == after.tail,
        measured.0.manifest.materials.drop_last() == job.manifest.materials,
        ({
            let material = measured.0.manifest.materials.last();
            &&& material.kind == MaterialKind::Index
            &&& material.id == 0
            &&& material.generation == Generation(0)
            &&& material.begin == before.begin
            &&& material.end == after.tail
            &&& material.bytes == bytes
            &&& material.checksum == checksum
        }),
{
}

/// The log is frozen where the padded tail ends, and nothing else changes. Freezing begins only while no
/// pages are being flushed.
pub proof fn law_tail_is_frozen(
    job: CheckpointModel,
    reply: CheckpointReply,
    memory: Memory,
    r: Step,
)
    requires
        job.call is StorageGate || job.call is PadTail,
        job.admits(reply),
        job.next(Ok(reply), memory, r),
    ensures
        reply is Tail ==> {
            &&& r.1 == Ok::<Flow, Error>(Flow::More)
            &&& r.0.call is FrozenFrontiers
            &&& r.0.frozen == Some(reply->Tail_0)
            &&& r.0.manifest == (ManifestModel { end: reply->Tail_0, ..job.manifest })
            &&& r.0 == (CheckpointModel {
                call: r.0.call,
                frozen: r.0.frozen,
                manifest: r.0.manifest,
                ..job
            })
        },
        reply is Gate ==> {
            &&& r.0 == (CheckpointModel { call: r.0.call, ..job })
            &&& match reply->Gate_0 {
                Gate::Held => r.1 == Ok::<Flow, Error>(Flow::Ended(false)) && r.0.call is Idle,
                Gate::Poisoned => r.1 == Err::<Flow, Error>(
                    Error::InvalidState("background_log_progress_lock_poisoned"),
                ) && r.0.call is Idle,
                Gate::Free => r.1 == Ok::<Flow, Error>(Flow::More) && (if job.frozen is None {
                    r.0.call is Cuts
                } else {
                    r.0.call is ReadOnlyFrontiers
                }),
            }
        },
{
}

/// After the freeze a log that was truncated past the begin of the checkpoint ends it, and so does one
/// with more pages than the manifest has room for. Otherwise the pages between begin and end are
/// written from the first one on, each material ends where the log was frozen, and room is made for
/// one file more than there are pages.
pub proof fn law_frozen_log_is_measured(
    job: CheckpointModel,
    f: Frontiers,
    r: Step,
)
    requires
        job.sound(),
        job.call is FrozenFrontiers,
        job.next(Ok(CheckpointReply::Frontiers(f)), Memory::Granted, r),
    ensures
        ({
            let first = job.manifest.begin.0 as int / job.chunk as int;
            let last = job.manifest.end.0 as int / job.chunk as int;
            let old_materials = job.manifest.materials;
            let truncated = job.manifest.begin.0 < f.begin.0;
            let crowded = last - first > usize::MAX || last - first + old_materials.len()
                > job.max_items;
            &&& r.1 is Err <==> truncated || crowded
            &&& (r.1 matches Err(error) ==> error == (if truncated {
                Error::RangeTruncated
            } else {
                Error::CapacityExceeded
            }))
            &&& truncated ==> r.0.manifest == job.manifest
            &&& !truncated ==> {
                &&& r.0.next_page == first
                &&& r.0.manifest.materials.len() == old_materials.len()
                &&& forall|k: int|
                    0 <= k < old_materials.len() ==> #[trigger] r.0.manifest.materials[k]
                        == (Material { end: job.manifest.end, ..old_materials[k] })
                &&& r.0.manifest == (ManifestModel {
                    materials: r.0.manifest.materials,
                    ..job.manifest
                })
            }
            &&& r.1 is Ok ==> r.0.call == (CheckpointCall::ReserveFiles {
                count: (last - first + 1) as usize,
            }) && r.1->Ok_0 is More
        }),
{
}

/// Before anything is written the whole frozen log is made read-only and flushed: the boundary is
/// moved to the frozen end, or left where it is already further, and while the flush has not reached
/// the end the step waits.
pub proof fn law_frozen_log_is_flushed(
    job: CheckpointModel,
    reply: CheckpointReply,
    memory: Memory,
    r: Step,
)
    requires
        job.call is ReserveFiles || job.call is ReadOnlyFrontiers || job.call is AdvanceReadOnly
            || job.call is FlushedFrontiers,
        job.frozen is Some,
        job.admits(reply),
        job.next(Ok(reply), memory, r),
    ensures
        r.1 is Ok,
        r.0 == (CheckpointModel { call: r.0.call, ..job }),
        job.call is ReserveFiles ==> r.0.call is ReadOnlyFrontiers,
        job.call is AdvanceReadOnly ==> r.0.call is FlushedFrontiers,
        job.call is ReadOnlyFrontiers ==> {
            let f = reply->Frontiers_0;
            let end = job.frozen->0;
            if f.safe_read_only.0 >= end.0 {
                r.0.call is FlushedFrontiers
            } else {
                &&& r.0.call is AdvanceReadOnly
                &&& r.0.call->to.0 >= end.0
                &&& r.0.call->to.0 >= f.read_only.0
                &&& r.0.call->to == end || r.0.call->to == f.read_only
            }
        },
        job.call is FlushedFrontiers ==> {
            let behind = reply->Frontiers_0.flushed_until.0 < (job.frozen->0).0;
            &&& behind <==> r.1->Ok_0 == Flow::Ended(false)
            &&& behind <==> r.0.call is Idle
            &&& !behind ==> r.0.call == if job.locking {
                CheckpointCall::LockHeld
            } else {
                CheckpointCall::NewLock
            }
        },
        !(r.0.call is Idle) ==> r.1->Ok_0 is More,
{
}

/// Under the lock the job makes the directory, then writes the index, then one page of the log after
/// the other, then reads the index that a checkpoint of the log alone builds on, and publishes last.
/// While the lock is not held it is asked for.
pub proof fn law_files_come_in_order(
    job: CheckpointModel,
    held: bool,
    memory: Memory,
    r: Step,
)
    requires
        job.call is LockHeld,
        job.next(Ok(CheckpointReply::Flag(held)), memory, r),
    ensures
        r.1 == Ok::<Flow, Error>(Flow::More),
        r.0.manifest == job.manifest,
        r.0.next_page == job.next_page,
        r.0.work == job.work,
        r.0.published == job.published,
        !held ==> r.0 == (CheckpointModel { call: CheckpointCall::LockTake, ..job }),
        held ==> {
            let pages = job.manifest.kind != CheckpointKind::Index && job.next_page
                < job.manifest.end.0 / job.chunk;
            let unread = job.manifest.kind == CheckpointKind::Log && !job.base_validated;
            &&& !job.directory <==> r.0.call is NewDirectory
            &&& job.directory && job.index <==> r.0.call is NewIndexWrite
            &&& job.directory && !job.index && pages <==> r.0.call is NewLogWrite
            &&& job.directory && !job.index && !pages && unread <==> r.0.call is NewBaseRead
            &&& job.directory && !job.index && !pages && !unread <==> r.0.call is NewPublish
            &&& r.0.index == (job.index && !job.directory)
            &&& r.0.directory == (job.directory && !(r.0.call is NewPublish))
            &&& r.0.files == if r.0.call is NewPublish {
                0
            } else {
                job.files
            }
        },
{
}

/// What each new piece of work is, and that it ends the step. Before the manifest is published the
/// coordinator leaves the phase of the flush.
pub proof fn law_work_is_started(
    job: CheckpointModel,
    memory: Memory,
    r: Step,
)
    requires
        job.call is NewDirectory || job.call is NewIndexWrite || job.call is NewLogWrite || job.call
            is NewBaseRead || job.call is NewPublish || job.call is LeaveFlush || job.call is NewLock,
        job.next(Ok(CheckpointReply::Done), memory, r),
    ensures
        r.0 == (CheckpointModel {
            call: r.0.call,
            work: r.0.work,
            locking: r.0.locking,
            ..job
        }),
        job.call is NewLock <==> r.0.call is LockHeld,
        job.call is NewPublish <==> r.0.call is LeaveFlush,
        r.0.locking == (job.locking || job.call is NewLock),
        job.call is NewLock || job.call is NewPublish ==> r.1 == Ok::<Flow, Error>(Flow::More)
            && r.0.work == job.work,
        !(job.call is NewLock || job.call is NewPublish) ==> r.1 == Ok::<Flow, Error>(
            Flow::Ended(true),
        ) && r.0.call is Idle && r.0.work is Some,
        job.call is NewDirectory <==> r.0.work == Some(Work::Directory) && r.0.call is Idle,
        job.call is NewIndexWrite <==> r.0.work == Some(Work::Index) && r.0.call is Idle,
        job.call is NewLogWrite <==> r.0.work == Some(Work::Log) && r.0.call is Idle,
        job.call is NewBaseRead <==> r.0.work == Some(Work::BaseIndex) && r.0.call is Idle,
        job.call is LeaveFlush <==> r.0.work == Some(Work::Publish) && r.0.call is Idle,
{
}

/// Work that is not done goes on; what it gave is taken up when it is: the directory, a file of the
/// index, a file and the material of one page of the log, the publication, or the base index, which
/// counts only once it was found to fit. Each done piece is taken off the job.
pub proof fn law_work_is_taken_up(
    job: CheckpointModel,
    reply: CheckpointReply,
    memory: Memory,
    r: Step,
)
    requires
        job.sound(),
        job.call is WorkTake || job.call is WorkOutput || job.call is WorkSubmit || job.call
            is MatchRecovery,
        job.admits(reply),
        job.next(Ok(reply), memory, r),
    ensures
        r.1 is Ok,
        job.call is WorkTake ==> r.0 == (CheckpointModel { call: CheckpointCall::WorkOutput, ..job })
            && r.1->Ok_0 is More,
        job.call is WorkSubmit ==> r.0 == (CheckpointModel { call: CheckpointCall::Idle, ..job })
            && r.1->Ok_0 == Flow::Ended(reply->Flag_0),
        job.call is MatchRecovery ==> r.0 == (CheckpointModel {
            call: CheckpointCall::Idle,
            work: None,
            base_validated: true,
            ..job
        }) && r.1->Ok_0 == Flow::Ended(true),
        job.call is WorkOutput && reply->Output_0 is None ==> r.0 == (CheckpointModel {
            call: CheckpointCall::WorkSubmit,
            ..job
        }) && r.1->Ok_0 is More,
        job.call is WorkOutput && reply->Output_0 == Some(WorkOutput::BaseIndex) ==> r.0
            == (CheckpointModel { call: CheckpointCall::MatchRecovery, ..job })
            && r.1->Ok_0 is More,
        job.call is WorkOutput && reply->Output_0 is Some && reply->Output_0 != Some(
            WorkOutput::BaseIndex,
        ) ==> {
            let output = reply->Output_0->0;
            &&& r.1->Ok_0 == Flow::Ended(true)
            &&& r.0.call is Idle
            &&& r.0.work is None
            &&& r.0.directory == (job.directory || output is Directory)
            &&& r.0.published == (job.published || output is Published)
            &&& r.0.files == job.files + if output is Index || output is Log {
                1int
            } else {
                0
            }
            &&& r.0.next_page == job.next_page + if output is Log {
                1int
            } else {
                0
            }
            &&& r.0.manifest == (ManifestModel {
                materials: if output is Log {
                    job.manifest.materials.push(output->Log_0)
                } else {
                    job.manifest.materials
                },
                ..job.manifest
            })
            &&& r.0.index == job.index
            &&& r.0.locking == job.locking
            &&& r.0.base_validated == job.base_validated
            &&& r.0.frozen == job.frozen
            &&& r.0.finished == job.finished
        },
{
}

/// What was published is finished in order: the lock is given back, and only when it is closed the
/// commit is remembered, the action ends and the result is reported.
pub proof fn law_commit_comes_in_order(
    job: CheckpointModel,
    reply: CheckpointReply,
    memory: Memory,
    r: Step,
)
    requires
        job.call is LockClosed || job.call is ReleaseLock || job.call is RecordCommitted || job.call
            is FinishAction || job.call is Report || job.call is LockTake || job.call is LockSubmit
            || job.call is LeaveSnapshot,
        job.admits(reply),
        job.next(Ok(reply), memory, r),
    ensures
        r.1 is Ok,
        r.0 == (CheckpointModel { call: r.0.call, finished: r.0.finished, ..job }),
        r.0.finished <==> job.finished || job.call is Report,
        job.call is LockClosed ==> r.0.call == if reply->Flag_0 {
            CheckpointCall::RecordCommitted
        } else {
            CheckpointCall::ReleaseLock
        },
        job.call is ReleaseLock ==> r.0.call is LockTake,
        job.call is RecordCommitted ==> r.0.call is FinishAction,
        job.call is FinishAction ==> r.0.call is Report,
        job.call is LockTake ==> r.0.call == if reply->Flag_0 {
            CheckpointCall::Idle
        } else {
            CheckpointCall::LockSubmit
        },
        job.call is LockSubmit || job.call is Report || job.call is LeaveSnapshot ==> r.0.call is Idle,
        job.call is LockSubmit ==> r.1->Ok_0 == Flow::Ended(reply->Flag_0),
        r.0.call is Idle && !(job.call is LockSubmit) ==> r.1->Ok_0 == Flow::Ended(true),
        !(r.0.call is Idle) ==> r.1->Ok_0 is More,
{
}

/// A call that failed ends the step and changes nothing else. A busy device, index, coordinator or log
/// is asked again in a later step; every other error is the error of the step.
pub proof fn law_errors_are_kept(job: CheckpointModel, error: Error, memory: Memory, r: Step)
    requires
        job.next(Err(error), memory, r),
    ensures
        r.0 == (CheckpointModel { call: CheckpointCall::Idle, ..job }),
        ({
            let patient = job.call is WorkSubmit || job.call is LockSubmit || job.call
                is SnapshotIndex || job.call is Cuts || job.call is PadTail || job.call
                is AdvanceReadOnly;
            if patient && error == Error::Busy {
                r.1 == Ok::<Flow, Error>(Flow::Ended(false))
            } else {
                r.1 == Err::<Flow, Error>(error)
            }
        }),
{
}

/// No reply changes whom the job works for, where it gets its completions, how large a page is and how
/// much a manifest may hold.
pub proof fn law_terms_are_kept(
    job: CheckpointModel,
    reply: Result<CheckpointReply, Error>,
    memory: Memory,
    r: Step,
)
    requires
        job.call != CheckpointCall::Idle,
        reply matches Ok(reply) ==> job.admits(reply),
        job.next(reply, memory, r),
    ensures
        r.0.id == job.id,
        r.0.mailbox == job.mailbox,
        r.0.chunk == job.chunk,
        r.0.max_items == job.max_items,
        r.0.failed == job.failed,
        r.0.manifest.store == job.manifest.store,
        r.0.manifest.version == job.manifest.version,
        r.0.manifest.semantics == job.manifest.semantics,
{
}

/// Memory that is refused ends the checkpoint only where pages have to be written, and says so.
pub proof fn law_refused_memory_is_told(job: CheckpointModel, f: Frontiers, memory: Memory, r: Step)
    requires
        job.sound(),
        job.call is FrozenFrontiers,
        job.next(Ok(CheckpointReply::Frontiers(f)), memory, r),
    ensures
        ({
            let first = job.manifest.begin.0 as int / job.chunk as int;
            let last = job.manifest.end.0 as int / job.chunk as int;
            let told = r.1 == Err::<Flow, Error>(Error::OutOfMemory);
            let rejected = job.manifest.begin.0 < f.begin.0 || last - first > usize::MAX || last - first
                + job.manifest.materials.len() > job.max_items;
            &&& told ==> !(memory is Granted) && first < last && !rejected
            &&& memory is Refused && first < last && !rejected ==> told
            &&& !told && !rejected ==> r.1 == Ok::<Flow, Error>(Flow::More)
        }),
{
}

/// A new checkpoint has done nothing: it holds no file, no work and no lock, and nothing is frozen,
/// published or finished.
pub proof fn law_starts_with_nothing(
    id: MaintenanceId,
    mailbox: RequestId,
    manifest: Manifest,
    chunk: u64,
    max_items: usize,
    job: CheckpointJob,
)
    requires
        call_ensures(CheckpointJob::new, (id, mailbox, manifest, chunk, max_items), job),
    ensures
        job.id == id,
        job.mailbox == mailbox,
        job.manifest@ == manifest@,
        job.chunk == chunk,
        job.max_items == max_items,
        job.call is Idle,
        job.frozen is None,
        job.work is None,
        job.next_page == 0,
        job.files == 0,
        !job.index && !job.directory && !job.published && !job.finished && !job.failed,
        !job.locking && !job.base_validated,
{
}

} // verus!
