use rasterkv::allocation::Memory;
use rasterkv::device::{
    CompletionRoute, DeviceCapabilities, IoCompletion, IoOperation, IoOutcome,
};
use rasterkv::engine::checkpoint::{
    CheckpointCall, CheckpointJob, CheckpointReply, Manifest, Material, MaterialKind, Semantics,
    WorkOutput,
};
use rasterkv::engine::checkpoint_catalog::{checkpoint_admission, CheckpointRuntime};
use rasterkv::engine::checkpoint_release::{
    release_admission, CatalogMaterial, CatalogTarget, CheckpointFile, ReleaseCall, ReleaseJob,
    ReleaseReply, ReleaseRuntime, ReleaseStage,
};
use rasterkv::engine::common::{Action, CoordinatorState, Flow, Frontiers, Gate, Phase};
use rasterkv::engine::compaction::{
    compaction_admission, compaction_pending, workers_stopped, After, CompactionCall,
    CompactionJob, CompactionReply, CompactionRuntime, CompactionStage, Order, Scanned, ScannedRecord,
};
use rasterkv::engine::conditional_copy::CopyResult;
use rasterkv::engine::gc::{
    gc_admission, publication_gates, validation_range, GcCall, GcJob, GcReply, GcRuntime, GcStage,
    ScanStep,
};
use rasterkv::engine::growth::{
    growth_admission, GrowthCall, GrowthJob, GrowthProgress, GrowthReply, GrowthRuntime, Released,
};
use rasterkv::engine::io_hub::CompletionHub;
use rasterkv::engine::maintenance::{
    MaintenanceCall, MaintenanceFlow, MaintenanceReply, MaintenanceTurn, Progress,
};
use rasterkv::engine::pending::SessionCut;
use rasterkv::reports::{
    CheckpointKind, CheckpointReport, CompactionAlgorithm, CompactionOptions, GcReport,
    PhysicalReclamation, RecoverySet,
};
use rasterkv::types::{
    CheckpointRetirement, CheckpointToken, CheckpointVersion, Error, Generation, IoErrorKind, IoId,
    LogAddress, MaintenanceId, PollBudget, RequestId, Serial, SessionId, StoreId,
};

const ID: MaintenanceId = MaintenanceId(5);

fn capable() -> DeviceCapabilities {
    DeviceCapabilities {
        supports_files: true,
        memory_alignment: 1,
        transfer_alignment: 1,
        supports_file_sync: true,
        supports_directory_sync: true,
        supports_atomic_publish: true,
        supports_directory_listing: true,
        supports_file_locks: true,
    }
}

fn frontiers(begin: u64, tail: u64) -> Frontiers {
    Frontiers {
        begin: LogAddress(begin),
        head: LogAddress(begin),
        safe_head: LogAddress(tail),
        flushed_until: LogAddress(tail),
        safe_read_only: LogAddress(tail),
        read_only: LogAddress(tail),
        tail: LogAddress(tail),
    }
}

fn state(phase: Phase) -> CoordinatorState {
    CoordinatorState {
        id: Some(ID),
        action: Some(Action::Compact),
        phase,
        version: CheckpointVersion(3),
    }
}

fn idle() -> CoordinatorState {
    CoordinatorState {
        id: None,
        action: None,
        phase: Phase::Rest,
        version: CheckpointVersion(3),
    }
}

fn mailbox() -> RequestId {
    RequestId {
        store: StoreId([1; 16]),
        session: SessionId([2; 16]),
        slot: 9,
        generation: Generation(0),
    }
}

fn gc_step(job: &mut GcJob, script: Vec<(GcCall, Result<GcReply, Error>)>) -> Result<bool, Error> {
    let mut flow = job.begin();
    for (call, reply) in script {
        assert_eq!(flow, Flow::More);
        assert_eq!(job.call, call);
        flow = job.accept(reply)?;
    }
    match flow {
        Flow::Ended(advanced) => Ok(advanced),
        Flow::More => panic!("waits for {:?}", job.call),
    }
}

#[test]
fn a_truncation_publishes_then_cleans_then_deletes_and_reports_once() {
    let mut job = GcJob::new(ID, LogAddress(8200), LogAddress(0), 4096, true, false);
    assert!(!gc_step(
        &mut job,
        vec![(GcCall::ScanStep, Ok(GcReply::Scan(ScanStep::Pending)))]
    )
    .unwrap());
    gc_step(
        &mut job,
        vec![(GcCall::ScanStep, Ok(GcReply::Scan(ScanStep::End)))],
    )
    .unwrap();
    assert!(!gc_step(&mut job, vec![(GcCall::PublishBegin, Err(Error::Busy))]).unwrap());
    gc_step(
        &mut job,
        vec![
            (GcCall::PublishBegin, Ok(GcReply::Done)),
            (GcCall::LeaveIo, Ok(GcReply::Done)),
        ],
    )
    .unwrap();
    for _ in 0..2 {
        gc_step(
            &mut job,
            vec![
                (GcCall::BucketCount, Ok(GcReply::Count(2))),
                (GcCall::CleanBucket, Ok(GcReply::Done)),
            ],
        )
        .unwrap();
    }
    gc_step(
        &mut job,
        vec![
            (GcCall::BucketCount, Ok(GcReply::Count(2))),
            (GcCall::LeaveIndex, Ok(GcReply::Done)),
        ],
    )
    .unwrap();
    assert!(job.index_cleaned);
    gc_step(
        &mut job,
        vec![
            (
                GcCall::StorageGate,
                Ok(GcReply::Storage {
                    gate: Gate::Free,
                    flushing: false,
                }),
            ),
            (GcCall::DiscardPrefix, Ok(GcReply::Done)),
        ],
    )
    .unwrap();
    gc_step(
        &mut job,
        vec![
            (GcCall::Frontiers, Ok(GcReply::Frontiers(frontiers(8200, 9000)))),
            (GcCall::SupportsFiles, Ok(GcReply::Flag(true))),
            (GcCall::Candidates, Ok(GcReply::Count(2))),
        ],
    )
    .unwrap();
    assert_eq!(job.target_page().0, 2);
    gc_step(&mut job, vec![(GcCall::Detach, Err(Error::Busy))]).unwrap();
    gc_step(&mut job, vec![(GcCall::Detach, Ok(GcReply::Done))]).unwrap();
    gc_step(
        &mut job,
        vec![(
            GcCall::DeletionStep,
            Ok(GcReply::Deletion {
                before: true,
                done: true,
                after: false,
            }),
        )],
    )
    .unwrap();
    gc_step(&mut job, vec![]).unwrap();
    assert_eq!(job.stage, GcStage::Finish);
    gc_step(
        &mut job,
        vec![
            (GcCall::FinishPhase { round: 0 }, Ok(GcReply::Phase(Phase::GcIndex))),
            (
                GcCall::FinishLeave {
                    phase: Phase::GcIndex,
                    round: 0,
                },
                Ok(GcReply::Done),
            ),
            (GcCall::FinishPhase { round: 1 }, Ok(GcReply::Phase(Phase::Rest))),
            (GcCall::FinishCheck, Ok(GcReply::Phase(Phase::Rest))),
            (GcCall::FinishAction, Ok(GcReply::Done)),
            (GcCall::Report, Ok(GcReply::Done)),
        ],
    )
    .unwrap();
    assert!(job.reported);
    assert_eq!(
        job.result,
        Some(Ok(GcReport {
            begin: LogAddress(8200),
            index_cleaned: true,
            deleted_segments: 1,
            physical: PhysicalReclamation::DeferredByRuntime {
                begin: LogAddress(0),
                end: LogAddress(8200),
            },
        }))
    );
    assert!(job.fail(None, Error::Busy).is_none());
}

#[test]
fn a_failed_truncation_tells_what_it_had_done() {
    let mut job = GcJob::new(ID, LogAddress(64), LogAddress(8), 64, false, false);
    gc_step(&mut job, vec![]).unwrap();
    let error = gc_step(
        &mut job,
        vec![
            (GcCall::PublishBegin, Ok(GcReply::Done)),
            (GcCall::LeaveIo, Err(Error::CapacityExceeded)),
        ],
    )
    .unwrap_err();
    let concluded = job.conclude(false, Err(error));
    assert!(!concluded.fatal && !concluded.advanced);
    gc_step(
        &mut job,
        vec![
            (GcCall::FailedFrontiers, Err(Error::Busy)),
            (GcCall::FinishPhase { round: 0 }, Ok(GcReply::Phase(Phase::Failed))),
            (GcCall::FinishCheck, Ok(GcReply::Phase(Phase::Failed))),
            (GcCall::Report, Ok(GcReply::Done)),
        ],
    )
    .unwrap();
    assert_eq!(
        job.result,
        Some(Err(Error::GcFailed {
            begin: LogAddress(64),
            index_cleaned: false,
            deleted_segments: 0,
            cause: Box::new(Error::CapacityExceeded),
        }))
    );
    let mut job = GcJob::new(ID, LogAddress(64), LogAddress(8), 64, false, false);
    assert_eq!(
        job.fail(Some(LogAddress(9)), Error::Busy),
        Some(Error::GcFailed {
            begin: LogAddress(9),
            index_cleaned: false,
            deleted_segments: 0,
            cause: Box::new(Error::Busy),
        })
    );
    assert!(job.conclude(true, Err(Error::Busy)).fatal);
}

#[test]
fn a_truncation_starts_only_where_it_can_be_durable() {
    let caps = capable();
    gc_admission(false, false, &caps, Gate::Free, false).unwrap();
    assert!(matches!(
        gc_admission(true, false, &caps, Gate::Free, false),
        Err(Error::InvalidState(_))
    ));
    assert!(matches!(
        gc_admission(false, false, &caps, Gate::Held, false),
        Err(Error::Busy)
    ));
    assert!(matches!(
        gc_admission(false, false, &caps, Gate::Free, true),
        Err(Error::Busy)
    ));
    let blind = DeviceCapabilities {
        supports_directory_sync: false,
        ..caps
    };
    assert!(matches!(
        gc_admission(false, false, &blind, Gate::Free, false),
        Err(Error::UnsupportedDurability)
    ));
    publication_gates(&[Gate::Free, Gate::Free], Gate::Free, Memory::Allocator).unwrap();
    assert!(matches!(
        publication_gates(&[Gate::Free, Gate::Held], Gate::Free, Memory::Refused),
        Err(Error::OutOfMemory)
    ));
    assert!(matches!(
        publication_gates(&[Gate::Free, Gate::Held], Gate::Poisoned, Memory::Granted),
        Err(Error::Busy)
    ));
    assert!(matches!(
        publication_gates(&[Gate::Free], Gate::Poisoned, Memory::Granted),
        Err(Error::InvalidState(_))
    ));
    let f = frontiers(100, 1000);
    let f = Frontiers {
        head: LogAddress(900),
        ..f
    };
    assert_eq!(
        validation_range(&f, LogAddress(130), 64),
        Some((LogAddress(128), LogAddress(130)))
    );
    assert_eq!(
        validation_range(&f, LogAddress(110), 64),
        Some((LogAddress(100), LogAddress(110)))
    );
    assert_eq!(validation_range(&f, LogAddress(128), 64), None);
    assert_eq!(validation_range(&f, LogAddress(950), 64), None);
}

fn grow_step(
    job: &mut GrowthJob,
    script: Vec<(GrowthCall, Result<GrowthReply, Error>)>,
) -> Result<bool, Error> {
    job.begin();
    let mut flow = Flow::More;
    for (call, reply) in script {
        assert_eq!(flow, Flow::More);
        assert_eq!(job.call, call);
        flow = job.accept(reply, Memory::Allocator)?;
    }
    match flow {
        Flow::Ended(advanced) => Ok(advanced),
        Flow::More => panic!("waits for {:?}", job.call),
    }
}

#[test]
fn a_growth_reports_only_after_the_old_table_is_given_back() {
    let progress = |complete| GrowthProgress {
        complete,
        generation: Generation(2),
        old_buckets: 4,
        new_buckets: 8,
    };
    let mut job = GrowthJob::new(ID);
    assert!(!grow_step(
        &mut job,
        vec![(GrowthCall::State, Ok(GrowthReply::State(state(Phase::GrowPrepare))))]
    )
    .unwrap());
    let begun = grow_step(
        &mut job,
        vec![
            (GrowthCall::State, Ok(GrowthReply::State(state(Phase::GrowCopy)))),
            (GrowthCall::BeginGrowth, Ok(GrowthReply::Progress(progress(false)))),
            (
                GrowthCall::Gates { advanced: true },
                Ok(GrowthReply::Gates(vec![Gate::Free, Gate::Held, Gate::Poisoned])),
            ),
        ],
    )
    .unwrap();
    assert!(begun);
    grow_step(
        &mut job,
        vec![
            (GrowthCall::State, Ok(GrowthReply::State(state(Phase::GrowCopy)))),
            (
                GrowthCall::Gates { advanced: false },
                Ok(GrowthReply::Gates(vec![Gate::Free, Gate::Free])),
            ),
            (GrowthCall::GrowStep, Ok(GrowthReply::Progress(progress(true)))),
            (GrowthCall::Defer, Ok(GrowthReply::Done)),
            (GrowthCall::AdvanceEpoch, Ok(GrowthReply::Done)),
            (GrowthCall::Leave, Ok(GrowthReply::Done)),
        ],
    )
    .unwrap();
    let waits = grow_step(
        &mut job,
        vec![
            (GrowthCall::State, Ok(GrowthReply::State(state(Phase::Publish)))),
            (GrowthCall::Collect, Ok(GrowthReply::Collected(vec![]))),
        ],
    )
    .unwrap();
    assert!(!waits && !job.finished);
    grow_step(
        &mut job,
        vec![
            (GrowthCall::State, Ok(GrowthReply::State(state(Phase::Publish)))),
            (
                GrowthCall::Collect,
                Ok(GrowthReply::Collected(vec![Released::Index(Generation(1))])),
            ),
            (
                GrowthCall::Release {
                    generation: Generation(1),
                },
                Ok(GrowthReply::Done),
            ),
            (GrowthCall::FinishAction, Ok(GrowthReply::Done)),
            (GrowthCall::Report, Ok(GrowthReply::Done)),
        ],
    )
    .unwrap();
    assert!(job.finished && job.reclaimed);
    let mut job = GrowthJob::new(ID);
    assert!(matches!(
        grow_step(
            &mut job,
            vec![(GrowthCall::State, Ok(GrowthReply::State(idle())))]
        ),
        Err(Error::InvalidState(_))
    ));
    assert!(matches!(
        growth_admission(false, false, Gate::Poisoned, false),
        Err(Error::InvalidState(_))
    ));
    growth_admission(false, false, Gate::Free, false).unwrap();
    for (gates, memory, expected) in [
        (vec![Gate::Poisoned, Gate::Held], Memory::Granted, None),
        (vec![Gate::Free], Memory::Refused, Some(Error::OutOfMemory)),
    ] {
        let mut job = GrowthJob::new(ID);
        job.begin();
        job.accept(Ok(GrowthReply::State(state(Phase::GrowCopy))), memory)
            .unwrap();
        job.accept(Ok(GrowthReply::Progress(progress(false))), memory)
            .unwrap();
        let stopped = job.accept(Ok(GrowthReply::Gates(gates)), memory);
        match expected {
            Some(error) => assert_eq!(stopped, Err(error)),
            None => assert!(matches!(stopped, Err(Error::InvalidState(_)))),
        }
    }
    let mut job = GrowthJob::new(ID);
    job.begin();
    job.accept(Ok(GrowthReply::State(state(Phase::GrowCopy))), Memory::Refused)
        .unwrap();
    job.accept(Ok(GrowthReply::Progress(progress(false))), Memory::Refused)
        .unwrap();
    assert_eq!(
        job.accept(Ok(GrowthReply::Gates(Vec::new())), Memory::Refused),
        Ok(Flow::More)
    );
    assert_eq!(job.call, GrowthCall::GrowStep);
}

fn release_step(
    job: &mut ReleaseJob,
    script: Vec<(ReleaseCall, Result<ReleaseReply, Error>)>,
) -> Result<bool, Error> {
    let mut flow = job.begin()?;
    for (call, reply) in script {
        assert_eq!(flow, Flow::More);
        assert_eq!(job.call, call);
        flow = job.accept(reply)?;
    }
    match flow {
        Flow::Ended(advanced) => Ok(advanced),
        Flow::More => panic!("waits for {:?}", job.call),
    }
}

fn material(id: u64) -> CatalogMaterial {
    CatalogMaterial {
        id,
        generation: Generation(2),
    }
}

fn paths(stage: ReleaseStage) -> Vec<(ReleaseCall, Result<ReleaseReply, Error>)> {
    let made = |file, path: &str| {
        (
            ReleaseCall::Path { file },
            Ok(ReleaseReply::Path(path.as_bytes().to_vec())),
        )
    };
    match stage {
        ReleaseStage::Retire => vec![
            made(CheckpointFile::Commit, "seven/commit"),
            made(CheckpointFile::Released, "seven/commit.released"),
        ],
        ReleaseStage::Delete => vec![made(
            CheckpointFile::Material(material(0)),
            "seven/material",
        )],
        _ => vec![made(CheckpointFile::Directory, "seven")],
    }
}

fn metadata(result: Result<IoOutcome, Error>) -> ReleaseReply {
    ReleaseReply::Completion(Some(IoCompletion {
        id: IoId(4),
        route: CompletionRoute(9),
        result,
        buffer: None,
    }))
}

fn catalogued(job: &mut ReleaseJob, blockers: Vec<RecoverySet>, materials: u64) {
    release_step(
        job,
        vec![
            (ReleaseCall::Contention, Ok(ReleaseReply::Flag(false))),
            (ReleaseCall::LockHeld, Ok(ReleaseReply::Flag(true))),
            (ReleaseCall::NewReader, Ok(ReleaseReply::Done)),
        ],
    )
    .unwrap();
    release_step(
        job,
        vec![
            (ReleaseCall::ReaderStep, Ok(ReleaseReply::Flag(true))),
            (
                ReleaseCall::ReaderResult { advanced: true },
                Ok(ReleaseReply::Catalog(Some(CatalogTarget {
                    retired: false,
                    blockers,
                    begin: LogAddress(0),
                    end: LogAddress(64),
                    materials: (0..materials).map(material).collect(),
                }))),
            ),
        ],
    )
    .unwrap();
}

fn unlock_and_finish(job: &mut ReleaseJob) {
    release_step(
        job,
        vec![
            (ReleaseCall::LockClosed, Ok(ReleaseReply::Flag(false))),
            (ReleaseCall::UnlockHeld, Ok(ReleaseReply::Flag(true))),
            (ReleaseCall::ReleaseLock, Ok(ReleaseReply::Done)),
            (ReleaseCall::LockTake, Ok(ReleaseReply::Flag(false))),
            (ReleaseCall::LockSubmit, Ok(ReleaseReply::Flag(true))),
        ],
    )
    .unwrap();
    release_step(
        job,
        vec![(ReleaseCall::LockClosed, Ok(ReleaseReply::Flag(true)))],
    )
    .unwrap();
    release_step(
        job,
        vec![
            (ReleaseCall::Leave, Ok(ReleaseReply::Done)),
            (ReleaseCall::FinishAction, Ok(ReleaseReply::Done)),
            (ReleaseCall::Report, Ok(ReleaseReply::Done)),
        ],
    )
    .unwrap();
    assert!(job.reported);
}

#[test]
fn a_release_retires_durably_before_it_deletes_and_counts_what_is_gone() {
    let token = CheckpointToken([7; 16]);
    let mut job = ReleaseJob::new(ID, mailbox(), token);
    catalogued(&mut job, vec![], 1);
    assert_eq!(job.stage, ReleaseStage::Retire);
    for stage in [
        ReleaseStage::Retire,
        ReleaseStage::RetirementSync,
        ReleaseStage::Delete,
        ReleaseStage::DeleteSync,
    ] {
        assert_eq!(job.stage, stage);
        let mut asked = paths(stage);
        asked.push((ReleaseCall::Take, Ok(ReleaseReply::Completion(None))));
        assert_eq!(job.begin().unwrap(), Flow::More);
        for (call, reply) in asked {
            assert_eq!(job.call, call);
            assert_eq!(job.accept(reply).unwrap(), Flow::More);
        }
        assert_eq!(job.call, ReleaseCall::Submit);
        let request = job.request();
        assert_eq!(request.route, CompletionRoute(9));
        match (stage, request.operation) {
            (
                ReleaseStage::Retire,
                IoOperation::Rename {
                    source,
                    destination,
                },
            ) => {
                assert_eq!(source, b"seven/commit");
                assert_eq!(destination, b"seven/commit.released");
            }
            (ReleaseStage::Delete, IoOperation::RemoveFile(path)) => {
                assert_eq!(path, b"seven/material");
            }
            (
                ReleaseStage::RetirementSync | ReleaseStage::DeleteSync,
                IoOperation::SyncDirectory(path),
            ) => assert_eq!(path, b"seven"),
            other => panic!("another request: {other:?}"),
        }
        let mut flow = job
            .accept(Ok(ReleaseReply::Submitted(IoId(4))))
            .unwrap();
        if stage == ReleaseStage::Retire {
            assert_eq!(job.call, ReleaseCall::Invalidate { confirmed: false });
            flow = job.accept(Ok(ReleaseReply::Done)).unwrap();
        }
        assert_eq!(flow, Flow::Ended(true));
        let result = if stage == ReleaseStage::Delete {
            Err(Error::Io(IoErrorKind::NotFound))
        } else {
            Ok(IoOutcome::Done)
        };
        let mut take = paths(stage);
        take.push((ReleaseCall::Take, Ok(metadata(result))));
        if stage == ReleaseStage::RetirementSync {
            take.push((
                ReleaseCall::Invalidate { confirmed: true },
                Ok(ReleaseReply::Done),
            ));
        }
        release_step(&mut job, take).unwrap();
    }
    assert_eq!(job.deleted, 1);
    release_step(&mut job, vec![]).unwrap();
    unlock_and_finish(&mut job);
    match job.result {
        Some(Ok(report)) => {
            assert_eq!(report.token, token);
            assert_eq!(report.retirement, CheckpointRetirement::Retired);
            assert_eq!(report.confirmed_absent_materials, 1);
            assert_eq!(report.physical, PhysicalReclamation::Completed);
        }
        other => panic!("no report: {other:?}"),
    }
}

#[test]
fn a_checkpoint_that_others_need_is_left_alone() {
    let token = CheckpointToken([7; 16]);
    let blocker = RecoverySet {
        store: StoreId([1; 16]),
        index: token,
        log: CheckpointToken([8; 16]),
    };
    let mut job = ReleaseJob::new(ID, mailbox(), token);
    catalogued(&mut job, vec![blocker], 3);
    unlock_and_finish(&mut job);
    match job.result {
        Some(Ok(report)) => {
            assert_eq!(report.retirement, CheckpointRetirement::NotAttempted);
            assert_eq!(report.confirmed_absent_materials, 0);
            assert_eq!(
                report.physical,
                PhysicalReclamation::DeferredByRecoverySet {
                    blockers: vec![blocker],
                    begin: LogAddress(0),
                    end: LogAddress(64),
                }
            );
        }
        other => panic!("no report: {other:?}"),
    }
}

#[test]
fn a_release_that_meets_a_lock_or_fails_says_how_far_it_came() {
    let token = CheckpointToken([7; 16]);
    let mut job = ReleaseJob::new(ID, mailbox(), token);
    release_step(
        &mut job,
        vec![
            (ReleaseCall::Contention, Ok(ReleaseReply::Flag(true))),
            (ReleaseCall::CancelContended, Ok(ReleaseReply::Done)),
        ],
    )
    .unwrap();
    release_step(
        &mut job,
        vec![
            (ReleaseCall::Leave, Ok(ReleaseReply::Done)),
            (ReleaseCall::FinishAction, Ok(ReleaseReply::Done)),
            (ReleaseCall::Report, Ok(ReleaseReply::Done)),
        ],
    )
    .unwrap();
    assert_eq!(
        job.result,
        Some(Err(Error::CheckpointReleaseFailed {
            token,
            retirement: CheckpointRetirement::NotAttempted,
            confirmed_absent_materials: 0,
            cause: Box::new(Error::Busy),
        }))
    );
    let mut job = ReleaseJob::new(ID, mailbox(), token);
    catalogued(&mut job, vec![], 1);
    let mut submit = paths(ReleaseStage::Retire);
    submit.push((ReleaseCall::Take, Ok(ReleaseReply::Completion(None))));
    submit.push((ReleaseCall::Submit, Ok(ReleaseReply::Submitted(IoId(4)))));
    submit.push((
        ReleaseCall::Invalidate { confirmed: false },
        Ok(ReleaseReply::Done),
    ));
    release_step(&mut job, submit).unwrap();
    assert_eq!(CheckpointFile::Commit.name(), Some("commit"));
    assert_eq!(CheckpointFile::Released.name(), Some("commit.released"));
    assert_eq!(CheckpointFile::Directory.name(), Some("commit"));
    assert_eq!(CheckpointFile::Material(material(1)).name(), None);
    assert_eq!(
        job.fail(),
        Some(Error::CheckpointReleaseFailed {
            token,
            retirement: CheckpointRetirement::PossiblyRetired,
            confirmed_absent_materials: 0,
            cause: Box::new(Error::InvalidState(
                "Engine failed shutdown during checkpoint release"
            )),
        })
    );
    let caps = capable();
    release_admission(&token, false, false, &caps, Gate::Free, false).unwrap();
    assert!(matches!(
        release_admission(
            &CheckpointToken([0; 16]),
            false,
            false,
            &caps,
            Gate::Free,
            false
        ),
        Err(Error::InvalidFormat(_))
    ));
}

fn manifest(kind: CheckpointKind) -> Manifest {
    let token = CheckpointToken([3; 16]);
    Manifest {
        store: StoreId([1; 16]),
        token,
        kind,
        base_index: token,
        semantics: Semantics {
            key_format: 1,
            value_format: 2,
            hash: 3,
        },
        version: CheckpointVersion(3),
        begin: LogAddress(0),
        end: LogAddress(0),
        replay_from: LogAddress(0),
        session_progress: vec![],
        materials: vec![],
    }
}

fn checkpoint_step(
    job: &mut CheckpointJob,
    phase: Phase,
    script: Vec<(CheckpointCall, Result<CheckpointReply, Error>)>,
) -> Result<bool, Error> {
    job.begin();
    let mut flow = job.accept(Ok(CheckpointReply::State(state(phase))), Memory::Granted)?;
    for (call, reply) in script {
        assert_eq!(flow, Flow::More);
        assert_eq!(job.call, call);
        flow = job.accept(reply, Memory::Granted)?;
    }
    match flow {
        Flow::Ended(advanced) => Ok(advanced),
        Flow::More => panic!("waits for {:?}", job.call),
    }
}

fn work(job: &mut CheckpointJob, phase: Phase, output: WorkOutput) {
    checkpoint_step(
        job,
        phase,
        vec![
            (CheckpointCall::WorkTake, Ok(CheckpointReply::Done)),
            (CheckpointCall::WorkOutput, Ok(CheckpointReply::Output(None))),
            (CheckpointCall::WorkSubmit, Ok(CheckpointReply::Flag(true))),
        ],
    )
    .unwrap();
    checkpoint_step(
        job,
        phase,
        vec![
            (CheckpointCall::WorkTake, Ok(CheckpointReply::Done)),
            (
                CheckpointCall::WorkOutput,
                Ok(CheckpointReply::Output(Some(output))),
            ),
        ],
    )
    .unwrap();
}

#[test]
fn a_full_checkpoint_copies_freezes_flushes_writes_and_publishes_in_this_order() {
    let mut job = CheckpointJob::new(ID, mailbox(), manifest(CheckpointKind::Full), 64, 8);
    assert!(!checkpoint_step(&mut job, Phase::Prepare, vec![]).unwrap());
    let begin = LogAddress(64);
    checkpoint_step(
        &mut job,
        Phase::IndexSnapshot,
        vec![
            (
                CheckpointCall::SnapshotBegin,
                Ok(CheckpointReply::Frontiers(frontiers(64, 70))),
            ),
            (
                CheckpointCall::SnapshotIndex { begin },
                Ok(CheckpointReply::Snapshot {
                    bytes: 10,
                    checksum: 11,
                }),
            ),
            (
                CheckpointCall::SnapshotEnd {
                    begin,
                    bytes: 10,
                    checksum: 11,
                },
                Ok(CheckpointReply::Frontiers(frontiers(64, 90))),
            ),
            (CheckpointCall::LeaveSnapshot, Ok(CheckpointReply::Done)),
        ],
    )
    .unwrap();
    let cut = |old_pending| SessionCut {
        session: SessionId([2; 16]),
        last_accepted: Some(Serial(4)),
        old_pending,
    };
    let waits = checkpoint_step(
        &mut job,
        Phase::WaitFlush,
        vec![
            (CheckpointCall::StorageGate, Ok(CheckpointReply::Gate(Gate::Free))),
            (CheckpointCall::Cuts, Ok(CheckpointReply::Cuts(vec![cut(1)]))),
        ],
    )
    .unwrap();
    assert!(!waits);
    assert!(job.manifest.session_progress.is_empty());
    let flushing = Frontiers {
        safe_read_only: LogAddress(100),
        read_only: LogAddress(100),
        flushed_until: LogAddress(100),
        ..frontiers(64, 128)
    };
    let waits = checkpoint_step(
        &mut job,
        Phase::WaitFlush,
        vec![
            (CheckpointCall::StorageGate, Ok(CheckpointReply::Gate(Gate::Free))),
            (CheckpointCall::Cuts, Ok(CheckpointReply::Cuts(vec![cut(0)]))),
            (CheckpointCall::PadTail, Ok(CheckpointReply::Tail(LogAddress(128)))),
            (
                CheckpointCall::FrozenFrontiers,
                Ok(CheckpointReply::Frontiers(flushing)),
            ),
            (
                CheckpointCall::ReserveFiles { count: 2 },
                Ok(CheckpointReply::Done),
            ),
            (
                CheckpointCall::ReadOnlyFrontiers,
                Ok(CheckpointReply::Frontiers(flushing)),
            ),
            (
                CheckpointCall::AdvanceReadOnly {
                    to: LogAddress(128),
                },
                Ok(CheckpointReply::Done),
            ),
            (
                CheckpointCall::FlushedFrontiers,
                Ok(CheckpointReply::Frontiers(flushing)),
            ),
        ],
    )
    .unwrap();
    assert!(!waits);
    let flushed = || {
        vec![
            (
                CheckpointCall::StorageGate,
                Ok(CheckpointReply::Gate(Gate::Free)),
            ),
            (
                CheckpointCall::ReadOnlyFrontiers,
                Ok(CheckpointReply::Frontiers(frontiers(64, 128))),
            ),
            (
                CheckpointCall::FlushedFrontiers,
                Ok(CheckpointReply::Frontiers(frontiers(64, 128))),
            ),
        ]
    };
    let mut script = flushed();
    script.push((CheckpointCall::NewLock, Ok(CheckpointReply::Done)));
    script.push((CheckpointCall::LockHeld, Ok(CheckpointReply::Flag(false))));
    script.push((CheckpointCall::LockTake, Ok(CheckpointReply::Flag(false))));
    script.push((CheckpointCall::LockSubmit, Err(Error::Busy)));
    assert!(!checkpoint_step(&mut job, Phase::WaitFlush, script).unwrap());
    let material = Material {
        id: 2,
        generation: Generation(0),
        kind: MaterialKind::Log,
        begin: LogAddress(64),
        end: LogAddress(128),
        bytes: 64,
        checksum: 5,
    };
    for (call, output) in [
        (CheckpointCall::NewDirectory, WorkOutput::Directory),
        (CheckpointCall::NewIndexWrite, WorkOutput::Index),
        (CheckpointCall::NewLogWrite, WorkOutput::Log(material)),
    ] {
        let mut script = flushed();
        script.push((CheckpointCall::LockHeld, Ok(CheckpointReply::Flag(true))));
        script.push((call, Ok(CheckpointReply::Done)));
        checkpoint_step(&mut job, Phase::WaitFlush, script).unwrap();
        work(&mut job, Phase::WaitFlush, output);
    }
    assert_eq!(job.manifest.materials.len(), 2);
    let mut script = flushed();
    script.push((CheckpointCall::LockHeld, Ok(CheckpointReply::Flag(true))));
    script.push((CheckpointCall::NewPublish, Ok(CheckpointReply::Done)));
    script.push((CheckpointCall::LeaveFlush, Ok(CheckpointReply::Done)));
    checkpoint_step(&mut job, Phase::WaitFlush, script).unwrap();
    work(&mut job, Phase::Publish, WorkOutput::Published);
    checkpoint_step(
        &mut job,
        Phase::Publish,
        vec![
            (CheckpointCall::LockClosed, Ok(CheckpointReply::Flag(true))),
            (CheckpointCall::RecordCommitted, Ok(CheckpointReply::Done)),
            (CheckpointCall::FinishAction, Ok(CheckpointReply::Done)),
            (CheckpointCall::Report, Ok(CheckpointReply::Done)),
        ],
    )
    .unwrap();
    assert!(job.finished && job.published);
    let report = job.report();
    assert_eq!((report.begin, report.end), (LogAddress(64), LogAddress(128)));
    assert_eq!(report.sessions.len(), 1);
    assert_eq!(report.sessions[0].serial, Serial(4));
}

fn hub() -> CompletionHub {
    CompletionHub::new(StoreId([1; 16]), 1, 1).unwrap()
}

const SEMANTICS: Semantics = Semantics {
    key_format: 1,
    value_format: 2,
    hash: 3,
};

fn start_checkpoint(
    runtime: &mut CheckpointRuntime,
    hub: &mut CompletionHub,
    kind: CheckpointKind,
    started: Result<MaintenanceId, Error>,
) -> Result<MaintenanceId, Error> {
    let (manifest, mailbox) = runtime.reserve(
        hub,
        kind,
        StoreId([1; 16]),
        CheckpointToken([3; 16]),
        Some(SEMANTICS),
        CheckpointVersion(3),
    )?;
    runtime.start(hub, started, mailbox, manifest, 64, 8)
}

#[test]
fn a_checkpoint_that_does_not_start_keeps_nothing() {
    let mut hub = hub();
    let mut runtime = CheckpointRuntime::new();
    checkpoint_admission(Gate::Free, false, false, false, &capable()).unwrap();
    assert!(matches!(
        checkpoint_admission(Gate::Free, true, false, false, &capable()),
        Err(Error::Busy)
    ));
    assert!(matches!(
        start_checkpoint(&mut runtime, &mut hub, CheckpointKind::Log, Ok(ID)),
        Err(Error::InvalidState(_))
    ));
    assert!(matches!(
        runtime.reserve(
            &mut hub,
            CheckpointKind::Full,
            StoreId([1; 16]),
            CheckpointToken([3; 16]),
            None,
            CheckpointVersion(3),
        ),
        Err(Error::InvalidState(_))
    ));
    assert!(matches!(
        start_checkpoint(
            &mut runtime,
            &mut hub,
            CheckpointKind::Full,
            Err(Error::CapacityExceeded)
        ),
        Err(Error::CapacityExceeded)
    ));
    assert_eq!(hub.occupied(), 0);
    assert!(!runtime.enter(Gate::Free).unwrap());
    start_checkpoint(&mut runtime, &mut hub, CheckpointKind::Full, Ok(ID)).unwrap();
    assert_eq!(hub.occupied(), 1);
    assert!(runtime.enter(Gate::Free).unwrap());
    assert!(!runtime.enter(Gate::Held).unwrap());
    assert!(runtime.enter(Gate::Poisoned).is_err());
}

#[test]
fn an_index_that_is_done_is_the_base_of_the_next_log_until_it_is_truncated_or_released() {
    let mut hub = hub();
    let mut runtime = CheckpointRuntime::new();
    start_checkpoint(&mut runtime, &mut hub, CheckpointKind::Index, Ok(ID)).unwrap();
    assert_eq!(runtime.leave(&mut hub, true).unwrap(), (true, false));
    runtime.job.as_mut().unwrap().finished = true;
    runtime.job.as_mut().unwrap().manifest.begin = LogAddress(8);
    assert_eq!(runtime.leave(&mut hub, true).unwrap(), (true, true));
    assert!(runtime.job.is_none());
    assert_eq!(hub.occupied(), 0);
    let (log, mailbox) = runtime
        .reserve(
            &mut hub,
            CheckpointKind::Log,
            StoreId([1; 16]),
            CheckpointToken([4; 16]),
            Some(SEMANTICS),
            CheckpointVersion(4),
        )
        .unwrap();
    assert_eq!(log.base_index, CheckpointToken([3; 16]));
    assert_eq!(log.begin, LogAddress(8));
    hub.release(mailbox).unwrap();
    assert!(matches!(
        runtime.reserve(
            &mut hub,
            CheckpointKind::Log,
            StoreId([1; 16]),
            CheckpointToken([4; 16]),
            Some(Semantics {
                hash: 4,
                ..SEMANTICS
            }),
            CheckpointVersion(4),
        ),
        Err(Error::InvalidFormat(_))
    ));
    runtime.invalidate_before(LogAddress(8));
    assert!(runtime.latest_index.is_some());
    runtime.invalidate_before(LogAddress(9));
    assert!(runtime.latest_index.is_none());
    let (mut runtime, distinct) = CheckpointRuntime::recovered(log, &manifest(CheckpointKind::Log));
    assert!(distinct);
    assert!(!runtime.release_token(CheckpointToken([3; 16]), false));
    assert!(runtime.latest_index.is_some());
    assert!(runtime.release_token(CheckpointToken([4; 16]), true));
    assert!(runtime.latest_index.is_none());
}

#[test]
fn a_checkpoint_that_fails_tells_it_once_and_gives_its_mailbox_back_when_the_device_has_stopped() {
    let mut hub = hub();
    let mut runtime = CheckpointRuntime::new();
    start_checkpoint(&mut runtime, &mut hub, CheckpointKind::Full, Ok(ID)).unwrap();
    let job = runtime.job.as_mut().unwrap();
    assert_eq!(job.material_id().unwrap(), 1);
    job.begin();
    assert!(matches!(
        job.accept(Ok(CheckpointReply::State(idle())), Memory::Granted),
        Err(Error::InvalidState(_))
    ));
    assert_eq!(runtime.broken(Err(Error::Busy)), Error::Busy);
    assert!(runtime.failure(Gate::Free).unwrap().is_some());
    assert!(runtime.failure(Gate::Held).unwrap().is_none());
    assert!(runtime.stops(false).unwrap().is_some());
    assert!(runtime.stops(true).is_err());
    assert!(matches!(
        runtime.broken(Ok(())),
        Error::InvalidState("Checkpoint task failed,see_maintenance_report")
    ));
    assert!(!runtime.enter(Gate::Free).unwrap());
    assert!(runtime.failure(Gate::Free).unwrap().is_none());
    assert!(runtime.stops(false).unwrap().is_none());
    runtime.stop(&mut hub, Ok(())).unwrap();
    assert_eq!(hub.occupied(), 0);
    start_checkpoint(&mut runtime, &mut hub, CheckpointKind::Full, Ok(ID)).unwrap();
    runtime.failed(Ok(())).unwrap();
    assert!(matches!(
        runtime.stop(&mut hub, Err(Error::Busy)),
        Err(Error::Busy)
    ));
    assert_eq!(hub.occupied(), 1);
}

#[test]
fn actions_leave_their_place_when_they_have_reported_and_keep_it_while_their_ticket_takes_nothing() {
    let mut gc = GcRuntime::new();
    assert!(gc
        .start(Err(Error::Busy), LogAddress(64), LogAddress(8), 64, false)
        .is_err());
    assert!(!gc.enter(Gate::Free).unwrap());
    gc.start(Ok(ID), LogAddress(64), LogAddress(8), 64, false)
        .unwrap();
    assert!(gc.enter(Gate::Free).unwrap());
    assert_eq!(gc.leave(false, true, None).unwrap(), (true, false));
    let report = gc.job.as_mut().unwrap().fail(None, Error::Busy).unwrap();
    assert!(matches!(
        report,
        Error::GcFailed {
            begin: LogAddress(8),
            ..
        }
    ));
    assert!(matches!(
        gc.leave(true, true, Some(Err(Error::OutOfMemory))),
        Err(Error::OutOfMemory)
    ));
    assert!(gc.enter(Gate::Free).unwrap());
    assert!(gc.fails(Gate::Free).unwrap());
    gc.told(Some(Ok(()))).unwrap();
    assert!(!gc.enter(Gate::Free).unwrap());
    gc.job.as_mut().unwrap().deletion = true;
    assert_eq!(gc.leave(false, false, None).unwrap(), (false, true));
    assert!(gc.deletion);
    assert!(gc.stop(true).is_err());
    gc.stop(false).unwrap();
    assert!(!gc.deletion);

    let mut growth = GrowthRuntime::new();
    growth.start(Ok(ID)).unwrap();
    assert_eq!(growth.leave(true), (true, false));
    assert!(growth.failure(Gate::Free).unwrap().is_some());
    assert!(growth.failed(Err(Error::Busy)).is_err());
    assert_eq!(growth.broken(Err(Error::Busy)), Error::Busy);
    assert!(growth.enter(Gate::Free).unwrap());
    assert!(matches!(growth.broken(Ok(())), Error::InvalidState(_)));
    assert!(!growth.enter(Gate::Free).unwrap());
    assert!(growth.failure(Gate::Free).unwrap().is_none());

    let mut compaction = CompactionRuntime::new();
    CompactionRuntime::alone(&idle()).unwrap();
    assert!(CompactionRuntime::alone(&state(Phase::Prepare)).is_err());
    let two = CompactionOptions {
        workers: 2,
        ..options(CompactionAlgorithm::Lookup, false, false)
    };
    compaction.start(Ok(ID), two, 1, 1).unwrap();
    assert!(compaction.job.as_ref().unwrap().state.pooled);
    assert!(compaction.enter(Gate::Free).unwrap());
    assert!(compaction.fails(Gate::Free).unwrap());
    assert!(matches!(
        compaction.leave(true, true, Some(Error::OutOfMemory)),
        Err(Error::OutOfMemory)
    ));
    compaction.job.as_mut().unwrap().state.reported = true;
    assert_eq!(compaction.leave(false, true, None).unwrap(), (true, true));
    compaction.stop(false).unwrap();
}

#[test]
fn a_release_gives_its_mailbox_back_when_it_does_not_start_when_it_is_done_and_when_it_stops() {
    let mut hub = hub();
    let token = CheckpointToken([7; 16]);
    let mut runtime = ReleaseRuntime::new();
    let mailbox = hub.reserve(SessionId([1; 16])).unwrap();
    assert!(matches!(
        runtime.start(&mut hub, mailbox, Err(Error::CapacityExceeded), token),
        Err(Error::CapacityExceeded)
    ));
    assert_eq!(hub.occupied(), 0);
    let mailbox = hub.reserve(SessionId([1; 16])).unwrap();
    runtime.start(&mut hub, mailbox, Ok(ID), token).unwrap();
    assert!(runtime.enter(Gate::Free).unwrap());
    assert_eq!(
        runtime.leave(&mut hub, false, false, None).unwrap(),
        (false, false)
    );
    let report = runtime.job.as_mut().unwrap().fail().unwrap();
    assert!(matches!(report, Error::CheckpointReleaseFailed { .. }));
    assert!(matches!(
        runtime.leave(&mut hub, true, false, Some(Ok(()))),
        Err(Error::InvalidState(_))
    ));
    assert!(!runtime.enter(Gate::Free).unwrap());
    assert!(runtime.job.as_mut().unwrap().fail().is_none());
    runtime.told(None).unwrap();
    assert_eq!(
        runtime.leave(&mut hub, false, true, None).unwrap(),
        (true, true)
    );
    assert_eq!(hub.occupied(), 0);
    let mailbox = hub.reserve(SessionId([1; 16])).unwrap();
    runtime.start(&mut hub, mailbox, Ok(ID), token).unwrap();
    assert!(runtime.fails(Gate::Free).unwrap());
    assert!(runtime.stop(&mut hub, true).is_err());
    runtime.stop(&mut hub, false).unwrap();
    assert_eq!(hub.occupied(), 0);
}

fn options(algorithm: CompactionAlgorithm, checkpoint: bool, shift_begin: bool) -> CompactionOptions {
    CompactionOptions {
        algorithm,
        until: LogAddress(640),
        workers: 1,
        shift_begin,
        checkpoint,
    }
}

fn compact_step(
    job: &mut CompactionJob,
    script: Vec<(CompactionCall, Result<CompactionReply, Error>)>,
) -> Result<bool, Error> {
    let mut flow = job.begin()?;
    for (call, reply) in script {
        assert_eq!(flow, Flow::More);
        assert_eq!(job.state.call, call);
        flow = job.accept(reply, Memory::Granted)?;
    }
    match flow {
        Flow::Ended(advanced) => Ok(advanced),
        Flow::More => panic!("waits for {:?}", job.state.call),
    }
}

fn scanned(address: u64, key: &[u8], version: u64) -> Result<CompactionReply, Error> {
    Ok(CompactionReply::Scan(Scanned::Record(
        LogAddress(address),
        Ok(ScannedRecord {
            key: key.to_vec(),
            version: CheckpointVersion(version),
            invalid: false,
        }),
    )))
}

fn version() -> (CompactionCall, Result<CompactionReply, Error>) {
    (
        CompactionCall::Version,
        Ok(CompactionReply::Version(CheckpointVersion(3))),
    )
}

fn note(job: &mut CompactionJob, address: u64, key: &[u8]) -> Result<bool, Error> {
    compact_step(
        job,
        vec![(CompactionCall::ScanStep, scanned(address, key, 3)), version()],
    )
}

fn copy(job: &mut CompactionJob, result: Result<CopyResult, (Error, bool)>) -> Result<bool, Error> {
    compact_step(
        job,
        vec![(CompactionCall::CopyStep, Ok(CompactionReply::Copy(result)))],
    )
}

fn checkpoint_report() -> CheckpointReport {
    CheckpointReport {
        kind: CheckpointKind::Full,
        token: CheckpointToken([3; 16]),
        version: CheckpointVersion(3),
        begin: LogAddress(0),
        end: LogAddress(640),
        sessions: vec![],
    }
}

fn gc_report() -> GcReport {
    GcReport {
        begin: LogAddress(640),
        index_cleaned: true,
        deleted_segments: 1,
        physical: PhysicalReclamation::Completed,
    }
}

fn leave_copies() -> Vec<(CompactionCall, Result<CompactionReply, Error>)> {
    vec![
        (
            CompactionCall::FinishPhase,
            Ok(CompactionReply::Phase(Phase::Compacting)),
        ),
        (CompactionCall::Advance, Ok(CompactionReply::Done)),
        (CompactionCall::FinishAction, Ok(CompactionReply::Done)),
    ]
}

#[test]
fn a_deduplicating_compaction_copies_the_newest_records_in_key_order_then_checkpoints_then_truncates(
) {
    let mut job = CompactionJob::new(
        ID,
        options(CompactionAlgorithm::ScanDedup, true, true),
        2,
        4,
        false,
    );
    note(&mut job, 64, b"b").unwrap();
    note(&mut job, 128, b"aa").unwrap();
    note(&mut job, 192, b"b").unwrap();
    assert_eq!(job.candidates.len(), 2);
    assert_eq!(job.candidates.bytes(), 3);
    compact_step(
        &mut job,
        vec![(
            CompactionCall::ScanStep,
            Ok(CompactionReply::Scan(Scanned::End)),
        )],
    )
    .unwrap();
    for (key, address) in [(b"aa".to_vec(), 128), (b"b".to_vec(), 192)] {
        job.begin().unwrap();
        assert_eq!(job.state.call, CompactionCall::NewCopy);
        assert_eq!(job.next, Some((key, LogAddress(address))));
        job.accept(Ok(CompactionReply::Done), Memory::Granted)
            .unwrap();
        assert!(!copy(&mut job, Ok(CopyResult::Retry)).unwrap());
        copy(&mut job, Ok(CopyResult::Copied(LogAddress(700)))).unwrap();
    }
    assert_eq!(job.state.copied, 2);
    compact_step(&mut job, leave_copies()).unwrap();
    assert_eq!(job.state.stage, CompactionStage::StartCheckpoint);
    assert!(!compact_step(
        &mut job,
        vec![(CompactionCall::StartCheckpoint, Err(Error::Busy))]
    )
    .unwrap());
    compact_step(
        &mut job,
        vec![(CompactionCall::StartCheckpoint, Ok(CompactionReply::Done))],
    )
    .unwrap();
    assert!(!compact_step(
        &mut job,
        vec![(
            CompactionCall::TakeCheckpoint,
            Ok(CompactionReply::Checkpoint(None))
        )]
    )
    .unwrap());
    compact_step(
        &mut job,
        vec![(
            CompactionCall::TakeCheckpoint,
            Ok(CompactionReply::Checkpoint(Some(Ok(checkpoint_report())))),
        )],
    )
    .unwrap();
    compact_step(
        &mut job,
        vec![(CompactionCall::StartGc, Ok(CompactionReply::Done))],
    )
    .unwrap();
    compact_step(
        &mut job,
        vec![(
            CompactionCall::TakeGc,
            Ok(CompactionReply::Gc(Some(Ok(gc_report())))),
        )],
    )
    .unwrap();
    compact_step(
        &mut job,
        vec![(CompactionCall::Report, Ok(CompactionReply::Done))],
    )
    .unwrap();
    match job.state.result.take() {
        Some(Ok(report)) => {
            assert_eq!(report.copied, 2);
            assert_eq!(report.until, LogAddress(640));
            assert_eq!(report.checkpoint, Some(checkpoint_report()));
            assert_eq!(report.gc, Some(gc_report()));
        }
        other => panic!("no report: {other:?}"),
    }
    assert!(!job.is_active());
}

#[test]
fn keys_beyond_a_budget_and_records_of_the_future_stop_a_compaction_without_a_copy() {
    let dedup = options(CompactionAlgorithm::ScanDedup, false, false);
    let mut job = CompactionJob::new(ID, dedup, 1, 100, false);
    note(&mut job, 64, b"a").unwrap();
    assert!(matches!(
        note(&mut job, 128, b"b"),
        Err(Error::CapacityExceeded)
    ));
    let mut job = CompactionJob::new(ID, dedup, 100, 3, false);
    note(&mut job, 64, b"ab").unwrap();
    assert!(matches!(
        note(&mut job, 128, b"cd"),
        Err(Error::CapacityExceeded)
    ));
    note(&mut job, 192, b"ab").unwrap();
    let mut job = CompactionJob::new(ID, dedup, 100, 100, false);
    assert!(matches!(
        compact_step(
            &mut job,
            vec![(CompactionCall::ScanStep, scanned(64, b"a", 4)), version()]
        ),
        Err(Error::InvalidFormat(_))
    ));
    job.begin().unwrap();
    job.accept(scanned(64, b"a", 3), Memory::Granted).unwrap();
    assert!(matches!(
        job.accept(
            Ok(CompactionReply::Version(CheckpointVersion(3))),
            Memory::Refused
        ),
        Err(Error::OutOfMemory)
    ));
}

#[test]
fn a_copy_that_failed_after_it_was_published_is_counted_in_the_error() {
    let mut job = CompactionJob::new(
        ID,
        options(CompactionAlgorithm::Lookup, true, true),
        1,
        1,
        false,
    );
    compact_step(
        &mut job,
        vec![
            (CompactionCall::ScanStep, scanned(64, b"key", 3)),
            version(),
            (CompactionCall::NewCopy, Ok(CompactionReply::Done)),
        ],
    )
    .unwrap();
    let error = copy(&mut job, Err((Error::Busy, true))).unwrap_err();
    assert!(!job.conclude(false, Err(error)).fatal);
    let mut script = vec![
        (CompactionCall::DrainCopy, Ok(CompactionReply::Flag(true))),
        (CompactionCall::DrainScan, Ok(CompactionReply::Flag(true))),
    ];
    script.extend(leave_copies());
    script.push((CompactionCall::Report, Ok(CompactionReply::Done)));
    compact_step(&mut job, script).unwrap();
    assert_eq!(
        job.state.result,
        Some(Err(Error::CompactionFailed {
            until: LogAddress(640),
            copied: 1,
            checkpoint: None,
            gc: None,
            cause: Box::new(Error::Busy),
        }))
    );
}

#[test]
fn a_failing_engine_takes_the_results_of_what_was_started_before_it_reports() {
    let mut job = CompactionJob::new(
        ID,
        options(CompactionAlgorithm::Lookup, true, true),
        1,
        1,
        true,
    );
    job.state.stage = CompactionStage::Checkpoint;
    let failed = || Error::InvalidState("engine");
    job.fail(failed()).unwrap();
    assert_eq!(
        job.state.call,
        CompactionCall::Workers {
            order: Order::Abort,
            after: After::Fail
        }
    );
    let workers = |finished| {
        Ok(CompactionReply::Workers {
            copied: 4,
            failure: None,
            finished,
        })
    };
    assert_eq!(
        job.accept(workers(false), Memory::Granted).unwrap(),
        Flow::Ended(false)
    );
    job.fail(failed()).unwrap();
    job.accept(workers(true), Memory::Granted).unwrap();
    assert_eq!(job.state.call, CompactionCall::FailCheckpoint);
    job.accept(Ok(CompactionReply::Done), Memory::Granted)
        .unwrap();
    job.accept(
        Ok(CompactionReply::Checkpoint(Some(Ok(checkpoint_report())))),
        Memory::Granted,
    )
    .unwrap();
    assert_eq!(job.state.call, CompactionCall::Report);
    job.accept(Ok(CompactionReply::Done), Memory::Granted)
        .unwrap();
    assert_eq!(
        job.state.result,
        Some(Err(Error::CompactionFailed {
            until: LogAddress(640),
            copied: 4,
            checkpoint: Some(Box::new(checkpoint_report())),
            gc: None,
            cause: Box::new(failed()),
        }))
    );
    assert_eq!(job.fail(failed()).unwrap(), Flow::Ended(false));
}

#[test]
fn a_compaction_is_refused_before_anything_is_done() {
    let caps = capable();
    let good = options(CompactionAlgorithm::Lookup, true, true);
    compaction_admission(false, &good, 1, &caps, Gate::Free, false).unwrap();
    assert!(matches!(
        compaction_admission(true, &good, 1, &caps, Gate::Free, false),
        Err(Error::InvalidState(_))
    ));
    for workers in [0, 2] {
        let wrong = CompactionOptions { workers, ..good };
        assert!(matches!(
            compaction_admission(false, &wrong, 1, &caps, Gate::Free, false),
            Err(Error::InvalidConfig {
                field: "compaction.workers",
                ..
            })
        ));
    }
    let unlocked = DeviceCapabilities {
        supports_file_locks: false,
        ..caps
    };
    assert!(matches!(
        compaction_admission(false, &good, 1, &unlocked, Gate::Free, false),
        Err(Error::UnsupportedDurability)
    ));
    let blind = DeviceCapabilities {
        supports_directory_sync: false,
        ..caps
    };
    let shifting = options(CompactionAlgorithm::Lookup, false, true);
    assert!(matches!(
        compaction_admission(false, &shifting, 1, &blind, Gate::Free, false),
        Err(Error::UnsupportedDurability)
    ));
    assert!(matches!(
        compaction_admission(false, &good, 1, &caps, Gate::Held, false),
        Err(Error::Busy)
    ));
    let job = CompactionJob::new(ID, good, 1, 1, false);
    assert!(compaction_pending(Gate::Free, Some(&job), None).unwrap());
    assert!(!compaction_pending(Gate::Free, Some(&job), Some(MaintenanceId(6))).unwrap());
    assert!(compaction_pending(Gate::Held, None, None).unwrap());
    assert!(!compaction_pending(Gate::Free, None, None).unwrap());
    assert!(compaction_pending(Gate::Poisoned, None, None).is_err());
    assert!(workers_stopped(Gate::Free, false, false, false).unwrap());
    assert!(workers_stopped(Gate::Free, true, true, true).unwrap());
    assert!(!workers_stopped(Gate::Held, true, true, false).unwrap());
    assert!(matches!(
        workers_stopped(Gate::Free, true, false, true),
        Err(Error::DeadlineExceeded)
    ));
}

fn turn(
    budget: usize,
    script: Vec<(MaintenanceCall, Result<MaintenanceReply, Error>)>,
) -> (Result<Progress, Error>, bool) {
    let mut turn = MaintenanceTurn::new(PollBudget::new(budget).unwrap());
    for (call, reply) in script {
        assert_eq!(turn.call, call);
        if let MaintenanceFlow::Ended(result) = turn.accept(reply) {
            return (result, turn.fatal);
        }
    }
    panic!("waits for {:?}", turn.call);
}

fn start_turn() -> Vec<(MaintenanceCall, Result<MaintenanceReply, Error>)> {
    vec![
        (MaintenanceCall::Health, Ok(MaintenanceReply::Flag(false))),
        (
            MaintenanceCall::FirstState,
            Ok(MaintenanceReply::State(idle())),
        ),
        (MaintenanceCall::PollDevice, Ok(MaintenanceReply::Done)),
        (MaintenanceCall::Scans, Ok(MaintenanceReply::Done)),
        (MaintenanceCall::Storage, Ok(MaintenanceReply::Flag(false))),
    ]
}

fn round(completed: bool) -> Vec<(MaintenanceCall, Result<MaintenanceReply, Error>)> {
    let step = |advanced, completed| Ok(MaintenanceReply::Step { advanced, completed });
    vec![
        (MaintenanceCall::Checkpoint, step(false, false)),
        (MaintenanceCall::Growth, step(false, false)),
        (MaintenanceCall::Compaction, step(completed, completed)),
        (MaintenanceCall::Gc, step(false, false)),
        (MaintenanceCall::Release, step(false, false)),
    ]
}

#[test]
fn a_turn_steps_every_action_and_crosses_barriers_within_its_budget() {
    let mut script = start_turn();
    script.extend(round(true));
    script.push((MaintenanceCall::RoundState, Ok(MaintenanceReply::State(idle()))));
    script.push((MaintenanceCall::LastState, Ok(MaintenanceReply::State(idle()))));
    script.push((
        MaintenanceCall::CompactionPending,
        Ok(MaintenanceReply::Flag(true)),
    ));
    assert_eq!(
        turn(9, script),
        (
            Ok(Progress {
                completed: 1,
                remaining: 1,
                phase_advanced: true
            }),
            false
        )
    );
    let barrier = state(Phase::Prepare);
    let advance = MaintenanceCall::Advance {
        id: ID,
        phase: Phase::Prepare,
    };
    let mut script = start_turn();
    for _ in 0..2 {
        script.extend(round(false));
        script.push((
            MaintenanceCall::RoundState,
            Ok(MaintenanceReply::State(barrier)),
        ));
        script.push((advance, Ok(MaintenanceReply::Done)));
    }
    script.push((
        MaintenanceCall::LastState,
        Ok(MaintenanceReply::State(barrier)),
    ));
    assert_eq!(
        turn(2, script),
        (
            Ok(Progress {
                completed: 0,
                remaining: 1,
                phase_advanced: true
            }),
            false
        )
    );
    let mut script = start_turn();
    script.extend(round(false));
    script.push((
        MaintenanceCall::RoundState,
        Ok(MaintenanceReply::State(barrier)),
    ));
    script.push((advance, Err(Error::Busy)));
    script.push((
        MaintenanceCall::LastState,
        Ok(MaintenanceReply::State(barrier)),
    ));
    assert!(matches!(
        turn(2, script),
        (
            Ok(Progress {
                phase_advanced: false,
                ..
            }),
            false
        )
    ));
}

#[test]
fn a_turn_that_fails_lets_every_action_fail_and_keeps_the_first_error() {
    let fail = |mut script: Vec<(MaintenanceCall, Result<MaintenanceReply, Error>)>| {
        for call in [
            MaintenanceCall::FailCheckpoint,
            MaintenanceCall::FailGrowth,
            MaintenanceCall::FailCompaction,
            MaintenanceCall::FailGc,
            MaintenanceCall::FailRelease,
        ] {
            script.push((call, Ok(MaintenanceReply::Done)));
        }
        script.push((
            MaintenanceCall::FailState,
            Ok(MaintenanceReply::State(state(Phase::Prepare))),
        ));
        script.push((
            MaintenanceCall::FailAction { id: ID },
            Ok(MaintenanceReply::Done),
        ));
        turn(3, script)
    };
    let (result, fatal) = fail(vec![(
        MaintenanceCall::Health,
        Ok(MaintenanceReply::Flag(true)),
    )]);
    assert!(fatal);
    assert!(matches!(result, Err(Error::InvalidState(_))));
    let mut script = start_turn();
    script.extend(round(false));
    let barrier = state(Phase::InProgress);
    script.push((
        MaintenanceCall::RoundState,
        Ok(MaintenanceReply::State(barrier)),
    ));
    script.push((
        MaintenanceCall::Advance {
            id: ID,
            phase: Phase::InProgress,
        },
        Err(Error::CapacityExceeded),
    ));
    script.push((
        MaintenanceCall::AdvanceState,
        Ok(MaintenanceReply::State(barrier)),
    ));
    assert_eq!(fail(script), (Err(Error::CapacityExceeded), true));
}
