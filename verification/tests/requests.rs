use rasterkv::allocation::Memory;
use rasterkv::device::IoCompletion;
use rasterkv::engine::admission::{
    accept_serial, complete_tracked, finish_request, key_buffer, prepare, record_ready,
};
use rasterkv::engine::cache::{
    resolve_index, resolver, snapshot_gates, snapshot_index, ImageEntry, PopulateCall,
    PopulateFlow, PopulateReply, Population, Resolver,
};
use rasterkv::engine::candidates::Candidates;
use rasterkv::engine::common::{Action, CoordinatorState, Frontiers, Gate, Phase};
use rasterkv::engine::compaction_workers::{ThreadState, Turn, Workers};
use rasterkv::engine::conditional_copy::{
    ConditionalCopy, CopyCall, CopyFlow, CopyReply, CopyResult, LookupStep, SourceRecord,
};
use rasterkv::engine::copy_admission::{
    CopyAdmission, CopyAdmissionCall, CopyAdmissionFlow, CopyAdmissionReply,
};
use rasterkv::engine::delete::{
    cancel_delete, reserve_delete, DeleteCall, DeleteEnd, DeleteFlow, DeleteJob, DeleteOptions,
    DeleteOutcome, DeleteReply, DeleteTask, Lease, Marked,
};
use rasterkv::engine::delete_admission::{
    AdmissionCall, AdmissionFlow, AdmissionReply, DeleteAdmission,
};
use rasterkv::engine::index::{EntrySnapshot, IndexHead, PublishResult, Resolved};
use rasterkv::engine::io_hub::CompletionHub;
use rasterkv::engine::metrics::{Completed, Kind, Metrics};
use rasterkv::engine::observe::{
    ObserveCall, ObserveFlow, ObserveReply, Observation, Observer, ROUNDS,
};
use rasterkv::engine::pending::{RegisteredSession, SessionRuntime};
use rasterkv::types::{
    CheckpointVersion, Effect, Error, IoId, KeyHash, LogAddress, MaintenanceId, OperationError,
    Outcome, Serial, SessionId, StoreId,
};

const ACTION: MaintenanceId = MaintenanceId(7);
const OWNER: SessionId = SessionId([2; 16]);

fn hub(capacity: usize) -> CompletionHub {
    CompletionHub::new(StoreId([1; 16]), capacity, 1).unwrap()
}

fn session(hub: &mut CompletionHub, metrics: &mut Metrics) -> SessionRuntime {
    SessionRuntime::new(
        OWNER,
        RegisteredSession {
            version: CheckpointVersion(1),
            last_accepted: Some(Serial(4)),
        },
        metrics.register().unwrap(),
        hub.session_routes(OWNER, 1).unwrap(),
    )
}

fn state(id: Option<MaintenanceId>, phase: Phase, version: u64) -> CoordinatorState {
    CoordinatorState {
        id,
        action: id.map(|_| Action::Compact),
        phase,
        version: CheckpointVersion(version),
    }
}

fn compacting() -> CoordinatorState {
    state(Some(ACTION), Phase::Compacting, 1)
}

fn frontiers(begin: u64, tail: u64) -> Frontiers {
    Frontiers {
        begin: LogAddress(begin),
        head: LogAddress(begin),
        safe_head: LogAddress(tail),
        flushed_until: LogAddress(tail),
        safe_read_only: LogAddress(tail),
        read_only: LogAddress(tail),
        tail: LogAddress(tail),
    }
}

fn found(head: Option<u64>, stamp: u64) -> Resolved {
    Resolved {
        entry: EntrySnapshot {
            bucket: 1,
            place: 2,
            stamp,
            present: head.is_some(),
            head: match head {
                Some(address) => IndexHead::Log(LogAddress(address)),
                None => IndexHead::Empty,
            },
        },
        head: head.map(LogAddress),
    }
}

fn new_copy(hub: &mut CompletionHub, metrics: &mut Metrics) -> ConditionalCopy {
    ConditionalCopy::new(
        hub,
        metrics,
        OWNER,
        ACTION,
        CheckpointVersion(1),
        LogAddress(128),
        b"key".to_vec(),
        KeyHash(9),
    )
    .unwrap()
}

fn copy_step(
    copy: &mut ConditionalCopy,
    script: Vec<(CopyCall, Result<CopyReply, Error>)>,
) -> CopyFlow {
    copy.job.begin(true, false, Ok(compacting())).unwrap();
    let mut flow = CopyFlow::More;
    for (call, reply) in script {
        assert!(matches!(flow, CopyFlow::More));
        assert_eq!(copy.job.call, call);
        flow = copy.accept(reply);
    }
    flow
}

fn enter() -> Vec<(CopyCall, Result<CopyReply, Error>)> {
    vec![
        (CopyCall::Permit, Ok(CopyReply::Flag(true))),
        (CopyCall::Gate, Ok(CopyReply::Gate(Gate::Free))),
        (CopyCall::Take, Ok(CopyReply::Flag(false))),
    ]
}

fn look_up(matched: u64) -> Vec<(CopyCall, Result<CopyReply, Error>)> {
    let mut script = enter();
    script.push((CopyCall::Resolve, Ok(CopyReply::Resolved(found(Some(256), 1)))));
    script.push((
        CopyCall::StartLookup {
            head: Some(LogAddress(256)),
        },
        Ok(CopyReply::Done),
    ));
    script.push((
        CopyCall::StepLookup,
        Ok(CopyReply::Lookup {
            step: LookupStep::Present,
            matched: Some(LogAddress(matched)),
        }),
    ));
    script
}

fn source(version: u64, tombstone: bool) -> Result<CopyReply, Error> {
    Ok(CopyReply::Source(Ok(SourceRecord {
        key: b"key".to_vec(),
        version: CheckpointVersion(version),
        invalid: false,
        tombstone,
        previous: Some(LogAddress(64)),
    })))
}

fn confirmed() -> Vec<(CopyCall, Result<CopyReply, Error>)> {
    let mut script = look_up(128);
    script.push((CopyCall::Confirm, Ok(CopyReply::Resolved(found(Some(256), 1)))));
    script
}

fn written(published: PublishResult) -> Vec<(CopyCall, Result<CopyReply, Error>)> {
    let head = Some(LogAddress(256));
    let address = LogAddress(512);
    let mut script = confirmed();
    script.push((CopyCall::ReadSource, source(1, false)));
    script.push((CopyCall::Plan, Ok(CopyReply::Done)));
    script.push((CopyCall::Fits, Ok(CopyReply::Done)));
    script.push((CopyCall::Allocate { head }, Ok(CopyReply::Done)));
    script.push((CopyCall::WriteValue, Ok(CopyReply::Done)));
    script.push((CopyCall::Initialize, Ok(CopyReply::Address(address))));
    script.push((
        CopyCall::Publish { address },
        Ok(CopyReply::Publish(published)),
    ));
    script
}

#[test]
fn a_copy_is_published_over_the_entry_it_was_found_in_and_counted_once() {
    let mut hub = hub(2);
    let mut metrics = Metrics::new(true);
    let mut copy = new_copy(&mut hub, &mut metrics);
    assert_eq!(hub.occupied(), 1);
    let mut lost = written(PublishResult::Conflict);
    lost.push((
        CopyCall::Retire {
            address: LogAddress(512),
        },
        Ok(CopyReply::Done),
    ));
    let flow = copy_step(&mut copy, lost);
    assert!(matches!(
        copy.settle(&mut hub, &mut metrics, flow, false),
        Ok(CopyResult::Retry)
    ));
    assert_eq!(copy.published_address(), None);
    let flow = copy_step(&mut copy, written(PublishResult::Published));
    assert!(matches!(
        copy.settle(&mut hub, &mut metrics, flow, false),
        Ok(CopyResult::Copied(LogAddress(512)))
    ));
    assert_eq!(copy.published_address(), Some(LogAddress(512)));
    assert_eq!(hub.occupied(), 0);
    let copies = metrics.snapshot().conditional_copies;
    assert_eq!((copies.accepted, copies.success), (1, 1));
    assert_eq!(copies.record_invalidations, 1);
    assert!(matches!(
        copy.job.begin(true, false, Ok(compacting())),
        Err(Error::InvalidState(_))
    ));
    copy.abandon(&mut hub, &mut metrics, false);
    assert_eq!(metrics.snapshot().conditional_copies.completed, 1);
}

#[test]
fn a_copy_that_looks_nothing_up_may_get_no_completion() {
    let mut hub = hub(1);
    let mut metrics = Metrics::new(true);
    let mut copy = new_copy(&mut hub, &mut metrics);
    assert!(matches!(copy.collect(&mut hub), Ok(None)));
    let route = CompletionHub::route(copy.id.unwrap());
    let arrived = || IoCompletion {
        id: IoId(1),
        route,
        result: Err(Error::Busy),
        buffer: None,
    };
    assert!(matches!(hub.deliver(vec![arrived()], None), Ok(1)));
    assert!(matches!(
        copy.collect(&mut hub),
        Err(Error::InvalidState("条件复制未等待磁盘查询"))
    ));
    assert!(matches!(copy.collect(&mut hub), Ok(None)));
    assert!(matches!(copy.take(&mut hub), Ok(None)));
    assert!(matches!(hub.deliver(vec![arrived()], None), Ok(1)));
    copy.job.lookup = Some(found(Some(256), 1).entry);
    assert!(matches!(copy.collect(&mut hub), Ok(Some(_))));
    copy.job.lookup = None;
    assert!(matches!(copy.drain(&mut hub, &mut metrics, true), Ok(true)));
    assert!(matches!(copy.collect(&mut hub), Ok(None)));
    assert!(matches!(copy.take(&mut hub), Err(Error::InvalidState(_))));
}

#[test]
fn a_source_that_is_not_the_newest_of_its_key_is_not_copied() {
    let mut hub = hub(1);
    let mut metrics = Metrics::new(true);
    let mut copy = new_copy(&mut hub, &mut metrics);
    let mut moved = look_up(128);
    moved.push((CopyCall::Confirm, Ok(CopyReply::Resolved(found(Some(300), 2)))));
    assert!(matches!(
        copy_step(&mut copy, moved),
        CopyFlow::Tried(Ok(CopyResult::Retry))
    ));
    let mut newer = look_up(192);
    newer.push((CopyCall::Confirm, Ok(CopyReply::Resolved(found(Some(256), 1)))));
    let flow = copy_step(&mut copy, newer);
    assert!(matches!(
        copy.settle(&mut hub, &mut metrics, flow, false),
        Ok(CopyResult::Obsolete)
    ));
    assert_eq!(metrics.snapshot().conditional_copies.not_found, 1);
}

#[test]
fn a_copy_keeps_a_tombstone_and_refuses_a_record_of_the_future() {
    let mut hub = hub(1);
    let mut metrics = Metrics::new(true);
    let mut copy = new_copy(&mut hub, &mut metrics);
    let mut full = confirmed();
    full.push((CopyCall::ReadSource, source(1, true)));
    full.push((
        CopyCall::ReserveTombstone {
            head: Some(LogAddress(256)),
        },
        Err(Error::CapacityExceeded),
    ));
    full.push((CopyCall::SupportsFiles, Ok(CopyReply::Flag(true))));
    assert!(matches!(
        copy_step(&mut copy, full),
        CopyFlow::Tried(Ok(CopyResult::Retry))
    ));
    let mut truncated = confirmed();
    truncated.push((CopyCall::ReadSource, Err(Error::RangeTruncated)));
    truncated.push((
        CopyCall::Frontiers,
        Ok(CopyReply::Frontiers(frontiers(200, 600))),
    ));
    assert!(matches!(
        copy_step(&mut copy, truncated),
        CopyFlow::Tried(Err(Error::RangeTruncated))
    ));
    let mut future = confirmed();
    future.push((CopyCall::ReadSource, source(2, false)));
    let flow = copy_step(&mut copy, future);
    assert!(matches!(
        copy.settle(&mut hub, &mut metrics, flow, false),
        Err(Error::InvalidFormat(_))
    ));
    assert_eq!(metrics.snapshot().conditional_copies.failed, 1);
}

#[test]
fn a_copy_that_waits_for_the_device_keeps_its_mailbox_until_it_is_drained() {
    let mut hub = hub(1);
    let mut metrics = Metrics::new(true);
    let mut copy = new_copy(&mut hub, &mut metrics);
    assert!(copy.take(&mut hub).unwrap().is_none());
    let mut script = look_up(128);
    script.pop();
    script.push((
        CopyCall::StepLookup,
        Ok(CopyReply::Lookup {
            step: LookupStep::AwaitingIo,
            matched: None,
        }),
    ));
    let flow = copy_step(&mut copy, script);
    copy.settle(&mut hub, &mut metrics, flow, true).unwrap();
    assert!(copy.has_inflight(true));
    assert!(!copy.has_inflight(false));
    assert!(!copy.drain(&mut hub, &mut metrics, true).unwrap());
    assert_eq!(hub.occupied(), 1);
    assert!(copy.drain(&mut hub, &mut metrics, false).unwrap());
    assert_eq!(hub.occupied(), 0);
    assert_eq!(metrics.snapshot().conditional_copies.aborted, 1);
    assert_eq!(copy.key_copy(Memory::Allocator).unwrap(), b"key");
    assert!(matches!(
        copy.key_copy(Memory::Refused),
        Err(Error::OutOfMemory)
    ));
}

#[test]
fn a_copy_belongs_to_one_action_of_one_engine() {
    let mut hub = hub(1);
    let mut metrics = Metrics::new(false);
    let mut copy = new_copy(&mut hub, &mut metrics);
    assert!(copy.job.begin(false, false, Ok(compacting())).is_err());
    assert!(copy.job.begin(true, true, Ok(compacting())).is_err());
    assert!(copy
        .job
        .begin(true, false, Ok(state(Some(ACTION), Phase::Compacting, 2)))
        .is_err());
    assert!(matches!(
        copy.job.begin(true, false, Err(Error::Busy)),
        Err(Error::Busy)
    ));
    let flow = copy_step(&mut copy, vec![(CopyCall::Permit, Ok(CopyReply::Flag(false)))]);
    assert!(matches!(flow, CopyFlow::Waits(Ok(CopyResult::Retry))));
    let flow = copy_step(&mut copy, vec![(CopyCall::Permit, Err(Error::Busy))]);
    assert!(matches!(
        copy.settle(&mut hub, &mut metrics, flow, false),
        Err(Error::Busy)
    ));
    assert!(!copy.job.ended);
}

fn ready_copy(
    hub: &mut CompletionHub,
    metrics: &mut Metrics,
    source: u64,
    script: Vec<(CopyAdmissionCall, Result<CopyAdmissionReply, Error>)>,
) -> CopyAdmissionFlow {
    let mut flow = CopyAdmissionFlow::More(CopyAdmission::begin(
        OWNER,
        ACTION,
        LogAddress(source),
        b"key".to_vec(),
    ));
    for (call, reply) in script {
        flow = match flow {
            CopyAdmissionFlow::More(admission) => {
                assert_eq!(admission.call, call);
                admission.accept(hub, metrics, reply)
            }
            _ => panic!("over before {:?}", call),
        };
    }
    flow
}

fn copy_script(
    closed: bool,
    hash: Result<CopyAdmissionReply, Error>,
) -> Vec<(CopyAdmissionCall, Result<CopyAdmissionReply, Error>)> {
    vec![
        (
            CopyAdmissionCall::State,
            Ok(CopyAdmissionReply::State(compacting())),
        ),
        (CopyAdmissionCall::Closed, Ok(CopyAdmissionReply::Flag(closed))),
        (CopyAdmissionCall::Check, Ok(CopyAdmissionReply::Done)),
        (
            CopyAdmissionCall::Frontiers,
            Ok(CopyAdmissionReply::Frontiers(frontiers(64, 128))),
        ),
        (CopyAdmissionCall::Hash, hash),
        (CopyAdmissionCall::Permit, Ok(CopyAdmissionReply::Done)),
    ]
}

#[test]
fn a_copy_is_made_ready_in_order_or_leaves_nothing_behind() {
    let mut hub = hub(1);
    let mut metrics = Metrics::new(true);
    let hash = || Ok(CopyAdmissionReply::Hash(KeyHash(9)));
    let refusal = |flow: CopyAdmissionFlow| match flow {
        CopyAdmissionFlow::Refused { error, fatal } => (error, fatal),
        _ => panic!("not refused"),
    };
    let mut script = copy_script(true, hash());
    script.truncate(2);
    let (error, fatal) = refusal(ready_copy(&mut hub, &mut metrics, 64, script));
    assert!(matches!(error, Error::InvalidState(_)) && !fatal);
    for (source, truncated) in [(63, true), (128, false)] {
        let mut script = copy_script(false, hash());
        script.truncate(4);
        let (error, fatal) = refusal(ready_copy(&mut hub, &mut metrics, source, script));
        assert_eq!(matches!(error, Error::RangeTruncated), truncated);
        assert_eq!(matches!(error, Error::InvalidFormat(_)), !truncated);
        assert!(!fatal);
    }
    for (error, fatal) in [
        (Error::InvalidState("codec"), true),
        (Error::InvalidFormat("key"), false),
    ] {
        let mut script = copy_script(false, Err(error));
        script.truncate(5);
        assert_eq!(refusal(ready_copy(&mut hub, &mut metrics, 64, script)).1, fatal);
    }
    let idle = vec![(
        CopyAdmissionCall::State,
        Ok(CopyAdmissionReply::State(CoordinatorState {
            phase: Phase::Rest,
            ..compacting()
        })),
    )];
    assert!(!refusal(ready_copy(&mut hub, &mut metrics, 64, idle)).1);
    let begun = CopyAdmission::begin(OWNER, ACTION, LogAddress(64), Vec::new());
    assert!(refusal(begun.panicked()).1);
    assert_eq!(hub.occupied(), 0);
    let copy = match ready_copy(&mut hub, &mut metrics, 64, copy_script(false, hash())) {
        CopyAdmissionFlow::Ready(copy) => copy,
        _ => panic!("not ready"),
    };
    assert_eq!(copy.job.key, b"key".to_vec());
    assert_eq!(
        (copy.job.source, copy.job.hash, copy.job.version),
        (LogAddress(64), KeyHash(9), compacting().version)
    );
    assert_eq!(hub.occupied(), 1);
    let (error, fatal) = refusal(ready_copy(
        &mut hub,
        &mut metrics,
        64,
        copy_script(false, hash()),
    ));
    assert!(matches!(error, Error::Busy) && !fatal);
    copy.abandon(&mut hub, &mut metrics, false);
    assert_eq!(hub.occupied(), 0);
}

fn take_in(
    session: &mut SessionRuntime,
    hub: &mut CompletionHub,
    serial: u64,
    memory: Memory,
    script: Vec<(AdmissionCall, Result<AdmissionReply, Error>)>,
) -> AdmissionFlow {
    let mut flow = AdmissionFlow::More(DeleteAdmission::begin(Serial(serial), 2, 2));
    for (call, reply) in script {
        flow = match flow {
            AdmissionFlow::More(mut admission) => {
                assert_eq!(admission.call, call);
                if call == AdmissionCall::Encode {
                    assert_eq!(admission.key, vec![0, 0, 0]);
                    admission.key.copy_from_slice(b"key");
                }
                admission.accept(session, hub, reply, memory)
            }
            _ => panic!("over before {:?}", call),
        };
    }
    flow
}

fn places(session: &SessionRuntime) -> usize {
    session.results.iter().filter(|held| **held > 0).count()
}

fn admission_script() -> Vec<(AdmissionCall, Result<AdmissionReply, Error>)> {
    vec![
        (AdmissionCall::Observe, Ok(AdmissionReply::Done)),
        (AdmissionCall::Health, Ok(AdmissionReply::Flag(false))),
        (
            AdmissionCall::Measure,
            Ok(AdmissionReply::Measured {
                hash: KeyHash(9),
                len: 3,
            }),
        ),
        (AdmissionCall::Encode, Ok(AdmissionReply::Done)),
        (AdmissionCall::Gate, Ok(AdmissionReply::Gate(Gate::Free))),
        (AdmissionCall::Permit, Ok(AdmissionReply::Done)),
        (AdmissionCall::Closing, Ok(AdmissionReply::Flag(false))),
        (AdmissionCall::Serial, Ok(AdmissionReply::Done)),
    ]
}

#[test]
fn a_delete_is_taken_in_whole_or_leaves_nothing_behind() {
    let mut hub = hub(2);
    let mut metrics = Metrics::new(true);
    let mut session = SessionRuntime::new(
        OWNER,
        RegisteredSession {
            version: CheckpointVersion(1),
            last_accepted: Some(Serial(4)),
        },
        metrics.register().unwrap(),
        CompletionHub::new(StoreId([1; 16]), 1, 2)
            .unwrap()
            .session_routes(OWNER, 1)
            .unwrap(),
    );
    for at in 0..admission_script().len() {
        let mut script = admission_script();
        script.truncate(at + 1);
        let call = script[at].0;
        script[at].1 = Err(Error::Busy);
        match take_in(&mut session, &mut hub, 5, Memory::Granted, script) {
            AdmissionFlow::Refused(Error::Busy) => {}
            _ => panic!("{:?} did not refuse", call),
        }
        assert_eq!((hub.occupied(), places(&session)), (0, 0));
        assert_eq!(session.current.last_accepted, Some(Serial(4)));
    }
    for (at, reply) in [
        (1, AdmissionReply::Flag(true)),
        (4, AdmissionReply::Gate(Gate::Held)),
        (6, AdmissionReply::Flag(true)),
    ] {
        let mut script = admission_script();
        script.truncate(at + 1);
        script[at].1 = Ok(reply);
        let flow = take_in(&mut session, &mut hub, 5, Memory::Granted, script);
        assert!(matches!(flow, AdmissionFlow::Refused(_)));
        assert_eq!((hub.occupied(), places(&session)), (0, 0));
    }
    for (serial, memory, at) in [(4, Memory::Granted, 1), (5, Memory::Refused, 2)] {
        let mut script = admission_script();
        script.truncate(at + 1);
        let flow = take_in(&mut session, &mut hub, serial, memory, script);
        assert!(matches!(flow, AdmissionFlow::Refused(_)));
    }
    let mut script = admission_script();
    script.truncate(6);
    match take_in(&mut session, &mut hub, 5, Memory::Granted, script) {
        AdmissionFlow::More(admission) => {
            assert_eq!((hub.occupied(), places(&session)), (1, 1));
            let flow = admission.panicked(&mut session, &mut hub);
            assert!(matches!(
                flow,
                AdmissionFlow::Refused(Error::InvalidState(_))
            ));
        }
        _ => panic!("over"),
    }
    assert_eq!((hub.occupied(), places(&session)), (0, 0));
    match take_in(
        &mut session,
        &mut hub,
        5,
        Memory::Granted,
        admission_script(),
    ) {
        AdmissionFlow::Accepted(accepted) => {
            assert_eq!(accepted.key, b"key".to_vec());
            assert_eq!(accepted.hash, KeyHash(9));
            assert_eq!((hub.occupied(), places(&session)), (1, 1));
            assert_eq!(session.current.last_accepted, Some(Serial(5)));
            cancel_delete(&mut session, &mut hub, accepted.reservation);
        }
        _ => panic!("not accepted"),
    }
    assert_eq!((hub.occupied(), places(&session)), (0, 0));
}

#[test]
fn what_asks_for_no_room_is_never_refused() {
    assert_eq!(key_buffer(0, Memory::Refused), Ok(Vec::new()));
    assert_eq!(key_buffer(1, Memory::Refused), Err(Error::OutOfMemory));
    snapshot_gates(&[], Memory::Refused).unwrap();
    assert!(matches!(
        Population::begin(true, &[], Memory::Refused),
        Ok(Some(_))
    ));
    assert!(Workers::new(0, Memory::Refused).is_ok());
}

#[test]
fn workers_that_are_done_have_counted_every_copy_that_was_published() {
    let mut hub = hub(4);
    let mut metrics = Metrics::new(true);
    let mut workers = Workers::new(2, Memory::Granted).unwrap();
    let made = [true, false, true, true, false];
    for (i, published) in made.iter().enumerate() {
        let submitted = new_copy(&mut hub, &mut metrics);
        assert!(workers.submit(submitted).is_ok());
        if i % 2 == 1 {
            let waiting = workers.begin(0);
            assert!(workers.end(0, waiting, Ok(false)).unwrap().done.is_none());
        }
        let mut copy = workers.begin(0);
        if *published {
            let flow = copy_step(&mut copy, written(PublishResult::Published));
            copy.settle(&mut hub, &mut metrics, flow, false).unwrap();
        }
        let turned = workers.end(0, copy, Ok(true)).unwrap();
        turned.done.unwrap().abandon(&mut hub, &mut metrics, false);
    }
    workers.close();
    let ended = [ThreadState::Ended, ThreadState::Ended];
    let progress = workers.poll(&ended).progress.unwrap();
    assert_eq!(progress.copied, 3);
    assert_eq!(workers.issued, 5);
    assert!(progress.finished && progress.failure.is_none());
    assert_eq!((workers.turn(0), workers.turn(1)), (Turn::Exit, Turn::Exit));
}

#[test]
fn workers_take_one_copy_each_count_what_is_published_and_keep_the_first_error() {
    let mut hub = hub(4);
    let mut metrics = Metrics::new(true);
    let mut workers = Workers::new(2, Memory::Allocator).unwrap();
    assert_eq!(workers.turn(0), Turn::Wait);
    for _ in 0..2 {
        let copy = new_copy(&mut hub, &mut metrics);
        assert!(workers.submit(copy).is_ok());
    }
    let extra = new_copy(&mut hub, &mut metrics);
    match workers.submit(extra) {
        Err(rejected) => {
            assert!(matches!(rejected.reason, Error::Busy));
            rejected.request.abandon(&mut hub, &mut metrics, false);
        }
        Ok(()) => panic!("no lane was empty"),
    }
    assert_eq!(workers.turn(0), Turn::Work);
    workers.preflight(0).unwrap();
    let mut copy = workers.begin(0);
    let flow = copy_step(&mut copy, written(PublishResult::Published));
    copy.settle(&mut hub, &mut metrics, flow, false).unwrap();
    let running = [ThreadState::Running, ThreadState::Running];
    assert_eq!(workers.poll(&running).progress.unwrap().copied, 0);
    let turned = workers.end(0, copy, Ok(true)).unwrap();
    assert!(!turned.fatal);
    turned
        .done
        .unwrap()
        .abandon(&mut hub, &mut metrics, false);
    let copy = workers.begin(1);
    assert!(!workers.end(1, copy, Err(Error::Busy)).unwrap().fatal);
    let polled = workers.poll(&running);
    assert!(!polled.fatal);
    let progress = polled.progress.unwrap();
    assert_eq!(progress.copied, 1);
    assert!(matches!(progress.failure, Some(Error::Busy)));
    assert!(!progress.finished);
    assert_eq!(workers.turn(0), Turn::Exit);
    assert_eq!(workers.turn(1), Turn::Work);
    let copy = workers.begin(1);
    assert!(workers
        .end(1, copy, Err(Error::InvalidState("broken")))
        .unwrap()
        .fatal);
    workers.leave(1).unwrap();
    let polled = workers.poll(&[ThreadState::Ended, ThreadState::Panicked]);
    assert!(polled.fatal);
    let progress = polled.progress.unwrap();
    assert_eq!(progress.failure, Some(Error::InvalidState("broken")));
    assert!(progress.finished);
    assert_eq!(workers.error, None);
    assert!(matches!(
        Workers::new(1, Memory::Refused),
        Err(Error::OutOfMemory)
    ));
}

#[test]
fn candidates_keep_the_newest_address_of_each_key_and_come_out_in_order() {
    let mut candidates = Candidates::new();
    for (key, address) in [("b", 1), ("aa", 2), ("", 3), ("b", 4), ("ab", 5)] {
        candidates
            .note(key.as_bytes().to_vec(), LogAddress(address), 4, 5)
            .unwrap();
    }
    assert_eq!((candidates.len(), candidates.bytes()), (4, 5));
    assert!(matches!(
        candidates.note(b"c".to_vec(), LogAddress(6), 4, 9),
        Err(Error::CapacityExceeded)
    ));
    assert!(matches!(
        candidates.note(b"c".to_vec(), LogAddress(6), 9, 5),
        Err(Error::CapacityExceeded)
    ));
    for (key, address) in [("", 3), ("aa", 2), ("ab", 5), ("b", 4)] {
        assert_eq!(
            candidates.pop_first(),
            Some((key.as_bytes().to_vec(), LogAddress(address)))
        );
    }
    assert_eq!(candidates.pop_first(), None);
    assert_eq!(candidates.bytes(), 0);
}

fn delete(force_tombstone: bool) -> DeleteJob {
    DeleteJob::new(
        DeleteOptions { force_tombstone },
        b"key".to_vec(),
        KeyHash(9),
        CheckpointVersion(1),
    )
}

fn delete_step(
    job: &mut DeleteJob,
    script: Vec<(DeleteCall, Result<DeleteReply, Error>)>,
) -> DeleteFlow {
    let mut flow = job.begin(false);
    for (call, reply) in script {
        assert_eq!(flow, DeleteFlow::More);
        assert_eq!(job.call, call);
        flow = job.accept(reply);
    }
    flow
}

fn resolved(head: Option<u64>) -> Vec<(DeleteCall, Result<DeleteReply, Error>)> {
    vec![
        (DeleteCall::Gate, Ok(DeleteReply::Gate(Gate::Free))),
        (DeleteCall::Health, Ok(DeleteReply::Flag(false))),
        (DeleteCall::Permit, Ok(DeleteReply::Flag(true))),
        (
            DeleteCall::Resolve,
            Ok(DeleteReply::Resolved(found(head, 1))),
        ),
    ]
}

fn leased(previous: Option<u64>) -> Vec<(DeleteCall, Result<DeleteReply, Error>)> {
    let mut script = resolved(Some(256));
    script.push((
        DeleteCall::FindMutable {
            head: Some(LogAddress(256)),
        },
        Ok(DeleteReply::Lease(Some(Lease {
            address: Ok(LogAddress(256)),
            previous: previous.map(LogAddress),
        }))),
    ));
    script.push((DeleteCall::Begin, Ok(DeleteReply::Begin(LogAddress(128)))));
    script
}

#[test]
fn the_only_record_of_a_chain_leaves_the_index_and_another_becomes_a_tombstone() {
    for (force, previous, outcome) in [
        (false, None, DeleteOutcome::IndexRemoved),
        (false, Some(64), DeleteOutcome::IndexRemoved),
        (false, Some(128), DeleteOutcome::TombstoneWritten),
        (true, None, DeleteOutcome::TombstoneWritten),
    ] {
        let mut job = delete(force);
        let mut script = leased(previous);
        let head = if outcome == DeleteOutcome::IndexRemoved {
            IndexHead::Empty
        } else {
            IndexHead::Log(LogAddress(256))
        };
        script.push((
            DeleteCall::Mark { entry: head },
            Ok(DeleteReply::Marked(Marked::Published)),
        ));
        assert_eq!(
            delete_step(&mut job, script),
            DeleteFlow::Ended(DeleteEnd::Deleted(outcome))
        );
        assert_eq!(job.effect, Effect::Applied);
    }
}

#[test]
fn a_missing_key_is_not_found_unless_a_tombstone_is_forced() {
    assert_eq!(
        delete_step(&mut delete(false), resolved(None)),
        DeleteFlow::Ended(DeleteEnd::NotFound)
    );
    let mut job = delete(true);
    let address = LogAddress(512);
    let mut script = resolved(None);
    script.push((
        DeleteCall::FindMutable { head: None },
        Ok(DeleteReply::Lease(None)),
    ));
    script.push((DeleteCall::Fits, Ok(DeleteReply::Done)));
    script.push((DeleteCall::Reserve { head: None }, Ok(DeleteReply::Done)));
    script.push((DeleteCall::Initialize, Ok(DeleteReply::Address(address))));
    script.push((
        DeleteCall::Publish { address },
        Ok(DeleteReply::Publish(PublishResult::Conflict)),
    ));
    script.push((DeleteCall::Retire { address }, Ok(DeleteReply::Done)));
    assert_eq!(delete_step(&mut job, script), DeleteFlow::Retry);
    assert_eq!(job.effect, Effect::NotApplied);
    let mut script = resolved(None);
    script.push((
        DeleteCall::FindMutable { head: None },
        Ok(DeleteReply::Lease(None)),
    ));
    script.push((DeleteCall::Fits, Ok(DeleteReply::Done)));
    script.push((
        DeleteCall::Reserve { head: None },
        Err(Error::CapacityExceeded),
    ));
    script.push((DeleteCall::SupportsFiles, Ok(DeleteReply::Flag(false))));
    assert_eq!(
        delete_step(&mut job, script),
        DeleteFlow::Ended(DeleteEnd::Failed(OperationError {
            cause: Error::CapacityExceeded,
            effect: Effect::NotApplied,
        }))
    );
}

#[test]
fn a_delete_waits_for_its_key_and_fails_with_the_engine() {
    let mut job = delete(false);
    assert_eq!(
        delete_step(
            &mut job,
            vec![(DeleteCall::Gate, Ok(DeleteReply::Gate(Gate::Held)))]
        ),
        DeleteFlow::Retry
    );
    let mut frozen = leased(None);
    frozen.push((
        DeleteCall::Mark {
            entry: IndexHead::Empty,
        },
        Ok(DeleteReply::Marked(Marked::Frozen)),
    ));
    assert_eq!(delete_step(&mut job, frozen), DeleteFlow::More);
    assert_eq!(job.call, DeleteCall::Fits);
    assert_eq!(job.begin(true), DeleteFlow::More);
    assert_eq!(job.call, DeleteCall::Health);
    assert!(matches!(
        job.accept(Ok(DeleteReply::Flag(true))),
        DeleteFlow::Ended(DeleteEnd::Failed(_))
    ));
}

#[test]
fn a_delete_reserves_everything_or_nothing_and_ends_with_its_session() {
    let mut hub = hub(1);
    let mut metrics = Metrics::new(true);
    let mut session = {
        let routes = CompletionHub::new(StoreId([1; 16]), 1, 2)
            .unwrap()
            .session_routes(OWNER, 1)
            .unwrap();
        SessionRuntime::new(
            OWNER,
            RegisteredSession {
                version: CheckpointVersion(1),
                last_accepted: None,
            },
            metrics.register().unwrap(),
            routes,
        )
    };
    assert!(matches!(
        reserve_delete(&mut session, &mut hub, Gate::Held, 1, 1, Memory::Allocator),
        Err(Error::Busy)
    ));
    assert!(matches!(
        reserve_delete(&mut session, &mut hub, Gate::Free, 0, 1, Memory::Allocator),
        Err(Error::Busy)
    ));
    let first = reserve_delete(&mut session, &mut hub, Gate::Free, 1, 2, Memory::Allocator).unwrap();
    assert!(matches!(
        reserve_delete(&mut session, &mut hub, Gate::Free, 1, 2, Memory::Allocator),
        Err(Error::Busy)
    ));
    cancel_delete(&mut session, &mut hub, first);
    assert_eq!(hub.occupied(), 0);
    let again = reserve_delete(&mut session, &mut hub, Gate::Free, 1, 1, Memory::Allocator).unwrap();
    let mut task = DeleteTask::new(&mut metrics, delete(false), again.id, Serial(5));
    task.suspend(&mut session, &mut metrics);
    assert_eq!(session.pending(), 1);
    assert_eq!(metrics.activity().unwrap(), (1, 1));
    assert!(task.on_io().is_err());
    assert_eq!(
        task.abandoned(),
        Some(OperationError {
            cause: Error::SessionAbandoned,
            effect: Effect::NotApplied,
        })
    );
    let (result, broken) =
        task.finish(true, Ok(Outcome::Success(DeleteOutcome::IndexRemoved)));
    assert!(!broken);
    assert_eq!(result, Ok(Outcome::Success(DeleteOutcome::IndexRemoved)));
    assert!(!task.record(&hub, &mut metrics, Completed::result(&result), true));
    assert_eq!(metrics.snapshot().deletes.success, 1);
    assert_eq!(task.abandoned(), None);
    assert_eq!(task.job.begin(true), DeleteFlow::Over);
    task.release(&mut hub, &mut metrics);
    assert_eq!(hub.occupied(), 0);
    let id = hub.reserve(OWNER).unwrap();
    let mut task = DeleteTask::new(&mut metrics, delete(false), id, Serial(6));
    assert!(matches!(
        task.panicked(),
        DeleteFlow::Ended(DeleteEnd::Failed(_))
    ));
    assert_eq!(task.abandoned(), None);
    let (result, broken) = task.finish::<u64>(false, Ok(Outcome::NotFound));
    assert!(broken);
    assert_eq!(
        result,
        Err(OperationError {
            cause: Error::InvalidState("Request destructor panic"),
            effect: Effect::NotApplied,
        })
    );
    assert!(task.record(&hub, &mut metrics, Completed::result(&result), false));
    assert_eq!(metrics.snapshot().deletes.failed, 1);
    assert!(hub.reserve(OWNER).is_err());
    task.release(&mut hub, &mut metrics);
    assert_eq!(hub.occupied(), 0);
}

#[test]
fn serials_grow_and_a_refused_one_is_not_kept() {
    let mut hub = hub(4);
    let mut metrics = Metrics::new(true);
    let mut session = session(&mut hub, &mut metrics);
    assert!(prepare(&session, Serial(4), false).is_err());
    prepare(&session, Serial(5), false).unwrap();
    assert!(prepare(&session, Serial(5), true).is_err());
    assert!(matches!(
        accept_serial(&mut session, Serial(5), false, Err(Error::Busy)),
        Err(Error::Busy)
    ));
    assert_eq!(session.current.last_accepted, Some(Serial(4)));
    assert!(accept_serial(&mut session, Serial(5), true, Ok(())).is_err());
    accept_serial(&mut session, Serial(5), false, Ok(())).unwrap();
    assert_eq!(session.current.last_accepted, Some(Serial(5)));
    session.closing = true;
    assert!(prepare(&session, Serial(6), false).is_err());
    assert_eq!(key_buffer(3, Memory::Allocator).unwrap(), vec![0, 0, 0]);
    assert!(matches!(
        key_buffer(3, Memory::Refused),
        Err(Error::OutOfMemory)
    ));
}

#[test]
fn the_end_of_a_request_is_recorded_with_what_the_device_completed() {
    let mut hub = hub(1);
    let mut metrics = Metrics::new(true);
    let id = hub.reserve(OWNER).unwrap();
    let mut read = metrics.accept(Kind::Read);
    record_ready(
        &mut read,
        &mut metrics,
        &hub,
        id,
        &Ok::<Outcome<u8>, OperationError>(Outcome::Success(1)),
    );
    let mut lost = metrics.accept(Kind::Read);
    assert!(complete_tracked(
        &mut lost,
        &mut metrics,
        &hub,
        id,
        Completed::Success,
        false
    ));
    let reads = metrics.snapshot().reads;
    assert_eq!((reads.success, reads.failed, reads.failed_with_unknown_effect), (1, 1, 1));
    assert_eq!(
        finish_request(true, Ok(Outcome::Success(3)), Effect::NotApplied),
        (Ok(Outcome::Success(3)), false)
    );
    let (result, broken) = finish_request(false, Ok(Outcome::Success(3)), Effect::Applied);
    assert!(broken);
    assert_eq!(result.unwrap_err().effect, Effect::Applied);
}

fn observe(
    session: &mut SessionRuntime,
    script: Vec<(ObserveCall, Result<ObserveReply, Error>)>,
) -> (ObserveFlow, Observer) {
    let mut observer = Observer::new();
    let mut flow = ObserveFlow::More;
    for (call, reply) in script {
        assert!(matches!(flow, ObserveFlow::More));
        assert_eq!(observer.call, call);
        flow = observer.accept(session, reply);
    }
    (flow, observer)
}

#[test]
fn a_session_changes_its_version_once_and_acknowledges_the_one_before() {
    let mut hub = hub(4);
    let mut metrics = Metrics::new(true);
    let mut session = session(&mut hub, &mut metrics);
    let (flow, _) = observe(
        &mut session,
        vec![
            (
                ObserveCall::State,
                Ok(ObserveReply::State(state(None, Phase::Rest, 1))),
            ),
            (ObserveCall::Health, Ok(ObserveReply::Flag(false))),
        ],
    );
    assert!(matches!(
        flow,
        ObserveFlow::Ended(Ok(Observation {
            changed: false,
            rest: true
        }))
    ));
    let progress = state(Some(ACTION), Phase::InProgress, 2);
    let mut observer = Observer::new();
    observer.accept(&mut session, Ok(ObserveReply::State(progress)));
    observer.accept(&mut session, Ok(ObserveReply::Flag(false)));
    match observer.call {
        ObserveCall::Acknowledge(acknowledgement) => {
            assert_eq!(acknowledgement.id, ACTION);
            assert_eq!(acknowledgement.phase, Phase::InProgress);
            assert_eq!(acknowledgement.cut.session, OWNER);
            assert_eq!(acknowledgement.cut.last_accepted, Some(Serial(4)));
            assert_eq!(acknowledgement.cut.old_pending, 0);
        }
        other => panic!("asks for {other:?}"),
    }
    assert_eq!(session.current.version, CheckpointVersion(2));
    assert!(matches!(
        observer.accept(&mut session, Ok(ObserveReply::Done)),
        ObserveFlow::Ended(Ok(Observation {
            changed: true,
            rest: false
        }))
    ));
    let (flow, observer) = observe(
        &mut session,
        vec![
            (
                ObserveCall::State,
                Ok(ObserveReply::State(state(Some(ACTION), Phase::Failed, 2))),
            ),
            (ObserveCall::Health, Ok(ObserveReply::Flag(false))),
        ],
    );
    assert!(observer.fatal);
    assert!(matches!(
        flow,
        ObserveFlow::Ended(Err(Error::InvalidState(_)))
    ));
    let (flow, observer) = observe(
        &mut session,
        vec![
            (ObserveCall::State, Ok(ObserveReply::State(progress))),
            (ObserveCall::Health, Ok(ObserveReply::Flag(true))),
            (ObserveCall::FailAction(ACTION), Ok(ObserveReply::Done)),
        ],
    );
    assert!(!observer.fatal);
    assert!(matches!(
        flow,
        ObserveFlow::Ended(Err(Error::InvalidState(_)))
    ));
}

#[test]
fn a_look_is_given_up_after_a_bounded_number_of_rounds() {
    let mut hub = hub(4);
    let mut metrics = Metrics::new(true);
    let mut session = session(&mut hub, &mut metrics);
    let mut observer = Observer::new();
    let mut rounds = 0;
    loop {
        let prepare = state(Some(MaintenanceId(rounds)), Phase::Prepare, 1);
        observer.accept(&mut session, Ok(ObserveReply::State(prepare)));
        observer.accept(&mut session, Ok(ObserveReply::Flag(false)));
        assert!(matches!(observer.call, ObserveCall::Acknowledge(_)));
        observer.accept(&mut session, Err(Error::Busy));
        assert_eq!(observer.call, ObserveCall::StateAgain);
        let moved = state(None, Phase::Rest, 1);
        rounds += 1;
        match observer.accept(&mut session, Ok(ObserveReply::State(moved))) {
            ObserveFlow::More => {}
            ObserveFlow::Ended(Ok(Observation { rest: false, .. })) => break,
            other => panic!("ended with {other:?}"),
        }
    }
    assert_eq!(rounds, ROUNDS as u64);
}

#[test]
fn a_record_is_cached_only_while_everything_stands_still_and_it_is_in_the_log() {
    assert_eq!(resolver(true), Resolver::Cache);
    assert_eq!(resolver(false), Resolver::Index);
    assert_eq!(
        resolve_index(found(Some(64), 1).entry).unwrap(),
        found(Some(64), 1)
    );
    let mut cached = found(Some(64), 1).entry;
    cached.head = IndexHead::Cache(3);
    assert!(resolve_index(cached).is_err());
    let free = [Gate::Free, Gate::Free];
    assert!(Population::begin(false, &free, Memory::Granted)
        .unwrap()
        .is_none());
    assert!(Population::begin(true, &free, Memory::Refused)
        .unwrap()
        .is_none());
    assert!(
        Population::begin(true, &[Gate::Free, Gate::Held], Memory::Granted)
            .unwrap()
            .is_none()
    );
    assert!(Population::begin(true, &[Gate::Poisoned], Memory::Granted).is_err());
    let run = |id, source: u64, inserted: Result<PopulateReply, Error>| {
        let mut population = Population::begin(true, &free, Memory::Granted)
            .unwrap()
            .unwrap();
        let replies = vec![
            Ok(PopulateReply::State(state(id, Phase::Rest, 1))),
            Ok(PopulateReply::Record(Some(LogAddress(source)))),
            Ok(PopulateReply::Frontiers(frontiers(64, 128))),
            inserted,
        ];
        for reply in replies {
            let call = population.call;
            if let PopulateFlow::Ended(result) = population.accept(reply) {
                return (call, result);
            }
        }
        panic!("waits for {:?}", population.call);
    };
    assert_eq!(
        run(Some(ACTION), 64, Ok(PopulateReply::Done)),
        (PopulateCall::State, Ok(()))
    );
    assert_eq!(
        run(None, 63, Ok(PopulateReply::Done)),
        (PopulateCall::Frontiers, Ok(()))
    );
    assert_eq!(
        run(None, 64, Err(Error::CapacityExceeded)),
        (PopulateCall::Insert, Ok(()))
    );
    assert_eq!(
        run(None, 64, Err(Error::Busy)),
        (PopulateCall::Insert, Err(Error::Busy))
    );
}

#[test]
fn an_image_of_the_index_holds_what_is_in_the_log() {
    let entry = |tag, head| ImageEntry { tag, head };
    let kept = snapshot_index(
        vec![
            entry(1, IndexHead::Log(LogAddress(63))),
            entry(2, IndexHead::Log(LogAddress(64))),
            entry(3, IndexHead::Empty),
            entry(4, IndexHead::Cache(64)),
            entry(5, IndexHead::Log(LogAddress(99))),
        ],
        LogAddress(64),
    );
    let tags: Vec<u64> = kept.iter().map(|entry| entry.tag).collect();
    assert_eq!(tags, vec![2, 5]);
    snapshot_gates(&[Gate::Free], Memory::Granted).unwrap();
    assert!(matches!(
        snapshot_gates(&[Gate::Held], Memory::Granted),
        Err(Error::Busy)
    ));
    assert!(matches!(
        snapshot_gates(&[Gate::Poisoned], Memory::Granted),
        Err(Error::InvalidState(_))
    ));
    assert!(matches!(
        snapshot_gates(&[Gate::Free], Memory::Refused),
        Err(Error::OutOfMemory)
    ));
}
