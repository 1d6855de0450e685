use rasterkv::engine::io_hub::CompletionHub;
use rasterkv::engine::metrics::Metrics;
use rasterkv::engine::pending::{RegisteredSession, SessionRuntime, TaskHeader};
use rasterkv::types::{
    CheckpointVersion, Error, Generation, RequestId, Serial, SessionId, StoreId,
};

fn runtime() -> SessionRuntime {
    let id = SessionId([2; 16]);
    let mut metrics = Metrics::new(false);
    let mut hub = CompletionHub::new(StoreId([1; 16]), 1, 1).unwrap();
    SessionRuntime::new(
        id,
        RegisteredSession {
            version: CheckpointVersion(1),
            last_accepted: None,
        },
        metrics.register().unwrap(),
        hub.session_routes(id, 1).unwrap(),
    )
}

fn task(session: u8, slot: u64, serial: u64, version: u64) -> TaskHeader {
    TaskHeader {
        id: RequestId {
            store: StoreId([1; 16]),
            session: SessionId([session; 16]),
            slot,
            generation: Generation(0),
        },
        serial: Serial(serial),
        version: CheckpointVersion(version),
    }
}

#[test]
fn result_places_are_waiting_for_tickets_and_completion_ends_are_returned() {
    for complete_first in [false, true] {
        let mut runtime = runtime();
        let ticket = runtime.reserve_result(1).unwrap();
        let complete = runtime.share_result(&ticket);
        assert!(matches!(runtime.reserve_result(1), Err(Error::Busy)));
        if complete_first {
            runtime.return_result(complete);
            assert!(matches!(runtime.reserve_result(1), Err(Error::Busy)));
            runtime.return_result(ticket);
        } else {
            runtime.return_result(ticket);
            assert!(matches!(runtime.reserve_result(1), Err(Error::Busy)));
            runtime.return_result(complete);
        }
        let next = runtime.reserve_result(1).unwrap();
        assert!(matches!(runtime.reserve_result(1), Err(Error::Busy)));
        runtime.return_result(next);
        assert!(runtime.reserve_result(1).is_ok());
    }
}

#[test]
fn after_giving_up_the_ticket_the_completion_end_still_occupies_the_quota() {
    let mut runtime = runtime();
    let ticket = runtime.reserve_result(1).unwrap();
    let complete = runtime.share_result(&ticket);
    runtime.return_result(ticket);
    assert!(matches!(runtime.reserve_result(1), Err(Error::Busy)));
    runtime.return_result(complete);
    assert!(runtime.reserve_result(1).is_ok());
}

#[test]
fn historical_capacity_cannot_bypass_reduced_result_limits() {
    let mut runtime = runtime();
    let mut credits: Vec<_> = (0..4)
        .map(|_| runtime.reserve_result(4).unwrap())
        .collect();
    runtime.return_result(credits.pop().unwrap());
    runtime.return_result(credits.pop().unwrap());
    assert!(matches!(runtime.reserve_result(1), Err(Error::Busy)));
    assert!(matches!(runtime.reserve_result(2), Err(Error::Busy)));
    runtime.return_result(credits.pop().unwrap());
    assert!(matches!(runtime.reserve_result(1), Err(Error::Busy)));
    let second = runtime.reserve_result(2).unwrap();
    assert!(matches!(runtime.reserve_result(0), Err(Error::Busy)));
    runtime.return_result(second);
    runtime.return_result(credits.pop().unwrap());
    assert!(matches!(runtime.reserve_result(0), Err(Error::Busy)));
    let only = runtime.reserve_result(1).unwrap();
    assert!(matches!(runtime.reserve_result(1), Err(Error::Busy)));
    runtime.return_result(only);
    assert!(runtime.reserve_result(1).is_ok());
}

#[test]
fn suspended_tasks_stay_with_the_version_in_which_they_were_accepted() {
    let mut runtime = runtime();
    runtime.current.last_accepted = Some(Serial(4));
    runtime.current.tasks.insert(7, task(2, 7, 3, 1));
    assert_eq!(runtime.pending(), 1);
    assert!(!runtime.switch_version(CheckpointVersion(1)).unwrap());
    assert!(matches!(
        runtime.switch_version(CheckpointVersion(3)),
        Err(Error::InvalidState(_))
    ));
    assert!(runtime.switch_version(CheckpointVersion(2)).unwrap());
    assert_eq!(runtime.pending(), 1);
    let cut = runtime.cut(CheckpointVersion(1)).unwrap();
    assert_eq!((cut.last_accepted, cut.old_pending), (Some(Serial(4)), 1));
    assert_eq!(runtime.cut(CheckpointVersion(2)).unwrap().old_pending, 0);
    assert!(runtime.cut(CheckpointVersion(3)).is_err());
    assert!(matches!(
        runtime.switch_version(CheckpointVersion(3)),
        Err(Error::Busy)
    ));
}

#[test]
fn a_task_that_does_not_fit_its_session_stops_the_change_of_version() {
    for wrong in [task(3, 7, 3, 1), task(2, 7, 5, 1), task(2, 7, 3, 2)] {
        let mut runtime = runtime();
        runtime.current.last_accepted = Some(Serial(4));
        runtime.current.tasks.insert(7, wrong);
        assert!(matches!(
            runtime.switch_version(CheckpointVersion(2)),
            Err(Error::InvalidState(_))
        ));
    }
}
