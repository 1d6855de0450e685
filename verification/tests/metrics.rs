use rasterkv::engine::metrics::{nanos, CacheEvent, Completed, IndexEvent, Kind, Metrics};
use rasterkv::types::{Effect, Error, OperationError, Outcome};

#[test]
fn sampling_is_fixed_and_terminated_on_acceptance_idempotent_missing_measurements_cannot_be_faked_as_zero_completions()
{
    let mut metrics = Metrics::new(false);
    let mut unsampled = metrics.accept(Kind::Upsert);
    unsampled.pending(&mut metrics);
    metrics.enable(true);
    let mut sampled = metrics.accept(Kind::Read);
    sampled.pending(&mut metrics);
    assert_eq!(metrics.activity().unwrap(), (2, 2));
    metrics.enable(false);
    sampled.finish(&mut metrics, Completed::Success, Some(3));
    sampled.finish(&mut metrics, Completed::Failed(Effect::Applied), Some(99));
    unsampled.finish(&mut metrics, Completed::Success, Some(0));
    sampled.abandon(&mut metrics);
    unsampled.abandon(&mut metrics);
    assert_eq!(metrics.activity().unwrap(), (0, 0));
    let s = metrics.snapshot();
    assert_eq!((s.reads.completed, s.reads.io_per_request[2]), (1, 1));
    assert_eq!(s.upserts.completed, 0);
    metrics.enable(true);
    let delete = metrics.accept(Kind::Delete);
    delete.abandon(&mut metrics);
    let s = metrics.snapshot();
    assert_eq!(s.deletes.failed_with_unknown_effect, 1);
    assert!(!s.measurements_complete);
    assert_eq!(s.deletes.io_per_request.iter().sum::<u64>(), 0);
    assert_eq!(metrics.activity().unwrap(), (0, 0));
}

#[test]
fn overflow_saturates_and_retains_failure_impact_and_conditional_replication_independent_counts() {
    let mut metrics = Metrics::new(true);
    let mut copy = metrics.accept(Kind::Copy);
    copy.pending(&mut metrics);
    assert_eq!(metrics.activity().unwrap(), (0, 0));
    copy.invalidations = u64::MAX;
    copy.invalidate();
    copy.finish(
        &mut metrics,
        Completed::Failed(Effect::Applied),
        Some(u64::MAX),
    );
    let mut another = metrics.accept(Kind::Copy);
    another.finish(&mut metrics, Completed::NotFound, Some(1));
    let s = metrics.snapshot();
    assert!(s.saturated);
    assert_eq!(s.conditional_copies.io_completions, u64::MAX);
    assert_eq!(s.conditional_copies.failed_after_applied, 1);
    assert_eq!(s.conditional_copies.not_found, 1);
    assert_eq!(s.conditional_copies.io_per_request[64], 1);
    let mut saturated = false;
    assert_eq!(nanos(u64::MAX as u128 + 1, &mut saturated), u64::MAX);
    assert!(saturated);
}

#[test]
fn independent_trackers_preserve_pending_sampling_and_terminal_effects() {
    let mut metrics = Metrics::new(false);
    let first = metrics.register().unwrap();
    let second = metrics.register().unwrap();
    assert!(first.slot() != second.slot());
    let slot = first.slot();
    let mut read = first.accept(&mut metrics, Kind::Read);
    read.pending(&mut metrics);
    read.pending(&mut metrics);
    first.release(&mut metrics);
    metrics.enable(true);
    let mut write = second.accept(&mut metrics, Kind::Upsert);
    let mut copy = metrics.accept(Kind::Copy);
    copy.pending(&mut metrics);
    assert_eq!(metrics.activity().unwrap(), (2, 1));
    assert!(metrics.is_tracked(slot));
    metrics.enable(false);
    read.finish(&mut metrics, Completed::Success, Some(0));
    write.finish(&mut metrics, Completed::Failed(Effect::Applied), Some(2));
    write.finish(&mut metrics, Completed::Success, Some(0));
    assert_eq!(metrics.activity().unwrap(), (0, 0));
    read.abandon(&mut metrics);
    write.abandon(&mut metrics);
    copy.abandon(&mut metrics);
    second.release(&mut metrics);
    assert!(!metrics.is_tracked(slot));
    let stats = metrics.snapshot();
    assert_eq!(stats.reads.accepted, 0);
    assert_eq!(stats.reads.completed, 0);
    assert_eq!(stats.upserts.accepted, 1);
    assert_eq!(stats.upserts.completed, 1);
    assert_eq!(stats.upserts.failed_after_applied, 1);
    assert_eq!(stats.upserts.io_per_request[2], 1);
    assert_eq!(stats.conditional_copies.failed_with_unknown_effect, 1);
    assert!(!stats.measurements_complete);
}

#[test]
fn a_live_monitor_keeps_its_registration_observable_and_expired_slots_are_reused() {
    let mut metrics = Metrics::new(false);
    for _ in 0..2048 {
        let tracker = metrics.register().unwrap();
        let monitor = tracker.accept(&mut metrics, Kind::Read);
        tracker.release(&mut metrics);
        assert_eq!(metrics.activity().unwrap(), (1, 0));
        monitor.abandon(&mut metrics);
        assert_eq!(metrics.activity().unwrap(), (0, 0));
        assert_eq!(metrics.tracker_places(), 1);
    }
}

#[test]
fn every_result_counts_as_what_it_is() {
    assert_eq!(
        Completed::result(&Ok(Outcome::Success(1u8))),
        Completed::Success
    );
    assert_eq!(
        Completed::result::<u8>(&Ok(Outcome::NotFound)),
        Completed::NotFound
    );
    assert_eq!(
        Completed::result::<u8>(&Ok(Outcome::Aborted("no"))),
        Completed::Aborted
    );
    for effect in [Effect::NotApplied, Effect::Applied, Effect::Unknown] {
        assert_eq!(
            Completed::result::<u8>(&Err(OperationError {
                cause: Error::Busy,
                effect
            })),
            Completed::Failed(effect)
        );
    }
}

#[test]
fn events_and_times_are_counted_only_while_sampling() {
    let mut metrics = Metrics::new(false);
    metrics.cache(CacheEvent::Hit);
    metrics.index(IndexEvent::Conflict);
    metrics.record_time(true, 5);
    let timer = metrics.timer(true);
    timer.stop(&mut metrics);
    let s = metrics.snapshot();
    assert_eq!(s.cache.hits, 0);
    assert_eq!(s.maintenance_nanoseconds, 5);
    metrics.enable(true);
    metrics.cache(CacheEvent::Hit);
    metrics.cache(CacheEvent::Hit);
    metrics.cache(CacheEvent::Promote);
    metrics.index(IndexEvent::Publish);
    metrics.record_time(false, 7);
    let s = metrics.snapshot();
    assert_eq!((s.cache.hits, s.cache.promotions, s.cache.lookups), (2, 1, 0));
    assert_eq!(s.index.publication_conflicts, 0);
    assert_eq!(s.refresh_nanoseconds, 7);
}

#[test]
fn a_running_timer_takes_the_time_of_the_clock() {
    let mut metrics = Metrics::new(true);
    let timer = metrics.timer(true);
    let until = std::time::Instant::now() + std::time::Duration::from_millis(2);
    while std::time::Instant::now() < until {}
    timer.stop(&mut metrics);
    assert!(metrics.snapshot().maintenance_nanoseconds >= 1_000_000);
}

#[test]
fn the_time_of_a_suspended_request_is_recorded() {
    let mut metrics = Metrics::new(true);
    let mut read = metrics.accept(Kind::Read);
    read.pending(&mut metrics);
    read.finish_after(&mut metrics, Completed::Success, Some(0), 41);
    let mut write = metrics.accept(Kind::Read);
    write.finish_after(&mut metrics, Completed::Aborted, Some(5), 99);
    let s = metrics.snapshot();
    assert_eq!((s.reads.completed, s.reads.synchronous), (2, 1));
    assert_eq!((s.reads.success, s.reads.aborted), (1, 1));
    assert_eq!(s.reads.pending_nanoseconds, 41);
    assert_eq!((s.reads.io_per_request[0], s.reads.io_per_request[3]), (1, 1));
    assert_eq!(s.reads.io_completions, 5);
}

#[test]
fn the_counters_of_a_kind_add_up_over_a_history() {
    let mut metrics = Metrics::new(true);
    let ends = [
        (Completed::Success, Some(0)),
        (Completed::NotFound, Some(3)),
        (Completed::Aborted, Some(9)),
        (Completed::Failed(Effect::NotApplied), Some(1)),
        (Completed::Failed(Effect::Applied), Some(200)),
        (Completed::Failed(Effect::Unknown), None),
    ];
    let mut open = Vec::new();
    for round in 0..4 {
        for (i, (end, io)) in ends.iter().enumerate() {
            let mut monitor = metrics.accept(Kind::Read);
            if i % 2 == 0 {
                monitor.pending(&mut metrics);
            }
            if round == 3 {
                open.push(monitor);
                continue;
            }
            let io = if round == 0 { io.or(Some(2)) } else { *io };
            monitor.finish(&mut metrics, *end, io);
            monitor.abandon(&mut metrics);
        }
        let s = metrics.snapshot();
        let reads = &s.reads;
        assert_eq!(
            reads.completed,
            reads.success + reads.not_found + reads.aborted + reads.failed
        );
        assert!(reads.failed_after_applied + reads.failed_with_unknown_effect <= reads.failed);
        assert!(reads.synchronous <= reads.completed);
        assert_eq!(reads.accepted - reads.completed, open.len() as u64);
        let in_bins = reads.io_per_request.iter().sum::<u64>();
        assert_eq!(s.measurements_complete, in_bins == reads.completed);
        assert_eq!(s.measurements_complete, round == 0);
    }
    assert_eq!(metrics.activity().unwrap(), (6, 3));
    for monitor in open {
        monitor.abandon(&mut metrics);
    }
    assert_eq!(metrics.activity().unwrap(), (0, 0));
    assert_eq!(metrics.snapshot().reads.accepted, 24);
    assert_eq!(metrics.snapshot().reads.completed, 24);
}
