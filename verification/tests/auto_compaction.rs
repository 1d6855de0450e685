use rasterkv::config::fraction::Fraction;
use rasterkv::config::{AutoCompactionPolicy, Config, Interval};
use rasterkv::device::DeviceCapabilities;
use rasterkv::engine::auto_compaction::{target, AutoCompaction, Plan, Task, TaskReport, Turn};
use rasterkv::engine::common::Frontiers;
use rasterkv::reports::{
    AutoCompactionPhase, CompactionAlgorithm, CompactionOptions, CompactionReport, GcReport,
    PhysicalReclamation,
};
use rasterkv::types::{Error, LogAddress, MaintenanceId};
use std::sync::Arc;

fn fraction(value: f64) -> Fraction {
    Fraction {
        bits: value.to_bits(),
    }
}

fn frontiers(begin: u64, tail: u64, safe_head: u64, safe_read_only: u64) -> Frontiers {
    Frontiers {
        begin: LogAddress(begin),
        head: LogAddress(0),
        safe_head: LogAddress(safe_head),
        flushed_until: LogAddress(0),
        safe_read_only: LogAddress(safe_read_only),
        read_only: LogAddress(0),
        tail: LogAddress(tail),
    }
}

#[test]
fn the_automatic_target_only_covers_complete_safe_cold_pages_above_the_threshold_and_is_limited_by_the_single_budget()
{
    let policy = AutoCompactionPolicy {
        log_size_budget: 20000,
        trigger_fraction: fraction(0.5),
        compact_fraction: fraction(0.75),
        max_compacted_bytes: 10000,
        ..Default::default()
    };
    for begin in [0u64, 48, 4096, 8000] {
        for span in [0u64, 1, 9999, 10000, 40000] {
            for cold in [0u64, 1000, 4096, 8192, 30000] {
                let f = frontiers(
                    begin,
                    begin + span,
                    begin + cold.min(span),
                    begin + cold.min(span),
                );
                let planned = target(&policy, 4096, &f).unwrap();
                if span < 10000 {
                    assert!(planned.is_none());
                }
                if let Some(until) = planned {
                    assert!(
                        until.0 > f.begin.0
                            && until.0 <= f.safe_head.0
                            && until.0 <= f.safe_read_only.0
                    );
                    assert!(until.0 % 4096 == 0);
                    assert!(until.0 - begin <= 10000);
                    assert!(until.0 - begin <= (span as f64 * 0.75) as u64);
                }
            }
        }
    }
    let f = frontiers(0, 50000, 12000, 6000);
    assert_eq!(target(&policy, 4096, &f).unwrap(), Some(LogAddress(4096)));
}

#[test]
fn automatic_configuration_rejects_zero_budget_invalid_ratio_interval_and_upper_limit_of_less_than_one_page()
{
    let mut config = Config::default();
    config.validate().unwrap();
    config.maintenance.auto_compaction = true;
    assert!(config.validate().is_err());
    config.maintenance.auto_compaction_policy.log_size_budget = 1 << 30;
    config.validate().unwrap();
    for value in [f64::NAN, f64::INFINITY, 0.0, -0.1, 1.1] {
        let mut bad = config.clone();
        bad.maintenance.auto_compaction_policy.trigger_fraction = fraction(value);
        assert!(bad.validate().is_err());
        let mut bad = config.clone();
        bad.maintenance.auto_compaction_policy.compact_fraction = fraction(value);
        assert!(bad.validate().is_err());
    }
    for duration in [std::time::Duration::ZERO, std::time::Duration::MAX] {
        let mut bad = config.clone();
        bad.maintenance.auto_compaction_policy.check_interval = Interval {
            secs: duration.as_secs(),
            nanos: duration.subsec_nanos(),
        };
        assert!(bad.validate().is_err());
    }
    config
        .maintenance
        .auto_compaction_policy
        .max_compacted_bytes = config.log.page_bytes as u64 - 1;
    assert!(config.validate().is_err());
}

#[test]
fn fractions_of_sizes_are_those_of_double_precision() {
    let sizes = [
        0u64,
        1,
        2,
        3,
        9999,
        10000,
        1 << 30,
        (1 << 53) - 1,
        1 << 53,
        (1 << 53) + 1,
        (1 << 53) + 3,
        (1 << 54) + 6,
        123_456_789_012_345_678,
        u64::MAX - 1024,
        u64::MAX,
    ];
    let fractions = [
        1.0,
        0.999_999_999_999_999_9,
        0.8,
        0.75,
        0.5,
        1.0 / 3.0,
        0.2,
        0.1,
        1e-3,
        1e-9,
        1e-18,
        1e-30,
        1e-300,
        f64::MIN_POSITIVE,
        5e-324,
    ];
    for size in sizes {
        for value in fractions {
            let part = fraction(value);
            assert!(part.is_valid());
            assert_eq!(part.up(size), (size as f64 * value).ceil() as u64);
            assert_eq!(part.down(size), (size as f64 * value) as u64);
        }
    }
}

const FILES: DeviceCapabilities = DeviceCapabilities {
    supports_files: true,
    memory_alignment: 1,
    transfer_alignment: 1,
    supports_file_sync: true,
    supports_directory_sync: true,
    supports_atomic_publish: true,
    supports_directory_listing: true,
    supports_file_locks: true,
};

const SECOND: Interval = Interval { secs: 1, nanos: 0 };

fn reclaimed(physical: PhysicalReclamation) -> GcReport {
    GcReport {
        begin: LogAddress(4096),
        index_cleaned: true,
        deleted_segments: 1,
        physical,
    }
}

fn compacted(physical: PhysicalReclamation) -> TaskReport {
    TaskReport::Compaction(Arc::new(Ok(CompactionReport {
        until: LogAddress(4096),
        copied: 2,
        gc: Some(reclaimed(physical)),
        checkpoint: None,
    })))
}

#[test]
fn the_scheduler_starts_once_and_only_where_space_can_be_given_back() {
    let mut scheduler = AutoCompaction::new();
    assert!(!scheduler.start(false, &FILES).unwrap());
    let blind = DeviceCapabilities {
        supports_directory_sync: false,
        ..FILES
    };
    assert!(matches!(
        scheduler.start(true, &blind),
        Err(Error::UnsupportedDurability)
    ));
    assert!(scheduler.start(true, &FILES).unwrap());
    assert!(matches!(
        scheduler.start(true, &FILES),
        Err(Error::InvalidState(_))
    ));
}

#[test]
fn the_scheduler_compacts_then_gives_back_what_was_left_then_rests() {
    let mut scheduler = AutoCompaction::new();
    scheduler.start(true, &FILES).unwrap();
    assert_eq!(scheduler.turn(true, false, false), Turn::Sleep);
    assert_eq!(scheduler.turn(true, false, true), Turn::Check);
    assert_eq!(
        scheduler.plan(LogAddress(0), Some(LogAddress(4096)), 2),
        Plan::Compact(CompactionOptions {
            algorithm: CompactionAlgorithm::Lookup,
            until: LogAddress(4096),
            workers: 2,
            shift_begin: true,
            checkpoint: false,
        })
    );
    assert_eq!(
        scheduler.accepted(Err(Error::Busy), false, SECOND),
        Ok(Interval {
            secs: 0,
            nanos: 10_000_000
        })
    );
    assert_eq!(scheduler.phase, AutoCompactionPhase::Scheduled);
    assert_eq!(
        scheduler.accepted(Err(Error::InvalidFormat("record")), true, SECOND),
        Ok(Interval {
            secs: 0,
            nanos: 10_000_000
        })
    );
    assert_eq!(
        scheduler.accepted(Err(Error::InvalidFormat("record")), false, SECOND),
        Err(Error::InvalidFormat("record"))
    );
    assert_eq!(
        scheduler.accepted(Ok(Some(Task::Compact(MaintenanceId(3)))), false, SECOND),
        Ok(Interval {
            secs: 0,
            nanos: 100_000
        })
    );
    assert_eq!(scheduler.turn(true, true, true), Turn::Poll);
    assert!(!scheduler.collect(None).unwrap());
    let deferred = PhysicalReclamation::DeferredByRuntime {
        begin: LogAddress(0),
        end: LogAddress(4096),
    };
    assert!(scheduler.collect(Some(compacted(deferred))).unwrap());
    assert_eq!(
        scheduler.plan(LogAddress(4096), None, 2),
        Plan::Reclaim {
            begin: LogAddress(4096)
        }
    );
    scheduler
        .accepted(Ok(Some(Task::Reclaim(MaintenanceId(4)))), false, SECOND)
        .unwrap();
    let report = Arc::new(Ok(reclaimed(PhysicalReclamation::Completed)));
    scheduler
        .collect(Some(TaskReport::Reclamation(report)))
        .unwrap();
    assert_eq!(scheduler.plan(LogAddress(4096), None, 2), Plan::Nothing);
    assert_eq!(scheduler.accepted(Ok(None), false, SECOND), Ok(SECOND));
    let mut config = Config::default();
    config.maintenance.auto_compaction = true;
    config.maintenance.auto_compaction_policy.log_size_budget = 5;
    let status = scheduler.status(&frontiers(10, 15, 0, 0), &config).unwrap();
    assert_eq!(status.phase, AutoCompactionPhase::Idle);
    assert_eq!(status.active, None);
    assert_eq!(status.completed_compactions, 1);
    assert_eq!((status.log_bytes, status.budget_reached), (5, true));
    assert_eq!(
        (*status.last_compaction.unwrap()).as_ref().unwrap().copied,
        2
    );
    assert!(Arc::ptr_eq(
        &status.last_reclamation.unwrap(),
        scheduler.last_reclamation.as_ref().unwrap()
    ));
    assert!(status.failure.is_none());
    assert!(matches!(
        scheduler.status(&frontiers(16, 15, 0, 0), &config),
        Err(Error::InvalidState(_))
    ));
}

#[test]
fn a_stop_waits_for_the_task_and_a_failed_task_stops_the_scheduler() {
    let mut scheduler = AutoCompaction::new();
    scheduler.start(true, &FILES).unwrap();
    scheduler
        .accepted(Ok(Some(Task::Compact(MaintenanceId(3)))), false, SECOND)
        .unwrap();
    scheduler.request_stop();
    assert!(scheduler.pauses());
    assert_eq!(scheduler.turn(true, false, true), Turn::Poll);
    scheduler
        .collect(Some(compacted(PhysicalReclamation::Completed)))
        .unwrap();
    assert!(!scheduler.pauses());
    assert_eq!(scheduler.turn(true, false, true), Turn::Stop);
    assert_eq!(scheduler.plan(LogAddress(0), None, 1), Plan::Stop);
    scheduler.leave(None);
    scheduler.joined(false);
    assert_eq!(scheduler.phase, AutoCompactionPhase::Stopped);

    let mut scheduler = AutoCompaction::new();
    scheduler.start(true, &FILES).unwrap();
    scheduler
        .accepted(Ok(Some(Task::Compact(MaintenanceId(3)))), false, SECOND)
        .unwrap();
    scheduler
        .collect(Some(TaskReport::Compaction(Arc::new(Err(Error::Busy)))))
        .unwrap();
    assert_eq!(scheduler.turn(true, false, true), Turn::Stop);
    scheduler.leave(None);
    scheduler.joined(false);
    assert_eq!(scheduler.phase, AutoCompactionPhase::Failed);

    let mut scheduler = AutoCompaction::new();
    scheduler.start(true, &FILES).unwrap();
    assert!(matches!(
        scheduler.turn(true, true, true),
        Turn::Broken(Error::InvalidState(_))
    ));
    scheduler.leave(Some(Error::CapacityExceeded));
    scheduler.joined(true);
    assert_eq!(*scheduler.failure.unwrap(), Error::CapacityExceeded);
    scheduler.failure = None;
    scheduler.completed = u64::MAX;
    scheduler.stop = false;
    assert_eq!(
        scheduler.plan(LogAddress(0), Some(LogAddress(64)), 1),
        Plan::Full
    );
}
