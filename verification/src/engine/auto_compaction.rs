//! Compaction without being asked: while the log is larger than its budget allows, its cold part is
//! compacted, and what could not be deleted is tried again. One task is under way at a time. To stop
//! is to accept no further task; one that was accepted is brought to its end.
use crate::config::{AutoCompactionPolicy, Config, Interval};
use crate::device::DeviceCapabilities;
use crate::engine::common::Frontiers;
use crate::reports::{
    AutoCompactionPhase, AutoCompactionStatus, CompactionAlgorithm, CompactionOptions,
    CompactionReport, GcReport, PhysicalReclamation,
};
use crate::types::{Error, LogAddress, MaintenanceId};
use std::sync::Arc;
use vstd::prelude::*;

verus! {

/// The task under way.
#[derive(Clone, Copy, Debug, PartialEq, Eq, Structural)]
pub enum Task {
    Compact(MaintenanceId),
    Reclaim(MaintenanceId),
}

/// What a task reported.
#[derive(Debug)]
pub enum TaskReport {
    Compaction(Arc<Result<CompactionReport, Error>>),
    Reclamation(Arc<Result<GcReport, Error>>),
}

/// What the scheduler does next.
#[derive(Debug, PartialEq, Eq)]
pub enum Turn {
    /// The scheduler is done.
    Stop,
    /// Let the maintenance go on, and collect the report of the task.
    Poll,
    /// The engine failed.
    Broken(Error),
    /// The next check is not due.
    Sleep,
    /// Look whether there is something to do.
    Check,
}

/// What there is to do.
#[derive(Debug, PartialEq, Eq)]
pub enum Plan {
    /// A stop was requested meanwhile.
    Stop,
    /// Delete what was left behind `begin`.
    Reclaim { begin: LogAddress },
    Compact(CompactionOptions),
    Nothing,
    /// No further compaction can be counted.
    Full,
}

/// Another holder of what `shared` holds, by `Arc::clone`: it holds the same value.
#[verifier::external_body]
fn share<T>(shared: &Arc<T>) -> (r: Arc<T>)
    ensures
        r == *shared,
{
    Arc::clone(shared)
}

fn share_some<T>(shared: &Option<Arc<T>>) -> (r: Option<Arc<T>>)
    ensures
        r == *shared,
{
    match shared {
        Some(shared) => Some(share(shared)),
        None => None,
    }
}

pub open spec fn least(a: nat, b: nat) -> nat {
    if a <= b {
        a
    } else {
        b
    }
}

impl AutoCompactionPolicy {
    /// Both fractions can be used.
    pub open spec fn usable(self) -> bool {
        self.trigger_fraction.valid() && self.compact_fraction.valid()
    }

    /// The size from which the log is compacted.
    pub open spec fn threshold(self) -> nat {
        least(self.trigger_fraction.part_up(self.log_size_budget as nat), u64::MAX as nat)
    }

    /// How many bytes of a log of this size one compaction covers at most.
    pub open spec fn share_of(self, span: nat) -> nat {
        least(
            least(self.compact_fraction.part_down(span), u64::MAX as nat),
            self.max_compacted_bytes as nat,
        )
    }

    /// Where a compaction of this log would end, before it is brought to the start of a page.
    pub open spec fn bound(self, f: Frontiers) -> nat {
        let span = (f.tail.0 - f.begin.0) as nat;
        let end = least(f.begin.0 as nat + self.share_of(span), u64::MAX as nat);
        least(least(end, f.safe_head.0 as nat), f.safe_read_only.0 as nat)
    }
}

/// The end of the next compaction: whole pages of the part that is safely cold, once the log is as
/// large as the threshold.
pub open spec fn next_target(policy: AutoCompactionPolicy, page: u64, f: Frontiers) -> Option<
    LogAddress,
> {
    let bound = policy.bound(f);
    let until = bound - bound % (page as nat);
    if f.tail.0 - f.begin.0 < policy.threshold() || until <= f.begin.0 {
        None
    } else {
        Some(LogAddress(until as u64))
    }
}

/// Looks for the next compaction.
pub fn target(policy: &AutoCompactionPolicy, page: u64, f: &Frontiers) -> (r: Result<
    Option<LogAddress>,
    Error,
>)
    requires
        page > 0,
        policy.usable(),
    ensures
        r == (if f.tail.0 < f.begin.0 {
            Err::<Option<LogAddress>, Error>(Error::InvalidState("Log span inversion"))
        } else {
            Ok::<Option<LogAddress>, Error>(next_target(*policy, page, *f))
        }),
{
    if f.tail.0 < f.begin.0 {
        return Err(Error::InvalidState("Log span inversion"));
    }
    let span: u64 = f.tail.0 - f.begin.0;
    let threshold = policy.trigger_fraction.up(policy.log_size_budget);
    if span < threshold {
        return Ok(None);
    }
    let part = policy.compact_fraction.down(span);
    let bytes: u64 = if part < policy.max_compacted_bytes {
        part
    } else {
        policy.max_compacted_bytes
    };
    let mut until: u64 = f.begin.0.saturating_add(bytes);
    if f.safe_head.0 < until {
        until = f.safe_head.0;
    }
    if f.safe_read_only.0 < until {
        until = f.safe_read_only.0;
    }
    assert(until == policy.bound(*f));
    proof {
        vstd::arithmetic::div_mod::lemma_mod_decreases(until as nat, page as nat);
    }
    let aligned: u64 = until - until % page;
    if aligned > f.begin.0 {
        Ok(Some(LogAddress(aligned)))
    } else {
        Ok(None)
    }
}

/// A compaction that nobody asked for covers whole pages of the part of the log that is safely cold,
/// no more than the budget of one compaction, and starts only above the threshold.
pub proof fn law_target_is_cold(policy: AutoCompactionPolicy, page: u64, f: Frontiers)
    requires
        page > 0,
        policy.usable(),
        f.tail.0 >= f.begin.0,
    ensures
        next_target(policy, page, f) matches Some(until) ==> {
            &&& f.begin.0 < until.0 <= f.safe_head.0
            &&& until.0 <= f.safe_read_only.0
            &&& until.0 % page == 0
            &&& until.0 - f.begin.0 <= policy.max_compacted_bytes
            &&& until.0 - f.begin.0 <= policy.compact_fraction.part_down(
                (f.tail.0 - f.begin.0) as nat,
            )
            &&& f.tail.0 - f.begin.0 >= policy.threshold()
        },
{
    let bound = policy.bound(f) as int;
    let p = page as int;
    vstd::arithmetic::div_mod::lemma_fundamental_div_mod(bound, p);
    vstd::arithmetic::div_mod::lemma_mod_multiples_basic(bound / p, p);
    assert(bound - bound % p == bound / p * p) by (nonlinear_arith)
        requires
            bound == p * (bound / p) + bound % p,
    ;
}

/// The physical part of a report was put off.
pub open spec fn deferred(report: GcReport) -> bool {
    report.physical is DeferredByRuntime
}

fn is_deferred(report: &GcReport) -> (r: bool)
    ensures
        r == deferred(*report),
{
    match &report.physical {
        PhysicalReclamation::DeferredByRuntime { .. } => true,
        _ => false,
    }
}

/// The scheduler.
pub struct AutoCompaction {
    pub phase: AutoCompactionPhase,
    pub stop: bool,
    pub failed: bool,
    pub task: Option<Task>,
    pub completed: u64,
    pub last_compaction: Option<Arc<Result<CompactionReport, Error>>>,
    pub last_reclamation: Option<Arc<Result<GcReport, Error>>>,
    pub failure: Option<Arc<Error>>,
    /// Something was left to delete.
    pub reclaim: bool,
}

impl TaskReport {
    /// Whether this is a report of `task`.
    pub open spec fn answers(self, task: Task) -> bool {
        match task {
            Task::Compact(_) => self is Compaction,
            Task::Reclaim(_) => self is Reclamation,
        }
    }

    pub open spec fn is_failure(self) -> bool {
        match self {
            TaskReport::Compaction(report) => *report is Err,
            TaskReport::Reclamation(report) => *report is Err,
        }
    }

    /// Something was left to delete.
    pub open spec fn leaves(self) -> bool {
        match self {
            TaskReport::Compaction(report) => match *report {
                Ok(report) => report.gc matches Some(gc) && deferred(gc),
                Err(_) => false,
            },
            TaskReport::Reclamation(report) => match *report {
                Ok(report) => deferred(report),
                Err(_) => false,
            },
        }
    }
}

impl AutoCompaction {
    pub fn new() -> (r: AutoCompaction)
        ensures
            r == (AutoCompaction {
                phase: AutoCompactionPhase::Disabled,
                stop: false,
                failed: false,
                task: None,
                completed: 0,
                last_compaction: None,
                last_reclamation: None,
                failure: None,
                reclaim: false,
            }),
    {
        AutoCompaction {
            phase: AutoCompactionPhase::Disabled,
            stop: false,
            failed: false,
            task: None,
            completed: 0,
            last_compaction: None,
            last_reclamation: None,
            failure: None,
            reclaim: false,
        }
    }

    /// Starts the scheduler, if it is configured. It starts once.
    pub fn start(&mut self, enabled: bool, caps: &DeviceCapabilities) -> (r: Result<bool, Error>)
        ensures
            r == (if !enabled {
                Ok::<bool, Error>(false)
            } else if !caps.supports_files || !caps.supports_directory_sync {
                Err::<bool, Error>(Error::UnsupportedDurability)
            } else if old(self).phase != AutoCompactionPhase::Disabled || old(self).stop {
                Err::<bool, Error>(
                    Error::InvalidState("Automatic maintenance cannot be started repeatedly"),
                )
            } else {
                Ok::<bool, Error>(true)
            }),
            *final(self) == (if r == Ok::<bool, Error>(true) {
                AutoCompaction { phase: AutoCompactionPhase::Idle, ..*old(self) }
            } else {
                *old(self)
            }),
    {
        if !enabled {
            return Ok(false);
        }
        if !caps.supports_files || !caps.supports_directory_sync {
            return Err(Error::UnsupportedDurability);
        }
        if self.phase != AutoCompactionPhase::Disabled || self.stop {
            return Err(Error::InvalidState("Automatic maintenance cannot be started repeatedly"));
        }
        self.phase = AutoCompactionPhase::Idle;
        Ok(true)
    }

    /// Keeps the first error, and stops.
    pub fn fail(&mut self, error: Error)
        ensures
            final(self).failure == (if old(self).failure is Some {
                old(self).failure
            } else {
                Some(Arc::new(error))
            }),
            *final(self) == (AutoCompaction {
                failed: true,
                stop: true,
                phase: AutoCompactionPhase::Stopping,
                failure: final(self).failure,
                ..*old(self)
            }),
    {
        self.failed = true;
        self.stop = true;
        self.phase = AutoCompactionPhase::Stopping;
        if self.failure.is_none() {
            self.failure = Some(Arc::new(error));
        }
    }

    /// Lets the scheduler stop. One that has not started, or has stopped, keeps its phase.
    pub fn request_stop(&mut self)
        ensures
            *final(self) == (AutoCompaction {
                stop: true,
                phase: if old(self).phase == AutoCompactionPhase::Disabled || old(self).phase
                    == AutoCompactionPhase::Stopped || old(self).phase
                    == AutoCompactionPhase::Failed {
                    old(self).phase
                } else {
                    AutoCompactionPhase::Stopping
                },
                ..*old(self)
            }),
    {
        self.stop = true;
        match self.phase {
            AutoCompactionPhase::Disabled | AutoCompactionPhase::Stopped
            | AutoCompactionPhase::Failed => {},
            _ => {
                self.phase = AutoCompactionPhase::Stopping;
            },
        }
    }

    /// Whether the scheduler waits before its next turn.
    pub fn pauses(&self) -> (r: bool)
        ensures
            r == !(self.stop && self.task is None),
    {
        !(self.stop && self.task.is_none())
    }

    /// The scheduler's thread leaves, with the error it had.
    pub fn leave(&mut self, error: Option<Error>)
        ensures
            final(self).phase == AutoCompactionPhase::Stopping,
            error is None ==> *final(self) == (AutoCompaction {
                phase: AutoCompactionPhase::Stopping,
                ..*old(self)
            }),
            error matches Some(error) ==> {
                &&& final(self).failed
                &&& final(self).stop
                &&& final(self).failure == (if old(self).failure is Some {
                    old(self).failure
                } else {
                    Some(Arc::new(error))
                })
                &&& final(self).task == old(self).task
                &&& final(self).completed == old(self).completed
                &&& final(self).last_compaction == old(self).last_compaction
                &&& final(self).last_reclamation == old(self).last_reclamation
                &&& final(self).reclaim == old(self).reclaim
            },
    {
        if let Some(error) = error {
            self.fail(error);
        }
        self.phase = AutoCompactionPhase::Stopping;
    }

    /// The scheduler's thread has ended.
    pub fn joined(&mut self, panicked: bool)
        ensures
            final(self).failed == (old(self).failed || panicked),
            final(self).phase == (if final(self).failed {
                AutoCompactionPhase::Failed
            } else {
                AutoCompactionPhase::Stopped
            }),
            final(self).stop == (old(self).stop || panicked),
            final(self).failure == (if panicked && old(self).failure is None {
                Some(
                    Arc::new(
                        Error::InvalidState("Automatic maintenance thread exits unexpectedly"),
                    ),
                )
            } else {
                old(self).failure
            }),
            final(self).task == old(self).task,
            final(self).completed == old(self).completed,
            final(self).last_compaction == old(self).last_compaction,
            final(self).last_reclamation == old(self).last_reclamation,
            final(self).reclaim == old(self).reclaim,
    {
        if panicked {
            self.fail(Error::InvalidState("Automatic maintenance thread exits unexpectedly"));
        }
        self.phase = if self.failed {
            AutoCompactionPhase::Failed
        } else {
            AutoCompactionPhase::Stopped
        };
    }

    /// What the scheduler is doing, and how large the log is.
    pub fn status(&self, f: &Frontiers, config: &Config) -> (r: Result<AutoCompactionStatus, Error>)
        ensures
            f.tail.0 < f.begin.0 ==> r is Err && r->Err_0 == Error::InvalidState(
                "Log span inversion",
            ),
            f.tail.0 >= f.begin.0 ==> {
                &&& r matches Ok(status)
                &&& status.phase == self.phase
                &&& status.active == (match self.task {
                    Some(Task::Compact(id)) => Some(id),
                    Some(Task::Reclaim(id)) => Some(id),
                    None => None,
                })
                &&& status.completed_compactions == self.completed
                &&& status.last_compaction == self.last_compaction
                &&& status.last_reclamation == self.last_reclamation
                &&& status.failure == self.failure
                &&& status.log_bytes == f.tail.0 - f.begin.0
                &&& status.budget_reached == (config.maintenance.auto_compaction
                    && config.maintenance.auto_compaction_policy.log_size_budget != 0
                    && f.tail.0 - f.begin.0
                    >= config.maintenance.auto_compaction_policy.log_size_budget)
            },
    {
        if f.tail.0 < f.begin.0 {
            return Err(Error::InvalidState("Log span inversion"));
        }
        let log_bytes: u64 = f.tail.0 - f.begin.0;
        let budget = config.maintenance.auto_compaction_policy.log_size_budget;
        Ok(
            AutoCompactionStatus {
                phase: self.phase,
                active: match self.task {
                    Some(Task::Compact(id)) => Some(id),
                    Some(Task::Reclaim(id)) => Some(id),
                    None => None,
                },
                completed_compactions: self.completed,
                last_compaction: share_some(&self.last_compaction),
                last_reclamation: share_some(&self.last_reclamation),
                failure: share_some(&self.failure),
                log_bytes,
                budget_reached: config.maintenance.auto_compaction && budget != 0 && log_bytes
                    >= budget,
            },
        )
    }

    /// The scheduler after it took a report.
    pub open spec fn collected(self, report: TaskReport) -> AutoCompaction {
        let failed = self.failed || report.is_failure();
        AutoCompaction {
            phase: if self.stop || failed {
                AutoCompactionPhase::Stopping
            } else {
                AutoCompactionPhase::Idle
            },
            stop: self.stop || failed,
            failed,
            task: None,
            completed: if report is Compaction {
                (self.completed + 1) as u64
            } else {
                self.completed
            },
            last_compaction: match report {
                TaskReport::Compaction(report) => Some(report),
                TaskReport::Reclamation(_) => self.last_compaction,
            },
            last_reclamation: match report {
                TaskReport::Reclamation(report) => Some(report),
                TaskReport::Compaction(_) => self.last_reclamation,
            },
            failure: self.failure,
            reclaim: report.leaves(),
        }
    }

    /// Takes the report of the task, where it is there. Says whether no task is under way any more.
    pub fn collect(&mut self, report: Option<TaskReport>) -> (r: Result<bool, Error>)
        requires
            report matches Some(report) ==> (old(self).task matches Some(task) && report.answers(
                task,
            )),
        ensures
            match (old(self).task, report) {
                (None, _) => r == Ok::<bool, Error>(true) && *final(self) == *old(self),
                (Some(_), None) => r == Ok::<bool, Error>(false) && *final(self) == *old(self),
                (Some(_), Some(report)) => if report is Compaction && old(self).completed
                    == u64::MAX {
                    r == Err::<bool, Error>(Error::CapacityExceeded) && *final(self) == *old(self)
                } else {
                    r == Ok::<bool, Error>(true) && *final(self) == old(self).collected(report)
                },
            },
    {
        if self.task.is_none() {
            return Ok(true);
        }
        let report = match report {
            Some(report) => report,
            None => {
                return Ok(false);
            },
        };
        match report {
            TaskReport::Compaction(report) => {
                match self.completed.checked_add(1) {
                    Some(completed) => {
                        self.completed = completed;
                    },
                    None => {
                        return Err(Error::CapacityExceeded);
                    },
                }
                match &*report {
                    Ok(done) => {
                        self.reclaim = match &done.gc {
                            Some(gc) => is_deferred(gc),
                            None => false,
                        };
                    },
                    Err(_) => {
                        self.failed = true;
                        self.reclaim = false;
                    },
                }
                self.last_compaction = Some(report);
            },
            TaskReport::Reclamation(report) => {
                match &*report {
                    Ok(done) => {
                        self.reclaim = is_deferred(done);
                    },
                    Err(_) => {
                        self.failed = true;
                        self.reclaim = false;
                    },
                }
                self.last_reclamation = Some(report);
            },
        }
        self.task = None;
        if self.failed {
            self.stop = true;
        }
        self.phase = if self.stop {
            AutoCompactionPhase::Stopping
        } else {
            AutoCompactionPhase::Idle
        };
        Ok(true)
    }

    /// Decides what comes next. `alive` says that the store is still there, and `due` that the next
    /// check is due.
    pub fn turn(&self, alive: bool, engine_failed: bool, due: bool) -> (r: Turn)
        ensures
            r == (if !alive || (self.stop && self.task is None) {
                Turn::Stop
            } else if self.task is Some {
                Turn::Poll
            } else if engine_failed {
                Turn::Broken(
                    Error::InvalidState("engine failure,Automatic maintenance stopped"),
                )
            } else if !due {
                Turn::Sleep
            } else {
                Turn::Check
            }),
    {
        if !alive || (self.stop && self.task.is_none()) {
            Turn::Stop
        } else if self.task.is_some() {
            Turn::Poll
        } else if engine_failed {
            Turn::Broken(Error::InvalidState("engine failure,Automatic maintenance stopped"))
        } else if !due {
            Turn::Sleep
        } else {
            Turn::Check
        }
    }

    /// What a check found to do. `until` is where the next compaction would end.
    pub fn plan(&self, begin: LogAddress, until: Option<LogAddress>, workers: usize) -> (r: Plan)
        ensures
            r == (if self.stop {
                Plan::Stop
            } else if self.reclaim {
                Plan::Reclaim { begin }
            } else {
                match until {
                    None => Plan::Nothing,
                    Some(until) => if self.completed == u64::MAX {
                        Plan::Full
                    } else {
                        Plan::Compact(
                            CompactionOptions {
                                algorithm: CompactionAlgorithm::Lookup,
                                until,
                                workers,
                                shift_begin: true,
                                checkpoint: false,
                            },
                        )
                    },
                }
            }),
    {
        if self.stop {
            return Plan::Stop;
        }
        if self.reclaim {
            return Plan::Reclaim { begin };
        }
        match until {
            None => Plan::Nothing,
            Some(until) => {
                if self.completed == u64::MAX {
                    return Plan::Full;
                }
                Plan::Compact(
                    CompactionOptions {
                        algorithm: CompactionAlgorithm::Lookup,
                        until,
                        workers,
                        shift_begin: true,
                        checkpoint: false,
                    },
                )
            },
        }
    }

    /// Whether an attempt to start a task is made again: something else was under way, or the log
    /// was truncated meanwhile.
    pub open spec fn tries_again(error: Error, moved: bool) -> bool {
        error is Busy || error is RangeTruncated || (error is InvalidFormat && moved)
    }

    /// Takes what became of the plan: a task that was accepted, nothing to do, or an error. `moved`
    /// says that the begin of the log has moved since the check. The result is the time to the next
    /// turn.
    pub fn accepted(
        &mut self,
        outcome: Result<Option<Task>, Error>,
        moved: bool,
        check_interval: Interval,
    ) -> (r: Result<Interval, Error>)
        requires
            check_interval.wf(),
        ensures
            match outcome {
                Ok(Some(task)) => {
                    &&& r == Ok::<Interval, Error>(Interval { secs: 0, nanos: 100_000 })
                    &&& *final(self) == (AutoCompaction {
                        phase: if task is Compact {
                            AutoCompactionPhase::Compacting
                        } else {
                            AutoCompactionPhase::Reclaiming
                        },
                        task: Some(task),
                        ..*old(self)
                    })
                },
                Ok(None) => {
                    &&& r == Ok::<Interval, Error>(check_interval)
                    &&& *final(self) == (AutoCompaction {
                        phase: AutoCompactionPhase::Idle,
                        ..*old(self)
                    })
                },
                Err(error) => if Self::tries_again(error, moved) {
                    &&& r == Ok::<Interval, Error>(
                        check_interval.shorter(Interval { secs: 0, nanos: 10_000_000 }),
                    )
                    &&& *final(self) == (AutoCompaction {
                        phase: AutoCompactionPhase::Scheduled,
                        ..*old(self)
                    })
                } else {
                    r == Err::<Interval, Error>(error) && *final(self) == *old(self)
                },
            },
    {
        match outcome {
            Ok(Some(task)) => {
                self.phase = match task {
                    Task::Compact(_) => AutoCompactionPhase::Compacting,
                    Task::Reclaim(_) => AutoCompactionPhase::Reclaiming,
                };
                self.task = Some(task);
                Ok(Interval { secs: 0, nanos: 100_000 })
            },
            Ok(None) => {
                self.phase = AutoCompactionPhase::Idle;
                Ok(check_interval)
            },
            Err(error) => {
                let again = match &error {
                    Error::Busy | Error::RangeTruncated => true,
                    Error::InvalidFormat(_) => moved,
                    _ => false,
                };
                if !again {
                    return Err(error);
                }
                self.phase = AutoCompactionPhase::Scheduled;
                Ok(check_interval.min(Interval { secs: 0, nanos: 10_000_000 }))
            },
        }
    }
}

/// To stop undoes nothing: a task that was accepted stays under way until its report is taken, and
/// the scheduler leaves only after that.
pub proof fn law_stop_waits_for_the_task(scheduler: AutoCompaction, report: TaskReport)
    requires
        scheduler.stop,
        scheduler.task matches Some(task) && report.answers(task),
    ensures
        scheduler.collected(report).stop,
        scheduler.collected(report).task is None,
        scheduler.collected(report).phase == AutoCompactionPhase::Stopping,
{
}

/// A failed task stops the scheduler, and its report is kept.
pub proof fn law_failure_stops(scheduler: AutoCompaction, report: TaskReport)
    requires
        report.is_failure(),
    ensures
        scheduler.collected(report).stop,
        scheduler.collected(report).failed,
        match report {
            TaskReport::Compaction(r) => scheduler.collected(report).last_compaction == Some(r),
            TaskReport::Reclamation(r) => scheduler.collected(report).last_reclamation == Some(r),
        },
{
}

/// The next compaction ends at the last page boundary that is safely cold and within what one
/// compaction may cover; there is none exactly when the log is below its trigger or no boundary lies
/// there.
pub proof fn law_target_is_the_last_boundary(
    policy: AutoCompactionPolicy,
    page: u64,
    f: Frontiers,
    boundary: u64,
)
    requires
        page > 0,
        policy.usable(),
        f.tail.0 >= f.begin.0,
    ensures
        ({
            let span = (f.tail.0 - f.begin.0) as nat;
            let fits = {
                &&& boundary as int % page as int == 0
                &&& f.begin.0 < boundary
                &&& boundary <= f.safe_head.0
                &&& boundary <= f.safe_read_only.0
                &&& boundary - f.begin.0 <= policy.max_compacted_bytes
                &&& boundary - f.begin.0 <= policy.compact_fraction.part_down(span)
            };
            let triggered = span >= policy.trigger_fraction.part_up(policy.log_size_budget as nat);
            &&& triggered && fits ==> {
                &&& next_target(policy, page, f) matches Some(until)
                &&& boundary <= until.0
            }
            &&& !triggered && span < u64::MAX ==> next_target(policy, page, f) is None
        }),
{
    let bound = policy.bound(f) as int;
    let p = page as int;
    let b = boundary as int;
    vstd::arithmetic::div_mod::lemma_fundamental_div_mod(bound, p);
    vstd::arithmetic::div_mod::lemma_fundamental_div_mod(b, p);
    if b <= bound && b % p == 0 {
        vstd::arithmetic::div_mod::lemma_div_is_ordered(b, bound, p);
        assert(b <= bound - bound % p) by (nonlinear_arith)
            requires
                bound == p * (bound / p) + bound % p,
                b == p * (b / p) + b % p,
                b % p == 0,
                b / p <= bound / p,
                p > 0,
        ;
    }
}

/// A report that is taken ends its task and is kept as the last of its kind; only a compaction is
/// counted. What it put off is to be deleted next, a failure stops the scheduler, and one that was not
/// told to stop is idle again.
pub proof fn law_report_is_kept(scheduler: AutoCompaction, report: TaskReport)
    requires
        scheduler.completed < u64::MAX,
    ensures
        ({
            let after = scheduler.collected(report);
            let broken = match report {
                TaskReport::Compaction(r) => *r is Err,
                TaskReport::Reclamation(r) => *r is Err,
            };
            let put_off = match report {
                TaskReport::Compaction(r) => *r is Ok && (*r)->Ok_0.gc is Some
                    && (*r)->Ok_0.gc->0.physical is DeferredByRuntime,
                TaskReport::Reclamation(r) => *r is Ok && (*r)->Ok_0.physical is DeferredByRuntime,
            };
            &&& after.task is None
            &&& report matches TaskReport::Compaction(r) ==> {
                &&& after.completed == scheduler.completed + 1
                &&& after.last_compaction == Some(r)
                &&& after.last_reclamation == scheduler.last_reclamation
            }
            &&& report matches TaskReport::Reclamation(r) ==> {
                &&& after.completed == scheduler.completed
                &&& after.last_reclamation == Some(r)
                &&& after.last_compaction == scheduler.last_compaction
            }
            &&& after.failed == (scheduler.failed || broken)
            &&& after.stop == (scheduler.stop || scheduler.failed || broken)
            &&& after.phase == (if after.stop {
                AutoCompactionPhase::Stopping
            } else {
                AutoCompactionPhase::Idle
            })
            &&& after.reclaim == put_off
            &&& after.failure == scheduler.failure
        }),
{
}

/// An attempt is made again only for what passes: another action, a truncation, or options that the
/// moved begin made stale.
pub proof fn law_only_passing_errors_are_tried_again(error: Error, moved: bool)
    ensures
        AutoCompaction::tries_again(error, moved) <==> {
            ||| error == Error::Busy
            ||| error == Error::RangeTruncated
            ||| moved && error is InvalidFormat
        },
{
}

/// A report is taken only from a task of its kind.
pub proof fn law_report_fits_its_task(report: TaskReport, id: MaintenanceId)
    ensures
        report.answers(Task::Compact(id)) <==> report is Compaction,
        report.answers(Task::Reclaim(id)) <==> report is Reclamation,
{
}

/// The scheduler stops exactly when the store is gone, or it was told to and no task is under way. A task
/// is always seen to its end first; a failed engine is told, and nothing is checked before it is due.
pub proof fn law_turns(
    scheduler: AutoCompaction,
    alive: bool,
    engine_failed: bool,
    due: bool,
    r: Turn,
)
    requires
        call_ensures(AutoCompaction::turn, (&scheduler, alive, engine_failed, due), r),
    ensures
        r is Stop <==> !alive || (scheduler.stop && scheduler.task is None),
        r is Poll <==> alive && scheduler.task is Some,
        r is Broken <==> alive && scheduler.task is None && !scheduler.stop && engine_failed,
        r is Check <==> alive && scheduler.task is None && !scheduler.stop && !engine_failed && due,
        r is Sleep <==> alive && scheduler.task is None && !scheduler.stop && !engine_failed && !due,
{
}

/// A check finds what was left to delete before anything else, and then a compaction to the target,
/// which moves the begin of the log and makes no checkpoint; nothing once a stop was requested.
pub proof fn law_plans(
    scheduler: AutoCompaction,
    begin: LogAddress,
    until: Option<LogAddress>,
    workers: usize,
    r: Plan,
)
    requires
        call_ensures(AutoCompaction::plan, (&scheduler, begin, until, workers), r),
    ensures
        r is Stop <==> scheduler.stop,
        r is Reclaim <==> !scheduler.stop && scheduler.reclaim,
        r matches Plan::Reclaim { begin: from } ==> from == begin,
        r is Nothing <==> !scheduler.stop && !scheduler.reclaim && until is None,
        r is Full <==> !scheduler.stop && !scheduler.reclaim && until is Some && scheduler.completed
            == u64::MAX,
        r matches Plan::Compact(options) ==> {
            &&& until == Some(options.until)
            &&& options.workers == workers
            &&& options.shift_begin
            &&& !options.checkpoint
        },
{
}

/// What became of a plan: a task is under way from then on, nothing to do lets the scheduler rest for an
/// interval, what passes is tried again at the latest after one, and every other error is passed on.
pub proof fn law_plan_is_followed(
    scheduler: &mut AutoCompaction,
    outcome: Result<Option<Task>, Error>,
    moved: bool,
    check_interval: Interval,
    r: Result<Interval, Error>,
)
    requires
        check_interval.wf(),
        call_ensures(AutoCompaction::accepted, (scheduler, outcome, moved, check_interval), r),
    ensures
        outcome matches Ok(Some(task)) ==> final(scheduler).task == Some(task) && r is Ok,
        !(outcome matches Ok(Some(_))) ==> final(scheduler).task == old(scheduler).task,
        outcome matches Ok(None) ==> r == Ok::<Interval, Error>(check_interval)
            && final(scheduler).phase == AutoCompactionPhase::Idle,
        outcome matches Err(error) ==> {
            let passes = error == Error::Busy || error == Error::RangeTruncated || (moved
                && error is InvalidFormat);
            &&& r is Ok <==> passes
            &&& !passes ==> r == Err::<Interval, Error>(error) && *final(scheduler) == *old(scheduler)
            &&& passes ==> r->Ok_0.nanoseconds() <= check_interval.nanoseconds()
                && r->Ok_0.nanoseconds() <= 10_000_000
        },
        final(scheduler).completed == old(scheduler).completed,
        final(scheduler).stop == old(scheduler).stop,
        final(scheduler).failed == old(scheduler).failed,
        final(scheduler).reclaim == old(scheduler).reclaim,
{
}

/// A request to stop is never taken back, and changes the phase only of a scheduler that runs.
pub proof fn law_stop_is_kept(scheduler: &mut AutoCompaction)
    requires
        call_ensures(AutoCompaction::request_stop, (scheduler,), ()),
    ensures
        final(scheduler).stop,
        final(scheduler).task == old(scheduler).task,
        final(scheduler).failed == old(scheduler).failed,
        old(scheduler).phase == AutoCompactionPhase::Disabled || old(scheduler).phase
            == AutoCompactionPhase::Stopped || old(scheduler).phase == AutoCompactionPhase::Failed
            ==> final(scheduler).phase == old(scheduler).phase,
        old(scheduler).phase == AutoCompactionPhase::Idle || old(scheduler).phase
            == AutoCompactionPhase::Compacting || old(scheduler).phase
            == AutoCompactionPhase::Reclaiming ==> final(scheduler).phase
            == AutoCompactionPhase::Stopping,
{
}

/// The first error of a scheduler is the one that it shows, and it stops with it.
pub proof fn law_first_error_is_shown(scheduler: &mut AutoCompaction, error: Error)
    requires
        call_ensures(AutoCompaction::fail, (scheduler, error), ()),
    ensures
        final(scheduler).failed && final(scheduler).stop,
        old(scheduler).failure is Some ==> final(scheduler).failure == old(scheduler).failure,
        old(scheduler).failure is None ==> *(final(scheduler).failure->0) == error,
        final(scheduler).task == old(scheduler).task,
        final(scheduler).completed == old(scheduler).completed,
{
}

} // verus!
