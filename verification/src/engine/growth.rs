//! The growth of the index: entries are copied bucket by bucket while all operations stand still,
//! and the report waits until the old table is given back.
use crate::allocation::{reserve, Memory};
use crate::engine::cache::{find_taken, first_taken, lemma_first_taken};
use crate::engine::common::{enter, entered, CoordinatorState, Flow, Gate, Phase};
use crate::reports::IndexGrowthReport;
use crate::types::{Error, Generation, MaintenanceId};
use vstd::prelude::*;

verus! {

/// How far the copying has come.
#[derive(Clone, Copy, Debug, PartialEq, Eq, Structural)]
pub struct GrowthProgress {
    pub complete: bool,
    pub generation: Generation,
    pub old_buckets: usize,
    pub new_buckets: usize,
}

/// The call that a step waits for.
#[derive(Clone, Copy, Debug, PartialEq, Eq, Structural)]
pub enum GrowthCall {
    /// No step is under way.
    Idle,
    /// Look at the coordinator.
    State,
    BeginGrowth,
    /// Try to stop all operations.
    Gates { advanced: bool },
    /// Copy one bucket.
    GrowStep,
    /// Give the old table to the epoch, to be released when nobody reads it.
    Defer,
    AdvanceEpoch,
    /// Let the coordinator leave the phase.
    Leave,
    /// Collect what the epoch releases.
    Collect,
    /// Release the old table.
    Release { generation: Generation },
    FinishAction,
    Report,
}

/// What the epoch released.
#[derive(Clone, Copy, Debug, PartialEq, Eq, Structural)]
pub enum Released {
    Index(Generation),
    Other,
}

/// The reply to a call that did not fail.
#[derive(Debug)]
pub enum GrowthReply {
    Done,
    State(CoordinatorState),
    Progress(GrowthProgress),
    /// What was found of the lock of every operation, in their order.
    Gates(Vec<Gate>),
    Collected(Vec<Released>),
}

impl GrowthReply {
    /// Whether this is the kind of reply that `call` gets. The generation of a grown table is not
    /// the first.
    pub open spec fn answers(self, call: GrowthCall) -> bool {
        match call {
            GrowthCall::Idle => false,
            GrowthCall::State => self is State,
            GrowthCall::BeginGrowth => self is Progress,
            GrowthCall::Gates { .. } => self is Gates,
            GrowthCall::GrowStep => self matches GrowthReply::Progress(progress)
                && progress.generation.0 > 0,
            GrowthCall::Collect => self is Collected,
            _ => self is Done,
        }
    }
}

pub struct GrowthJob {
    pub id: MaintenanceId,
    pub call: GrowthCall,
    pub progress: Option<GrowthProgress>,
    /// What the epoch released and was not looked at.
    pub released: Vec<Released>,
    pub reclaimed: bool,
    pub failed: bool,
    pub finished: bool,
}

impl GrowthJob {
    pub open spec fn more(self, call: GrowthCall) -> (GrowthJob, Result<Flow, Error>) {
        (GrowthJob { call, ..self }, Ok(Flow::More))
    }

    pub open spec fn ended(self, advanced: bool) -> (GrowthJob, Result<Flow, Error>) {
        (GrowthJob { call: GrowthCall::Idle, ..self }, Ok(Flow::Ended(advanced)))
    }

    pub open spec fn stopped(self, error: Error) -> (GrowthJob, Result<Flow, Error>) {
        (GrowthJob { call: GrowthCall::Idle, ..self }, Err(error))
    }

    /// What the state of the coordinator makes of the job.
    pub open spec fn seen(self, state: CoordinatorState) -> (GrowthJob, Result<Flow, Error>) {
        if state.id != Some(self.id) || state.phase == Phase::Failed {
            self.stopped(Error::InvalidState("The expansion operation has expired or failed."))
        } else {
            match state.phase {
                Phase::GrowPrepare => self.ended(false),
                Phase::GrowCopy => if self.progress is None {
                    self.more(GrowthCall::BeginGrowth)
                } else {
                    self.more(GrowthCall::Gates { advanced: false })
                },
                Phase::Publish => if self.progress is None {
                    self.stopped(Error::InvalidState("Expansion is missing migration results"))
                } else {
                    self.more(GrowthCall::Collect)
                },
                _ => self.stopped(
                    Error::InvalidState("The expansion operation is at the wrong stage"),
                ),
            }
        }
    }

    /// Whether `released` is the table before the grown one.
    pub open spec fn is_old_table(self, released: Released) -> bool {
        released matches Released::Index(generation) && generation.0 + 1
            == self.progress->0.generation.0
    }

    /// What the job does with the next thing that the epoch released.
    pub open spec fn sorted(self, released: Seq<Released>, r: (GrowthJob, Result<Flow, Error>)) -> bool {
        if released.len() == 0 {
            r == (if self.reclaimed {
                self.more(GrowthCall::FinishAction)
            } else {
                self.ended(false)
            })
        } else if self.is_old_table(released[0]) {
            r == self.more(GrowthCall::Release { generation: released[0]->Index_0 })
        } else {
            r == self.stopped(
                Error::InvalidState("Expansion received unsupported epoch release action"),
            )
        }
    }

    /// What the locks of the operations make of the job: all have to be had, and the first that is
    /// not decides.
    pub open spec fn stilled(self, gates: Seq<Gate>, advanced: bool) -> (
        GrowthJob,
        Result<Flow, Error>,
    ) {
        let taken = first_taken(gates, 0);
        if taken >= gates.len() {
            self.more(GrowthCall::GrowStep)
        } else if gates[taken] == Gate::Held {
            self.ended(advanced)
        } else {
            self.stopped(
                Error::InvalidState(
                    "Capacity expansion encounters business arbitration lock poisoning",
                ),
            )
        }
    }

    /// What a reply makes of the job, and how the step goes on. The locks are held together, which
    /// takes memory first.
    pub open spec fn next(
        self,
        reply: Result<GrowthReply, Error>,
        memory: Memory,
        r: (GrowthJob, Result<Flow, Error>),
    ) -> bool {
        match reply {
            Err(error) => r == self.stopped(error),
            Ok(reply) => match self.call {
                GrowthCall::State => r == self.seen(reply->State_0),
                GrowthCall::BeginGrowth => r == GrowthJob {
                    progress: Some(reply->Progress_0),
                    ..self
                }.more(GrowthCall::Gates { advanced: true }),
                GrowthCall::Gates { advanced } => {
                    let gates = reply->Gates_0@;
                    ||| !(memory is Refused && gates.len() > 0) && r == self.stilled(
                        gates,
                        advanced,
                    )
                    ||| !(memory is Granted) && gates.len() > 0 && r == self.stopped(
                        Error::OutOfMemory,
                    )
                },
                GrowthCall::GrowStep => {
                    let grown = GrowthJob { progress: Some(reply->Progress_0), ..self };
                    if reply->Progress_0.complete {
                        r == grown.more(GrowthCall::Defer)
                    } else {
                        r == grown.ended(true)
                    }
                },
                GrowthCall::Defer => r == self.more(GrowthCall::AdvanceEpoch),
                GrowthCall::AdvanceEpoch => r == self.more(GrowthCall::Leave),
                GrowthCall::Leave => r == self.ended(true),
                GrowthCall::Collect => {
                    &&& r.0.released == reply->Collected_0
                    &&& GrowthJob { released: r.0.released, ..self }.sorted(
                        reply->Collected_0@,
                        r,
                    )
                },
                GrowthCall::Release { .. } => {
                    &&& r.0.released@ == self.released@.drop_first()
                    &&& GrowthJob { released: r.0.released, reclaimed: true, ..self }.sorted(
                        r.0.released@,
                        r,
                    )
                },
                GrowthCall::FinishAction => r == self.more(GrowthCall::Report),
                _ => r == GrowthJob { finished: true, ..self }.ended(true),
            },
        }
    }

    pub open spec fn wf(self) -> bool {
        &&& match self.call {
            GrowthCall::Defer => self.progress is Some && self.progress->0.generation.0 > 0
                && self.progress->0.complete,
            GrowthCall::AdvanceEpoch => self.progress is Some && self.progress->0.complete,
            GrowthCall::Leave => self.progress is Some && self.progress->0.complete,
            GrowthCall::Collect => self.progress is Some,
            GrowthCall::Release { .. } => self.progress is Some && self.released@.len() > 0,
            GrowthCall::FinishAction => self.progress is Some && self.reclaimed,
            GrowthCall::Report => self.progress is Some && self.reclaimed,
            _ => true,
        }
        &&& self.finished ==> self.reclaimed
    }

    /// The job has done nothing yet.
    pub open spec fn starts(self, id: MaintenanceId) -> bool {
        &&& self.id == id
        &&& self.call == GrowthCall::Idle
        &&& self.progress is None
        &&& self.released@.len() == 0
        &&& !self.reclaimed
        &&& !self.failed
        &&& !self.finished
    }

    pub fn new(id: MaintenanceId) -> (r: GrowthJob)
        ensures
            r.wf(),
            r.starts(id),
    {
        GrowthJob {
            id,
            call: GrowthCall::Idle,
            progress: None,
            released: Vec::new(),
            reclaimed: false,
            failed: false,
            finished: false,
        }
    }

    /// Starts a step.
    pub fn begin(&mut self)
        requires
            old(self).wf(),
        ensures
            final(self).wf(),
            *final(self) == (GrowthJob { call: GrowthCall::State, ..*old(self) }),
    {
        self.call = GrowthCall::State;
    }

    /// The generation of the table that is given to the epoch.
    pub fn old_generation(&self) -> (r: Generation)
        requires
            self.wf(),
            self.call is Defer,
        ensures
            r.0 + 1 == self.progress->0.generation.0,
    {
        match self.progress {
            Some(progress) => Generation(progress.generation.0 - 1),
            None => Generation(0),
        }
    }

    /// The report of a job that is done.
    pub fn report(&self) -> (r: IndexGrowthReport)
        requires
            self.wf(),
            self.call is Report,
        ensures
            r == (IndexGrowthReport {
                old_buckets: self.progress->0.old_buckets,
                new_buckets: self.progress->0.new_buckets,
                generation: self.progress->0.generation,
            }),
    {
        match self.progress {
            Some(progress) => IndexGrowthReport {
                old_buckets: progress.old_buckets,
                new_buckets: progress.new_buckets,
                generation: progress.generation,
            },
            None => IndexGrowthReport { old_buckets: 0, new_buckets: 0, generation: Generation(0) },
        }
    }

    fn sort_released(&mut self) -> (r: Result<Flow, Error>)
        requires
            old(self).progress is Some,
            old(self).finished ==> old(self).reclaimed,
        ensures
            old(self).sorted(old(self).released@, (*final(self), r)),
            final(self).released == old(self).released,
            final(self).wf(),
    {
        self.call = GrowthCall::Idle;
        if self.released.len() == 0 {
            if self.reclaimed {
                self.call = GrowthCall::FinishAction;
                return Ok(Flow::More);
            }
            return Ok(Flow::Ended(false));
        }
        let wanted = match self.progress {
            Some(progress) => progress.generation.0,
            None => 0,
        };
        if let Released::Index(generation) = self.released[0] {
            if generation.0 < u64::MAX && generation.0 + 1 == wanted {
                self.call = GrowthCall::Release { generation };
                return Ok(Flow::More);
            }
        }
        Err(Error::InvalidState("Expansion received unsupported epoch release action"))
    }

    fn see(&mut self, state: CoordinatorState) -> (r: Result<Flow, Error>)
        requires
            old(self).wf(),
        ensures
            (*final(self), r) == old(self).seen(state),
            final(self).wf(),
    {
        self.call = GrowthCall::Idle;
        let current = match state.id {
            Some(id) => id == self.id,
            None => false,
        };
        if !current || state.phase == Phase::Failed {
            return Err(Error::InvalidState("The expansion operation has expired or failed."));
        }
        match state.phase {
            Phase::GrowPrepare => Ok(Flow::Ended(false)),
            Phase::GrowCopy => {
                self.call = if self.progress.is_none() {
                    GrowthCall::BeginGrowth
                } else {
                    GrowthCall::Gates { advanced: false }
                };
                Ok(Flow::More)
            },
            Phase::Publish => {
                if self.progress.is_none() {
                    return Err(Error::InvalidState("Expansion is missing migration results"));
                }
                self.call = GrowthCall::Collect;
                Ok(Flow::More)
            },
            _ => Err(Error::InvalidState("The expansion operation is at the wrong stage")),
        }
    }

    /// Takes the reply to the call of the step. `memory` decides whether the locks of the operations
    /// can be held together.
    pub fn accept(&mut self, reply: Result<GrowthReply, Error>, memory: Memory) -> (r: Result<
        Flow,
        Error,
    >)
        requires
            old(self).wf(),
            old(self).call != GrowthCall::Idle,
            reply matches Ok(reply) ==> reply.answers(old(self).call),
        ensures
            old(self).next(reply, memory, (*final(self), r)),
            final(self).wf(),
    {
        let call = self.call;
        self.call = GrowthCall::Idle;
        let reply = match reply {
            Ok(reply) => reply,
            Err(error) => {
                return Err(error);
            },
        };
        match call {
            GrowthCall::State => match reply {
                GrowthReply::State(state) => {
                    self.call = call;
                    self.see(state)
                },
                _ => Ok(Flow::Ended(false)),
            },
            GrowthCall::BeginGrowth => {
                if let GrowthReply::Progress(progress) = reply {
                    self.progress = Some(progress);
                }
                self.call = GrowthCall::Gates { advanced: true };
                Ok(Flow::More)
            },
            GrowthCall::Gates { advanced } => match reply {
                GrowthReply::Gates(gates) => {
                    let mut guards: Vec<Gate> = Vec::new();
                    if !reserve(&mut guards, gates.len(), memory) {
                        return Err(Error::OutOfMemory);
                    }
                    match find_taken(gates.as_slice()) {
                        Gate::Held => Ok(Flow::Ended(advanced)),
                        Gate::Poisoned => Err(
                            Error::InvalidState(
                                "Capacity expansion encounters business arbitration lock poisoning",
                            ),
                        ),
                        Gate::Free => {
                            self.call = GrowthCall::GrowStep;
                            Ok(Flow::More)
                        },
                    }
                },
                _ => Ok(Flow::Ended(advanced)),
            },
            GrowthCall::GrowStep => {
                if let GrowthReply::Progress(progress) = reply {
                    self.progress = Some(progress);
                    if progress.complete {
                        self.call = GrowthCall::Defer;
                        return Ok(Flow::More);
                    }
                }
                Ok(Flow::Ended(true))
            },
            GrowthCall::Defer => {
                self.call = GrowthCall::AdvanceEpoch;
                Ok(Flow::More)
            },
            GrowthCall::AdvanceEpoch => {
                self.call = GrowthCall::Leave;
                Ok(Flow::More)
            },
            GrowthCall::Leave => Ok(Flow::Ended(true)),
            GrowthCall::Collect => {
                if let GrowthReply::Collected(released) = reply {
                    self.released = released;
                }
                self.sort_released()
            },
            GrowthCall::Release { .. } => {
                let _ = self.released.remove(0);
                assert(self.released@ =~= old(self).released@.drop_first());
                self.reclaimed = true;
                self.sort_released()
            },
            GrowthCall::FinishAction => {
                self.call = GrowthCall::Report;
                Ok(Flow::More)
            },
            _ => {
                self.finished = true;
                Ok(Flow::Ended(true))
            },
        }
    }
}

/// The growth under way.
pub struct GrowthRuntime {
    pub job: Option<GrowthJob>,
}

impl GrowthRuntime {
    pub open spec fn wf(self) -> bool {
        self.job matches Some(job) ==> job.wf()
    }

    pub fn new() -> (r: GrowthRuntime)
        ensures
            r.wf(),
            r.job is None,
    {
        GrowthRuntime { job: None }
    }

    /// Takes the answer of the coordinator to the action that was asked for.
    pub fn start(&mut self, started: Result<MaintenanceId, Error>) -> (r: Result<
        MaintenanceId,
        Error,
    >)
        requires
            old(self).job is None,
        ensures
            final(self).wf(),
            r == started,
            match started {
                Err(_) => final(self).job is None,
                Ok(id) => final(self).job matches Some(job) && job.starts(id),
            },
    {
        match started {
            Err(error) => Err(error),
            Ok(id) => {
                self.job = Some(GrowthJob::new(id));
                Ok(id)
            },
        }
    }

    /// Whether a step is made.
    pub fn enter(&self, gate: Gate) -> (r: Result<bool, Error>)
        ensures
            r == entered(
                gate,
                "Expansion task lock poisoning",
                self.job matches Some(job) && !job.failed,
            ),
    {
        let due = match &self.job {
            Some(job) => !job.failed,
            None => false,
        };
        enter(gate, "Expansion task lock poisoning", due)
    }

    /// Ends a step that did not fail. Says whether it advanced, and whether the growth is done.
    pub fn leave(&mut self, advanced: bool) -> (r: (bool, bool))
        requires
            old(self).wf(),
            old(self).job is Some,
        ensures
            final(self).wf(),
            r == (advanced, old(self).job->0.finished),
            final(self).job == (if old(self).job->0.finished {
                None
            } else {
                old(self).job
            }),
    {
        let finished = match &self.job {
            Some(job) => job.finished,
            None => false,
        };
        if finished {
            self.job = None;
        }
        (advanced, finished)
    }

    /// Ends a step that failed, after its error went to the ticket: the growth is over, unless the
    /// ticket did not take the error.
    pub fn broken(&mut self, delivered: Result<(), Error>) -> (r: Error)
        requires
            old(self).wf(),
            old(self).job is Some,
        ensures
            final(self).wf(),
            match delivered {
                Err(error) => r == error && *final(self) == *old(self),
                Ok(()) => r == Error::InvalidState("Expansion failed,see_maintenance_report")
                    && final(self).job == Some(GrowthJob { failed: true, ..old(self).job->0 }),
            },
    {
        match delivered {
            Err(error) => error,
            Ok(()) => {
                if let Some(job) = &mut self.job {
                    job.failed = true;
                }
                Error::InvalidState("Expansion failed,see_maintenance_report")
            },
        }
    }

    /// What goes to the ticket of a growth whose engine failed, unless the growth has ended.
    pub fn failure(&self, gate: Gate) -> (r: Result<Option<Error>, Error>)
        ensures
            r == (match gate {
                Gate::Held => Ok::<Option<Error>, Error>(None),
                Gate::Poisoned => Err::<Option<Error>, Error>(
                    Error::InvalidState("Expansion task lock poisoning"),
                ),
                Gate::Free => Ok::<Option<Error>, Error>(
                    if self.job matches Some(job) && !job.failed && !job.finished {
                        Some(
                            Error::InvalidState(
                                "Engine or coordination action failed,Expansion terminated",
                            ),
                        )
                    } else {
                        None
                    },
                ),
            }),
    {
        let running = match &self.job {
            Some(job) => !job.failed && !job.finished,
            None => false,
        };
        match enter(gate, "Expansion task lock poisoning", running) {
            Err(error) => Err(error),
            Ok(true) => Ok(
                Some(
                    Error::InvalidState("Engine or coordination action failed,Expansion terminated"),
                ),
            ),
            Ok(false) => Ok(None),
        }
    }

    /// The ticket took the failure, or did not: then the growth has not ended.
    pub fn failed(&mut self, delivered: Result<(), Error>) -> (r: Result<(), Error>)
        requires
            old(self).wf(),
            old(self).job is Some,
        ensures
            final(self).wf(),
            match delivered {
                Err(error) => r == Err::<(), Error>(error) && *final(self) == *old(self),
                Ok(()) => r is Ok && final(self).job == Some(
                    GrowthJob { failed: true, ..old(self).job->0 },
                ),
            },
    {
        match delivered {
            Err(error) => Err(error),
            Ok(()) => {
                if let Some(job) = &mut self.job {
                    job.failed = true;
                }
                Ok(())
            },
        }
    }
}

/// Whether a growth may start, as far as the engine decides.
pub fn growth_admission(failed: bool, shutdown_requested: bool, gate: Gate, running: bool) -> (r:
    Result<(), Error>)
    ensures
        r == (if failed || shutdown_requested {
            Err::<(), Error>(Error::InvalidState("storage_closed_or_failed"))
        } else if gate == Gate::Held {
            Err::<(), Error>(Error::Busy)
        } else if gate == Gate::Poisoned {
            Err::<(), Error>(Error::InvalidState("Expansion task lock poisoning"))
        } else if running {
            Err::<(), Error>(Error::Busy)
        } else {
            Ok::<(), Error>(())
        }),
{
    if failed || shutdown_requested {
        return Err(Error::InvalidState("storage_closed_or_failed"));
    }
    match gate {
        Gate::Held => {
            return Err(Error::Busy);
        },
        Gate::Poisoned => {
            return Err(Error::InvalidState("Expansion task lock poisoning"));
        },
        Gate::Free => {},
    }
    if running {
        return Err(Error::Busy);
    }
    Ok(())
}

/// Success is reported only after the old table was given back: a job that is not finished and
/// finishes with a reply had reclaimed it, and it reclaims only the table before the grown one.
pub proof fn law_report_waits_for_release(
    job: GrowthJob,
    reply: Result<GrowthReply, Error>,
    memory: Memory,
    r: (GrowthJob, Result<Flow, Error>),
)
    requires
        job.wf(),
        job.call != GrowthCall::Idle,
        job.next(reply, memory, r),
        reply matches Ok(reply) ==> reply.answers(job.call),
    ensures
        r.0.finished && !job.finished ==> job.reclaimed,
        r.0.reclaimed && !job.reclaimed ==> job.call is Release,
        r.0.call matches GrowthCall::Release { generation } ==> generation.0 + 1
            == r.0.progress->0.generation.0,
{
}

/// The old table is given to the epoch, and the copy phase is left, only after the migration said that
/// it is complete: until then every bucket that was copied ends the step, and the next one copies
/// another.
pub proof fn law_table_is_kept_until_complete(
    job: GrowthJob,
    reply: Result<GrowthReply, Error>,
    memory: Memory,
    r: (GrowthJob, Result<Flow, Error>),
)
    requires
        job.wf(),
        job.call != GrowthCall::Idle,
        job.next(reply, memory, r),
        reply matches Ok(reply) ==> reply.answers(job.call),
    ensures
        r.0.call is Defer || r.0.call is AdvanceEpoch || r.0.call is Leave ==> {
            &&& r.0.progress matches Some(progress)
            &&& progress.complete
        },
        r.0.call is Defer ==> job.call is GrowStep && reply is Ok,
        r.0.call is AdvanceEpoch ==> job.call is Defer && reply is Ok,
        r.0.call is Leave ==> job.call is AdvanceEpoch && reply is Ok,
        job.call is GrowStep && reply is Ok && !reply->Ok_0->Progress_0.complete ==> {
            &&& r.1 == Ok::<Flow, Error>(Flow::Ended(true))
            &&& r.0.call is Idle
        },
        job.call is GrowStep && reply is Ok && reply->Ok_0->Progress_0.complete ==> r.0.call is Defer
            && r.1 == Ok::<Flow, Error>(Flow::More),
        job.call is Defer && reply is Ok ==> r.0.call is AdvanceEpoch,
        job.call is AdvanceEpoch && reply is Ok ==> r.0.call is Leave,
        job.call is Leave && reply is Ok ==> r.1 == Ok::<Flow, Error>(Flow::Ended(true)),
{
}

/// A bucket is copied only in the copy phase of the own action, with a growth begun, and with the locks
/// of all operations had; one that another holds ends the step, one that is broken fails it, and the
/// first of either kind decides.
pub proof fn law_copies_while_all_stand_still(
    job: GrowthJob,
    reply: Result<GrowthReply, Error>,
    memory: Memory,
    r: (GrowthJob, Result<Flow, Error>),
    i: int,
)
    requires
        job.wf(),
        job.call != GrowthCall::Idle,
        job.next(reply, memory, r),
        reply matches Ok(reply) ==> reply.answers(job.call),
    ensures
        r.0.call is GrowStep ==> {
            &&& job.call is Gates
            &&& reply is Ok
            &&& 0 <= i < reply->Ok_0->Gates_0@.len() ==> reply->Ok_0->Gates_0@[i] == Gate::Free
        },
        job.call is Gates && reply is Ok && 0 <= i < reply->Ok_0->Gates_0@.len() && (
        forall|j: int|
            0 <= j < i ==> #[trigger] reply->Ok_0->Gates_0@[j] == Gate::Free) && memory is Granted ==> {
            &&& reply->Ok_0->Gates_0@[i] == Gate::Held ==> r.1 == Ok::<Flow, Error>(
                Flow::Ended(job.call->advanced),
            )
            &&& reply->Ok_0->Gates_0@[i] == Gate::Poisoned ==> r.1 is Err && r.1->Err_0
                is InvalidState
        },
        job.call is Gates && reply is Ok && memory is Granted && (forall|j: int|
            0 <= j < reply->Ok_0->Gates_0@.len() ==> #[trigger] reply->Ok_0->Gates_0@[j]
                == Gate::Free) ==> r.0.call is GrowStep,
        r.0.call matches GrowthCall::Gates { advanced } ==> r.0.progress is Some && {
            ||| !advanced && job.call is State && reply is Ok && reply->Ok_0->State_0.phase
                == Phase::GrowCopy && reply->Ok_0->State_0.id == Some(job.id)
            ||| advanced && job.call is BeginGrowth && reply is Ok
        },
        r.0.call is BeginGrowth ==> {
            &&& job.call is State
            &&& reply is Ok
            &&& reply->Ok_0->State_0.phase == Phase::GrowCopy
            &&& reply->Ok_0->State_0.id == Some(job.id)
            &&& job.progress is None
        },
        r.0.progress != job.progress ==> {
            &&& job.call is BeginGrowth || job.call is GrowStep
            &&& reply is Ok
            &&& r.0.progress == Some(reply->Ok_0->Progress_0)
        },
        (job.call is BeginGrowth || job.call is GrowStep) && reply is Ok ==> r.0.progress == Some(
            reply->Ok_0->Progress_0,
        ),
{
    if job.call is Gates && reply is Ok {
        lemma_first_taken(reply->Ok_0->Gates_0@, 0);
    }
}

/// What the coordinator says decides what a step does: an action that is another's, failed or in a
/// phase of another kind fails it; while the growth is prepared it waits; in the copy phase it begins
/// or copies; afterwards it collects what the epoch released, if there is a result.
pub proof fn law_phase_decides(
    job: GrowthJob,
    state: CoordinatorState,
    memory: Memory,
    r: (GrowthJob, Result<Flow, Error>),
)
    requires
        job.wf(),
        job.call is State,
        job.next(Ok(GrowthReply::State(state)), memory, r),
    ensures
        state.id != Some(job.id) || state.phase == Phase::Failed ==> r.1 is Err && r.1->Err_0
            is InvalidState,
        state.id == Some(job.id) && state.phase == Phase::GrowPrepare ==> r.1 == Ok::<Flow, Error>(
            Flow::Ended(false),
        ),
        state.id == Some(job.id) && state.phase == Phase::GrowCopy ==> r.1 == Ok::<Flow, Error>(
            Flow::More,
        ) && r.0.call == (if job.progress is None {
            GrowthCall::BeginGrowth
        } else {
            GrowthCall::Gates { advanced: false }
        }),
        state.id == Some(job.id) && state.phase == Phase::Publish ==> if job.progress is Some {
            r.0.call is Collect && r.1 == Ok::<Flow, Error>(Flow::More)
        } else {
            r.1 is Err && r.1->Err_0 is InvalidState
        },
        r.1 is Ok ==> state.id == Some(job.id) && (state.phase == Phase::GrowPrepare || state.phase
            == Phase::GrowCopy || state.phase == Phase::Publish),
        r.0.progress == job.progress,
        r.0.released == job.released,
        r.0.reclaimed == job.reclaimed,
        r.0.finished == job.finished,
{
}

/// Only the table before the grown one is released, everything that the epoch gave is looked at in its
/// order, anything else fails the step, and the action is finished, and the report made, only after
/// the table was released. Nothing else ends the growth.
pub proof fn law_old_table_is_released(
    job: GrowthJob,
    reply: Result<GrowthReply, Error>,
    memory: Memory,
    r: (GrowthJob, Result<Flow, Error>),
)
    requires
        job.wf(),
        job.call != GrowthCall::Idle,
        job.next(reply, memory, r),
        reply matches Ok(reply) ==> reply.answers(job.call),
    ensures
        r.0.call matches GrowthCall::Release { generation } ==> {
            &&& r.0.progress matches Some(progress)
            &&& progress.generation.0 == generation.0 + 1
            &&& r.0.released@.len() > 0
            &&& r.0.released@[0] == Released::Index(generation)
        },
        job.call is Collect && reply is Ok ==> r.0.released@ == reply->Ok_0->Collected_0@,
        job.call is Release && reply is Ok ==> r.0.released@ == job.released@.skip(1)
            && r.0.reclaimed,
        (job.call is Collect || job.call is Release) && reply is Ok ==> {
            let rest = r.0.released@;
            if rest.len() == 0 {
                if r.0.reclaimed {
                    r.0.call is FinishAction && r.1 == Ok::<Flow, Error>(Flow::More)
                } else {
                    r.1 == Ok::<Flow, Error>(Flow::Ended(false)) && r.0.call is Idle
                }
            } else if rest[0] matches Released::Index(generation) && generation.0 + 1
                == job.progress->0.generation.0 {
                r.0.call is Release && r.1 == Ok::<Flow, Error>(Flow::More)
            } else {
                r.1 is Err && r.1->Err_0 is InvalidState
            }
        },
        r.0.reclaimed != job.reclaimed ==> job.call is Release && reply is Ok && r.0.reclaimed,
        r.0.call is FinishAction ==> r.0.reclaimed,
        r.0.call is Report ==> job.call is FinishAction && reply is Ok,
        job.call is FinishAction && reply is Ok ==> r.0.call is Report,
        r.0.finished != job.finished ==> job.call is Report && reply is Ok && r.0.finished,
        job.call is Report && reply is Ok ==> r.0.finished && r.1 == Ok::<Flow, Error>(
            Flow::Ended(true),
        ),
        r.0.id == job.id,
        r.0.failed == job.failed,
        reply matches Err(error) ==> r.1 == Err::<Flow, Error>(error) && r.0 == (GrowthJob {
            call: GrowthCall::Idle,
            ..job
        }),
{
    if job.call is Release && reply is Ok {
        assert(job.released@.drop_first() =~= job.released@.skip(1));
    }
}

/// A growth is taken on exactly by an engine that is open while no other is under way.
pub proof fn law_growth_is_taken_on(
    failed: bool,
    shutdown_requested: bool,
    gate: Gate,
    running: bool,
    r: Result<(), Error>,
)
    requires
        call_ensures(growth_admission, (failed, shutdown_requested, gate, running), r),
    ensures
        r is Ok <==> !failed && !shutdown_requested && gate == Gate::Free && !running,
        r == Err::<(), Error>(Error::Busy) <==> !failed && !shutdown_requested && (gate == Gate::Held
            || (gate == Gate::Free && running)),
{
}

/// A growth starts with nothing done and is dropped exactly when it is finished.
pub proof fn law_dropped_when_finished(
    runtime: &mut GrowthRuntime,
    advanced: bool,
    r: (bool, bool),
    job: GrowthJob,
    id: MaintenanceId,
)
    requires
        old(runtime).job is Some,
        call_ensures(GrowthRuntime::leave, (runtime, advanced), r),
        job.starts(id),
    ensures
        r.0 == advanced,
        r.1 <==> old(runtime).job->0.finished,
        final(runtime).job is None <==> old(runtime).job->0.finished,
        final(runtime).job is Some ==> final(runtime).job == old(runtime).job,
        job.id == id,
        job.call is Idle,
        job.progress is None,
        job.released@.len() == 0,
        !job.reclaimed && !job.failed && !job.finished,
{
}

/// A growth whose error went to its ticket has failed and stays so; one whose ticket did not take it has
/// not.
pub proof fn law_failed_when_told(
    runtime: &mut GrowthRuntime,
    delivered: Result<(), Error>,
    r: Result<(), Error>,
)
    requires
        old(runtime).job is Some,
        call_ensures(GrowthRuntime::failed, (runtime, delivered), r),
    ensures
        r is Ok <==> delivered is Ok,
        delivered matches Err(error) ==> r == Err::<(), Error>(error),
        delivered is Ok ==> final(runtime).job is Some && final(runtime).job->0.failed,
        delivered is Err ==> *final(runtime) == *old(runtime),
{
}

} // verus!
