//! One turn of maintenance: the device is polled, every action under way goes on by one step, and
//! the barrier between two phases is crossed where all sessions have reached it. No callback of a
//! session is run. When anything fails, all actions fail with it.
use crate::engine::common::{CoordinatorState, Phase};
use crate::types::{Error, MaintenanceId, PollBudget};
use vstd::prelude::*;

verus! {

/// What a turn did.
#[derive(Clone, Copy, Debug, PartialEq, Eq, Structural)]
pub struct Progress {
    pub completed: usize,
    pub remaining: usize,
    pub phase_advanced: bool,
}

/// The call that a turn waits for.
#[derive(Clone, Copy, Debug, PartialEq, Eq, Structural)]
pub enum MaintenanceCall {
    /// No turn is under way.
    Idle,
    /// Look whether the engine failed.
    Health,
    FirstState,
    PollDevice,
    Scans,
    Storage,
    /// One step of each action.
    Checkpoint,
    Growth,
    Compaction,
    Gc,
    Release,
    RoundState,
    /// Cross the barrier behind `phase`.
    Advance { id: MaintenanceId, phase: Phase },
    /// Look whether the action changed, after the barrier could not be crossed.
    AdvanceState,
    LastState,
    /// Look whether a compaction owes a report.
    CompactionPending,
    /// The turn failed: let each action fail.
    FailCheckpoint,
    FailGrowth,
    FailCompaction,
    FailGc,
    FailRelease,
    FailState,
    FailAction { id: MaintenanceId },
}

/// The reply to a call that did not fail.
#[derive(Clone, Copy, Debug, PartialEq, Eq, Structural)]
pub enum MaintenanceReply {
    Done,
    Flag(bool),
    State(CoordinatorState),
    /// Whether an action went on, and whether it ended.
    Step { advanced: bool, completed: bool },
}

impl MaintenanceReply {
    /// Whether this is the kind of reply that `call` gets.
    pub open spec fn answers(self, call: MaintenanceCall) -> bool {
        match call {
            MaintenanceCall::Idle => false,
            MaintenanceCall::Health => self is Flag,
            MaintenanceCall::Storage => self is Flag,
            MaintenanceCall::CompactionPending => self is Flag,
            MaintenanceCall::FirstState => self is State,
            MaintenanceCall::RoundState => self is State,
            MaintenanceCall::AdvanceState => self is State,
            MaintenanceCall::LastState => self is State,
            MaintenanceCall::FailState => self is State,
            MaintenanceCall::Checkpoint => self is Step,
            MaintenanceCall::Growth => self is Step,
            MaintenanceCall::Compaction => self is Step,
            MaintenanceCall::Gc => self is Step,
            MaintenanceCall::Release => self is Step,
            _ => self is Done,
        }
    }
}

/// How a turn goes on.
#[derive(Debug)]
pub enum MaintenanceFlow {
    More,
    Ended(Result<Progress, Error>),
}

/// The sessions have to reach the end of this phase; in any other, an action itself goes on.
pub open spec fn is_barrier(phase: Phase) -> bool {
    match phase {
        Phase::PrepareIndex => true,
        Phase::Prepare => true,
        Phase::InProgress => true,
        Phase::WaitPending => true,
        Phase::GrowPrepare => true,
        _ => false,
    }
}

/// A turn under way.
pub struct MaintenanceTurn {
    pub call: MaintenanceCall,
    /// How many rounds are left, with the one under way.
    pub left: usize,
    pub advanced: bool,
    pub completed: usize,
    /// The state whose barrier is to be crossed.
    pub state: Option<CoordinatorState>,
    /// Why the barrier could not be crossed, or why the turn failed.
    pub error: Option<Error>,
    /// The engine has to close.
    pub fatal: bool,
}

impl MaintenanceTurn {
    pub open spec fn more(self, call: MaintenanceCall) -> (MaintenanceTurn, MaintenanceFlow) {
        (MaintenanceTurn { call, ..self }, MaintenanceFlow::More)
    }

    pub open spec fn ended(self, r: Result<Progress, Error>) -> (MaintenanceTurn, MaintenanceFlow) {
        (
            MaintenanceTurn { call: MaintenanceCall::Idle, error: None, ..self },
            MaintenanceFlow::Ended(r),
        )
    }

    /// The turn fails: the engine closes, and every action has to fail.
    pub open spec fn failed(self, error: Error) -> (MaintenanceTurn, MaintenanceFlow) {
        MaintenanceTurn { error: Some(error), fatal: true, ..self }.more(
            MaintenanceCall::FailCheckpoint,
        )
    }

    /// The end of a round that goes on.
    pub open spec fn rounded(self) -> (MaintenanceTurn, MaintenanceFlow) {
        let next = MaintenanceTurn { left: (self.left - 1) as usize, error: None, ..self };
        if next.left == 0 {
            next.more(MaintenanceCall::LastState)
        } else {
            next.more(MaintenanceCall::Checkpoint)
        }
    }

    pub open spec fn stepped(self, reply: MaintenanceReply, call: MaintenanceCall) -> (
        MaintenanceTurn,
        MaintenanceFlow,
    ) {
        MaintenanceTurn {
            advanced: self.advanced || reply->advanced,
            completed: if reply->completed {
                (self.completed + 1) as usize
            } else {
                self.completed
            },
            ..self
        }.more(call)
    }

    /// Whether the call belongs to the end of a turn that failed.
    pub open spec fn is_failing(self) -> bool {
        match self.call {
            MaintenanceCall::FailCheckpoint => true,
            MaintenanceCall::FailGrowth => true,
            MaintenanceCall::FailCompaction => true,
            MaintenanceCall::FailGc => true,
            MaintenanceCall::FailRelease => true,
            MaintenanceCall::FailState => true,
            MaintenanceCall::FailAction { .. } => true,
            _ => false,
        }
    }

    /// What a failed call makes of the turn.
    pub open spec fn next_failed(self, error: Error) -> (MaintenanceTurn, MaintenanceFlow) {
        if self.is_failing() {
            self.ended(Err(error))
        } else {
            match self.call {
                MaintenanceCall::Advance { .. } => if error == Error::Busy {
                    self.more(MaintenanceCall::LastState)
                } else {
                    MaintenanceTurn { error: Some(error), ..self }.more(
                        MaintenanceCall::AdvanceState,
                    )
                },
                _ => self.failed(error),
            }
        }
    }

    /// What a reply makes of a turn that failed.
    pub open spec fn next_failing(self, reply: MaintenanceReply) -> (
        MaintenanceTurn,
        MaintenanceFlow,
    ) {
        match self.call {
            MaintenanceCall::FailCheckpoint => self.more(MaintenanceCall::FailGrowth),
            MaintenanceCall::FailGrowth => self.more(MaintenanceCall::FailCompaction),
            MaintenanceCall::FailCompaction => self.more(MaintenanceCall::FailGc),
            MaintenanceCall::FailGc => self.more(MaintenanceCall::FailRelease),
            MaintenanceCall::FailRelease => self.more(MaintenanceCall::FailState),
            MaintenanceCall::FailState => match reply->State_0.id {
                Some(id) => if reply->State_0.phase != Phase::Failed {
                    self.more(MaintenanceCall::FailAction { id })
                } else {
                    self.ended(Err(self.error->0))
                },
                None => self.ended(Err(self.error->0)),
            },
            _ => self.ended(Err(self.error->0)),
        }
    }

    /// What a reply makes of a turn.
    pub open spec fn next_turning(self, reply: MaintenanceReply) -> (
        MaintenanceTurn,
        MaintenanceFlow,
    ) {
        match self.call {
            MaintenanceCall::Health => if reply->Flag_0 {
                self.failed(Error::InvalidState("Engine or maintenance action has failed"))
            } else {
                self.more(MaintenanceCall::FirstState)
            },
            MaintenanceCall::FirstState => if reply->State_0.phase == Phase::Failed {
                self.failed(Error::InvalidState("Engine or maintenance action has failed"))
            } else {
                self.more(MaintenanceCall::PollDevice)
            },
            MaintenanceCall::PollDevice => self.more(MaintenanceCall::Scans),
            MaintenanceCall::Scans => self.more(MaintenanceCall::Storage),
            MaintenanceCall::Storage => MaintenanceTurn { advanced: reply->Flag_0, ..self }.more(
                MaintenanceCall::Checkpoint,
            ),
            MaintenanceCall::Checkpoint => self.stepped(reply, MaintenanceCall::Growth),
            MaintenanceCall::Growth => self.stepped(reply, MaintenanceCall::Compaction),
            MaintenanceCall::Compaction => self.stepped(reply, MaintenanceCall::Gc),
            MaintenanceCall::Gc => self.stepped(reply, MaintenanceCall::Release),
            MaintenanceCall::Release => self.stepped(reply, MaintenanceCall::RoundState),
            MaintenanceCall::RoundState => {
                let state = reply->State_0;
                if state.id is Some && is_barrier(state.phase) {
                    MaintenanceTurn { state: Some(state), ..self }.more(
                        MaintenanceCall::Advance { id: state.id->0, phase: state.phase },
                    )
                } else {
                    self.more(MaintenanceCall::LastState)
                }
            },
            MaintenanceCall::Advance { .. } => MaintenanceTurn {
                advanced: true,
                ..self
            }.rounded(),
            MaintenanceCall::AdvanceState => if self.state != Some(reply->State_0) {
                self.rounded()
            } else {
                self.failed(self.error->0)
            },
            MaintenanceCall::LastState => if reply->State_0.phase == Phase::Failed {
                self.failed(Error::InvalidState("Maintenance action failed"))
            } else if reply->State_0.id is Some {
                self.ended(
                    Ok(
                        Progress {
                            completed: self.completed,
                            remaining: 1,
                            phase_advanced: self.advanced,
                        },
                    ),
                )
            } else {
                self.more(MaintenanceCall::CompactionPending)
            },
            _ => self.ended(
                Ok(
                    Progress {
                        completed: self.completed,
                        remaining: if reply->Flag_0 {
                            1
                        } else {
                            0
                        },
                        phase_advanced: self.advanced,
                    },
                ),
            ),
        }
    }

    /// What a reply makes of the turn, and how it goes on.
    pub open spec fn next(self, reply: Result<MaintenanceReply, Error>) -> (
        MaintenanceTurn,
        MaintenanceFlow,
    ) {
        match reply {
            Err(error) => self.next_failed(error),
            Ok(reply) => if self.is_failing() {
                self.next_failing(reply)
            } else {
                self.next_turning(reply)
            },
        }
    }

    /// The call is one of a round.
    pub open spec fn in_round(self) -> bool {
        match self.call {
            MaintenanceCall::Checkpoint => true,
            MaintenanceCall::Growth => true,
            MaintenanceCall::Compaction => true,
            MaintenanceCall::Gc => true,
            MaintenanceCall::Release => true,
            MaintenanceCall::RoundState => true,
            MaintenanceCall::Advance { .. } => true,
            MaintenanceCall::AdvanceState => true,
            _ => false,
        }
    }

    /// The call comes before the first round.
    pub open spec fn starting(self) -> bool {
        match self.call {
            MaintenanceCall::Health => true,
            MaintenanceCall::FirstState => true,
            MaintenanceCall::PollDevice => true,
            MaintenanceCall::Scans => true,
            MaintenanceCall::Storage => true,
            _ => false,
        }
    }

    pub open spec fn wf(self) -> bool {
        &&& self.starting() || self.in_round() ==> self.left > 0
        &&& self.is_failing() || self.call is AdvanceState ==> self.error is Some
        &&& self.is_failing() ==> self.fatal
    }

    /// Starts a turn of at most `budget` rounds.
    pub fn new(budget: PollBudget) -> (r: MaintenanceTurn)
        ensures
            r.wf(),
            r == (MaintenanceTurn {
                call: MaintenanceCall::Health,
                left: budget@ as usize,
                advanced: false,
                completed: 0,
                state: None,
                error: None,
                fatal: false,
            }),
    {
        MaintenanceTurn {
            call: MaintenanceCall::Health,
            left: budget.get(),
            advanced: false,
            completed: 0,
            state: None,
            error: None,
            fatal: false,
        }
    }

    fn go(&mut self, call: MaintenanceCall) -> (r: MaintenanceFlow)
        ensures
            (*final(self), r) == old(self).more(call),
    {
        self.call = call;
        MaintenanceFlow::More
    }

    fn end(&mut self, result: Result<Progress, Error>) -> (r: MaintenanceFlow)
        ensures
            (*final(self), r) == old(self).ended(result),
    {
        self.call = MaintenanceCall::Idle;
        self.error = None;
        MaintenanceFlow::Ended(result)
    }

    fn fail(&mut self, error: Error) -> (r: MaintenanceFlow)
        ensures
            (*final(self), r) == old(self).failed(error),
    {
        self.error = Some(error);
        self.fatal = true;
        self.go(MaintenanceCall::FailCheckpoint)
    }

    fn round(&mut self) -> (r: MaintenanceFlow)
        requires
            old(self).left > 0,
        ensures
            (*final(self), r) == old(self).rounded(),
    {
        self.left = self.left - 1;
        self.error = None;
        if self.left == 0 {
            self.go(MaintenanceCall::LastState)
        } else {
            self.go(MaintenanceCall::Checkpoint)
        }
    }

    fn step(&mut self, reply: MaintenanceReply, call: MaintenanceCall) -> (r: MaintenanceFlow)
        requires
            reply is Step,
            old(self).completed < usize::MAX,
        ensures
            (*final(self), r) == old(self).stepped(reply, call),
    {
        if let MaintenanceReply::Step { advanced, completed } = reply {
            self.advanced = self.advanced || advanced;
            if completed {
                self.completed = self.completed + 1;
            }
        }
        self.go(call)
    }

    fn fail_with_error(&mut self) -> (r: MaintenanceFlow)
        requires
            old(self).error is Some,
        ensures
            (*final(self), r) == old(self).ended(Err(old(self).error->0)),
    {
        match self.error.take() {
            Some(error) => self.end(Err(error)),
            None => MaintenanceFlow::More,
        }
    }

    /// Takes the reply to the call of the turn.
    pub fn accept(&mut self, reply: Result<MaintenanceReply, Error>) -> (r: MaintenanceFlow)
        requires
            old(self).wf(),
            old(self).call != MaintenanceCall::Idle,
            old(self).completed < usize::MAX,
            reply matches Ok(reply) ==> reply.answers(old(self).call),
        ensures
            (*final(self), r) == old(self).next(reply),
            final(self).wf(),
    {
        let reply = match reply {
            Ok(reply) => reply,
            Err(error) => {
                return match self.call {
                    MaintenanceCall::FailCheckpoint | MaintenanceCall::FailGrowth
                    | MaintenanceCall::FailCompaction | MaintenanceCall::FailGc
                    | MaintenanceCall::FailRelease | MaintenanceCall::FailState
                    | MaintenanceCall::FailAction { .. } => self.end(Err(error)),
                    MaintenanceCall::Advance { .. } => match error {
                        Error::Busy => self.go(MaintenanceCall::LastState),
                        error => {
                            self.error = Some(error);
                            self.go(MaintenanceCall::AdvanceState)
                        },
                    },
                    _ => self.fail(error),
                };
            },
        };
        match self.call {
            MaintenanceCall::FailCheckpoint | MaintenanceCall::FailGrowth
            | MaintenanceCall::FailCompaction | MaintenanceCall::FailGc
            | MaintenanceCall::FailRelease | MaintenanceCall::FailState
            | MaintenanceCall::FailAction { .. } => self.accept_failing(reply),
            _ => self.accept_turning(reply),
        }
    }

    fn accept_failing(&mut self, reply: MaintenanceReply) -> (r: MaintenanceFlow)
        requires
            old(self).wf(),
            old(self).is_failing(),
            reply.answers(old(self).call),
        ensures
            (*final(self), r) == old(self).next_failing(reply),
            final(self).wf(),
    {
        match self.call {
            MaintenanceCall::FailCheckpoint => self.go(MaintenanceCall::FailGrowth),
            MaintenanceCall::FailGrowth => self.go(MaintenanceCall::FailCompaction),
            MaintenanceCall::FailCompaction => self.go(MaintenanceCall::FailGc),
            MaintenanceCall::FailGc => self.go(MaintenanceCall::FailRelease),
            MaintenanceCall::FailRelease => self.go(MaintenanceCall::FailState),
            MaintenanceCall::FailState => {
                if let MaintenanceReply::State(state) = reply {
                    if let Some(id) = state.id {
                        if state.phase != Phase::Failed {
                            return self.go(MaintenanceCall::FailAction { id });
                        }
                    }
                }
                self.fail_with_error()
            },
            _ => self.fail_with_error(),
        }
    }

    fn accept_turning(&mut self, reply: MaintenanceReply) -> (r: MaintenanceFlow)
        requires
            old(self).wf(),
            old(self).call != MaintenanceCall::Idle,
            !old(self).is_failing(),
            old(self).completed < usize::MAX,
            reply.answers(old(self).call),
        ensures
            (*final(self), r) == old(self).next_turning(reply),
            final(self).wf(),
    {
        match self.call {
            MaintenanceCall::Health => {
                if reply == MaintenanceReply::Flag(true) {
                    self.fail(Error::InvalidState("Engine or maintenance action has failed"))
                } else {
                    self.go(MaintenanceCall::FirstState)
                }
            },
            MaintenanceCall::FirstState => {
                let broken = match reply {
                    MaintenanceReply::State(state) => state.phase == Phase::Failed,
                    _ => false,
                };
                if broken {
                    self.fail(Error::InvalidState("Engine or maintenance action has failed"))
                } else {
                    self.go(MaintenanceCall::PollDevice)
                }
            },
            MaintenanceCall::PollDevice => self.go(MaintenanceCall::Scans),
            MaintenanceCall::Scans => self.go(MaintenanceCall::Storage),
            MaintenanceCall::Storage => {
                self.advanced = reply == MaintenanceReply::Flag(true);
                self.go(MaintenanceCall::Checkpoint)
            },
            MaintenanceCall::Checkpoint => self.step(reply, MaintenanceCall::Growth),
            MaintenanceCall::Growth => self.step(reply, MaintenanceCall::Compaction),
            MaintenanceCall::Compaction => self.step(reply, MaintenanceCall::Gc),
            MaintenanceCall::Gc => self.step(reply, MaintenanceCall::Release),
            MaintenanceCall::Release => self.step(reply, MaintenanceCall::RoundState),
            MaintenanceCall::RoundState => {
                if let MaintenanceReply::State(state) = reply {
                    let barrier = match state.phase {
                        Phase::PrepareIndex | Phase::Prepare | Phase::InProgress
                        | Phase::WaitPending | Phase::GrowPrepare => true,
                        _ => false,
                    };
                    if let Some(id) = state.id {
                        if barrier {
                            self.state = Some(state);
                            return self.go(MaintenanceCall::Advance { id, phase: state.phase });
                        }
                    }
                }
                self.go(MaintenanceCall::LastState)
            },
            MaintenanceCall::Advance { .. } => {
                self.advanced = true;
                self.round()
            },
            MaintenanceCall::AdvanceState => {
                let same = match (self.state, reply) {
                    (Some(before), MaintenanceReply::State(now)) => before == now,
                    _ => false,
                };
                if !same {
                    return self.round();
                }
                match self.error.take() {
                    Some(error) => self.fail(error),
                    None => MaintenanceFlow::More,
                }
            },
            MaintenanceCall::LastState => {
                let (broken, busy) = match reply {
                    MaintenanceReply::State(state) => (
                        state.phase == Phase::Failed,
                        state.id.is_some(),
                    ),
                    _ => (false, false),
                };
                if broken {
                    return self.fail(Error::InvalidState("Maintenance action failed"));
                }
                if busy {
                    let progress = Progress {
                        completed: self.completed,
                        remaining: 1,
                        phase_advanced: self.advanced,
                    };
                    return self.end(Ok(progress));
                }
                self.go(MaintenanceCall::CompactionPending)
            },
            _ => {
                let remaining: usize = if reply == MaintenanceReply::Flag(true) {
                    1
                } else {
                    0
                };
                let progress = Progress {
                    completed: self.completed,
                    remaining,
                    phase_advanced: self.advanced,
                };
                self.end(Ok(progress))
            },
        }
    }
}

/// A turn that fails closes the engine and lets every action fail before it ends: the only way out
/// of the failing calls is the last one, or an error of one of them.
pub proof fn law_failure_reaches_all(turn: MaintenanceTurn, reply: Result<MaintenanceReply, Error>)
    requires
        turn.wf(),
        turn.call != MaintenanceCall::Idle,
        reply matches Ok(reply) ==> reply.answers(turn.call),
    ensures
        turn.next(reply).1 matches MaintenanceFlow::Ended(Err(_)) ==> turn.fatal && {
            ||| reply is Err && turn.is_failing()
            ||| turn.call is FailState
            ||| turn.call is FailAction
        },
        turn.is_failing() && reply is Ok && !(turn.call is FailState) && !(turn.call is FailAction)
            ==> turn.next(reply).0.is_failing(),
        turn.next(reply).1 matches MaintenanceFlow::Ended(Ok(_)) ==> !turn.is_failing(),
{
}

/// A turn never takes more rounds than its budget: every further round costs one.
pub proof fn law_bounded(turn: MaintenanceTurn, reply: Result<MaintenanceReply, Error>)
    requires
        turn.wf(),
        turn.call != MaintenanceCall::Idle,
        reply matches Ok(reply) ==> reply.answers(turn.call),
    ensures
        turn.next(reply).0.left <= turn.left,
        turn.in_round() && turn.next(reply).0.call is Checkpoint ==> turn.next(reply).0.left
            < turn.left,
{
}

/// A round lets the checkpoint, the growth, the compaction, the collection and the release go on, one
/// step each and in this order, and keeps account of all of them: the turn advanced if any of them
/// did, and completed as many as ended.
pub proof fn law_every_action_gets_a_step(turn: MaintenanceTurn, advanced: bool, completed: bool)
    requires
        turn.wf(),
        turn.completed < usize::MAX,
        turn.call is Checkpoint || turn.call is Growth || turn.call is Compaction || turn.call is Gc
            || turn.call is Release,
    ensures
        ({
            let (next, flow) = turn.next(Ok(MaintenanceReply::Step { advanced, completed }));
            &&& flow is More
            &&& turn.call is Checkpoint <==> next.call is Growth
            &&& turn.call is Growth <==> next.call is Compaction
            &&& turn.call is Compaction <==> next.call is Gc
            &&& turn.call is Gc <==> next.call is Release
            &&& turn.call is Release <==> next.call is RoundState
            &&& next.advanced == (turn.advanced || advanced)
            &&& next.completed == turn.completed + if completed {
                1int
            } else {
                0
            }
            &&& next == (MaintenanceTurn {
                call: next.call,
                advanced: next.advanced,
                completed: next.completed,
                ..turn
            })
        }),
{
}

/// What is completed and whether anything advanced is changed by no other reply, but that the storage
/// says first whether it advanced, and that a crossed barrier is an advance.
pub proof fn law_account_is_kept(turn: MaintenanceTurn, reply: Result<MaintenanceReply, Error>)
    requires
        turn.wf(),
        turn.call != MaintenanceCall::Idle,
        reply matches Ok(reply) ==> reply.answers(turn.call) && !(reply is Step),
    ensures
        ({
            let next = turn.next(reply).0;
            &&& next.completed == turn.completed
            &&& next.advanced == (if reply is Ok && turn.call is Storage {
                reply->Ok_0->Flag_0
            } else {
                turn.advanced || (reply is Ok && turn.call is Advance)
            })
        }),
{
}

/// A turn ends well exactly when the last look at the coordinator finds it not failed: then it tells
/// what was completed, whether anything advanced, and that something remains while an action is under
/// way or a compaction owes a report.
pub proof fn law_progress_is_told(turn: MaintenanceTurn, reply: Result<MaintenanceReply, Error>)
    requires
        turn.wf(),
        turn.call != MaintenanceCall::Idle,
        reply matches Ok(reply) ==> reply.answers(turn.call),
    ensures
        ({
            let (next, flow) = turn.next(reply);
            let busy = turn.call is LastState && reply is Ok && reply->Ok_0->State_0.phase
                != Phase::Failed && reply->Ok_0->State_0.id is Some;
            let looked = turn.call is CompactionPending && reply is Ok;
            let remains = busy || (looked && reply->Ok_0->Flag_0);
            &&& (flow is Ended && flow->Ended_0 is Ok) <==> busy || looked
            &&& busy || looked ==> flow == MaintenanceFlow::Ended(
                Ok(
                    Progress {
                        completed: turn.completed,
                        remaining: if remains {
                            1
                        } else {
                            0
                        },
                        phase_advanced: turn.advanced,
                    },
                ),
            )
            &&& turn.call is LastState && reply is Ok && reply->Ok_0->State_0.phase == Phase::Failed
                ==> next.call is FailCheckpoint && next.fatal && next.error == Some(
                Error::InvalidState("Maintenance action failed"),
            )
            &&& turn.call is LastState && reply is Ok && reply->Ok_0->State_0.phase != Phase::Failed
                && reply->Ok_0->State_0.id is None ==> next.call is CompactionPending
        }),
{
}

/// A turn does nothing for an engine or an action that failed; otherwise it polls the device, lets the
/// scans and the storage go on, and starts its first round.
pub proof fn law_turn_starts_in_order(turn: MaintenanceTurn, reply: MaintenanceReply)
    requires
        turn.wf(),
        turn.call is Health || turn.call is FirstState || turn.call is PollDevice || turn.call is Scans
            || turn.call is Storage,
        reply.answers(turn.call),
    ensures
        ({
            let (next, flow) = turn.next(Ok(reply));
            let broken = (turn.call is Health && reply->Flag_0) || (turn.call is FirstState
                && reply->State_0.phase == Phase::Failed);
            &&& flow is More
            &&& next.left == turn.left
            &&& broken <==> next.call is FailCheckpoint
            &&& broken ==> next.fatal && next.error == Some(
                Error::InvalidState("Engine or maintenance action has failed"),
            )
            &&& !broken ==> next.fatal == turn.fatal && next.error == turn.error
            &&& turn.call is Health && !broken ==> next.call is FirstState
            &&& turn.call is FirstState && !broken ==> next.call is PollDevice
            &&& turn.call is PollDevice ==> next.call is Scans
            &&& turn.call is Scans ==> next.call is Storage
            &&& turn.call is Storage ==> next.call is Checkpoint
        }),
{
}

/// After a round a barrier that sessions have to reach is crossed, for the action and the phase that
/// were seen. A barrier that is not reached ends the rounds; one that another action moved meanwhile
/// costs a round; any other failure of it fails the turn, with its error.
pub proof fn law_barriers_are_crossed(turn: MaintenanceTurn, reply: Result<MaintenanceReply, Error>)
    requires
        turn.wf(),
        turn.call is RoundState || turn.call is Advance || turn.call is AdvanceState,
        reply matches Ok(reply) ==> reply.answers(turn.call),
    ensures
        ({
            let (next, flow) = turn.next(reply);
            let crossed = turn.call is Advance && reply is Ok;
            let moved = turn.call is AdvanceState && reply is Ok && turn.state != Some(
                reply->Ok_0->State_0,
            );
            &&& flow is More
            &&& turn.call is RoundState && reply is Ok ==> {
                let state = reply->Ok_0->State_0;
                let barrier = state.phase == Phase::PrepareIndex || state.phase == Phase::Prepare
                    || state.phase == Phase::InProgress || state.phase == Phase::WaitPending
                    || state.phase == Phase::GrowPrepare;
                &&& next.call is Advance <==> state.id is Some && barrier
                &&& next.call is Advance ==> next.call == (MaintenanceCall::Advance {
                    id: state.id->0,
                    phase: state.phase,
                }) && next.state == Some(state)
                &&& !(next.call is Advance) ==> next.call is LastState
            }
            &&& crossed || moved ==> next.left == turn.left - 1 && next.error is None && next.call
                == (if turn.left == 1 {
                MaintenanceCall::LastState
            } else {
                MaintenanceCall::Checkpoint
            })
            &&& !crossed && !moved ==> next.left == turn.left
            &&& turn.call is Advance && reply == Err::<MaintenanceReply, Error>(Error::Busy)
                ==> next == (MaintenanceTurn { call: MaintenanceCall::LastState, ..turn })
            &&& turn.call is Advance && reply is Err && reply->Err_0 != Error::Busy ==> next == (
            MaintenanceTurn {
                call: MaintenanceCall::AdvanceState,
                error: Some(reply->Err_0),
                ..turn
            })
            &&& turn.call is AdvanceState && reply is Ok && !moved ==> next == (MaintenanceTurn {
                call: MaintenanceCall::FailCheckpoint,
                fatal: true,
                ..turn
            })
        }),
{
}

/// Any other call that fails makes the turn fail with that error and closes the engine. A turn that
/// failed lets the checkpoint, the growth, the compaction, the collection, the release and the action
/// of the coordinator fail, in this order, and ends with its error; an action that has failed before
/// is left alone.
pub proof fn law_failure_is_passed_on(turn: MaintenanceTurn, reply: Result<MaintenanceReply, Error>)
    requires
        turn.wf(),
        turn.call != MaintenanceCall::Idle,
        reply matches Ok(reply) ==> reply.answers(turn.call),
    ensures
        ({
            let (next, flow) = turn.next(reply);
            let failing = turn.call is FailCheckpoint || turn.call is FailGrowth || turn.call
                is FailCompaction || turn.call is FailGc || turn.call is FailRelease || turn.call
                is FailState || turn.call is FailAction;
            &&& reply is Err && failing ==> flow == MaintenanceFlow::Ended(Err(reply->Err_0))
            &&& reply is Err && !failing && !(turn.call is Advance) ==> flow is More && next == (
            MaintenanceTurn {
                call: MaintenanceCall::FailCheckpoint,
                fatal: true,
                error: Some(reply->Err_0),
                ..turn
            })
            &&& reply is Ok && turn.call is FailCheckpoint ==> next.call is FailGrowth
            &&& reply is Ok && turn.call is FailGrowth ==> next.call is FailCompaction
            &&& reply is Ok && turn.call is FailCompaction ==> next.call is FailGc
            &&& reply is Ok && turn.call is FailGc ==> next.call is FailRelease
            &&& reply is Ok && turn.call is FailRelease ==> next.call is FailState
            &&& reply is Ok && turn.call is FailState ==> {
                let state = reply->Ok_0->State_0;
                let alive = state.id is Some && state.phase != Phase::Failed;
                &&& alive ==> next.call == (MaintenanceCall::FailAction { id: state.id->0 })
                &&& !alive ==> flow == MaintenanceFlow::Ended(Err(turn.error->0))
            }
            &&& reply is Ok && turn.call is FailAction ==> flow == MaintenanceFlow::Ended(
                Err(turn.error->0),
            )
            &&& failing && flow is More ==> next.error == turn.error
            &&& turn.fatal ==> next.fatal
        }),
{
}

} // verus!
