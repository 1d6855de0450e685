//! A session looks at the global action before it goes on: it changes to the version of the action
//! and acknowledges what it had accepted before. Only the session itself does this; nobody else
//! waits for its tasks.
use crate::engine::common::{CoordinatorState, Phase};
use crate::engine::pending::{SessionCut, SessionRuntime, TaskHeader};
use crate::types::{CheckpointVersion, Error, MaintenanceId};
use vstd::prelude::*;

verus! {

/// How often a session looks again when the action changes under it.
pub const ROUNDS: u8 = 8;

/// What a session tells the coordinator.
#[derive(Clone, Copy, Debug, PartialEq, Eq)]
pub struct Acknowledgement {
    pub id: MaintenanceId,
    pub cut: SessionCut,
    pub phase: Phase,
}

/// In this phase a session has to be in the new version.
pub open spec fn switches(phase: Phase) -> bool {
    phase == Phase::InProgress || phase == Phase::WaitPending
}

/// In this phase a session acknowledges its own version.
pub open spec fn gathers(phase: Phase) -> bool {
    phase == Phase::PrepareIndex || phase == Phase::Prepare || phase == Phase::GrowPrepare
}

/// The version that a session acknowledges: the one before the new version, or its own.
pub open spec fn cut_version(state: CoordinatorState) -> Option<CheckpointVersion> {
    if switches(state.phase) {
        Some(CheckpointVersion((state.version.0 - 1) as u64))
    } else if gathers(state.phase) {
        Some(state.version)
    } else {
        None
    }
}

/// What a session had accepted in `version`.
pub open spec fn cut_of(session: SessionRuntime, version: CheckpointVersion) -> Result<
    SessionCut,
    Error,
> {
    if session.current.version == version {
        Ok(
            SessionCut {
                session: session.id,
                last_accepted: session.current.last_accepted,
                old_pending: session.current.tasks@.dom().len() as usize,
            },
        )
    } else if session.previous matches Some(previous) && previous.version == version {
        Ok(
            SessionCut {
                session: session.id,
                last_accepted: session.previous->0.last_accepted,
                old_pending: session.previous->0.tasks@.dom().len() as usize,
            },
        )
    } else {
        Err(Error::InvalidState("The session does not have this version context"))
    }
}

/// What a session, in the version in which it has to be, tells the coordinator.
pub open spec fn acknowledgement(session: SessionRuntime, state: CoordinatorState) -> Result<
    Option<Acknowledgement>,
    Error,
> {
    if switches(state.phase) && state.version.0 == 0 {
        Err(Error::InvalidState("Old version does not exist"))
    } else if session.current.version != state.version {
        Err(
            Error::InvalidState("The session has not yet observed the current action version"),
        )
    } else {
        match cut_version(state) {
            None => Ok(None),
            Some(version) => match state.id {
                None => Err(Error::InvalidState("Stage is missing action identifier")),
                Some(id) => match cut_of(session, version) {
                    Err(error) => Err(error),
                    Ok(cut) => Ok(Some(Acknowledgement { id, cut, phase: state.phase })),
                },
            },
        }
    }
}

/// The session has to change to the version of the action, and may.
pub open spec fn changes(session: SessionRuntime, state: CoordinatorState) -> bool {
    &&& switches(state.phase)
    &&& state.version != session.current.version
    &&& session.switch_refusal(state.version) is None
}

/// Looks at one state of the action.
pub fn observe_at(session: &mut SessionRuntime, state: &CoordinatorState, changed: &mut bool) -> (r:
    Result<Option<Acknowledgement>, Error>)
    requires
        old(session).wf(),
    ensures
        final(session).wf(),
        *final(changed) == (*old(changed) || changes(*old(session), *state)),
        !changes(*old(session), *state) ==> *final(session) == *old(session),
        changes(*old(session), *state) ==> {
            &&& final(session).previous == Some(old(session).current)
            &&& final(session).current.version == state.version
            &&& final(session).current.last_accepted == old(session).current.last_accepted
            &&& final(session).current.tasks@ == Map::<u64, TaskHeader>::empty()
            &&& final(session).id == old(session).id
            &&& final(session).results == old(session).results
            &&& final(session).tracker == old(session).tracker
            &&& final(session).closing == old(session).closing
            &&& final(session).poll_cursor == old(session).poll_cursor
            &&& final(session).routes == old(session).routes
        },
        r == (if switches(state.phase) && state.version != old(session).current.version
            && old(session).switch_refusal(state.version) is Some {
            Err::<Option<Acknowledgement>, Error>(old(session).switch_refusal(state.version)->0)
        } else {
            acknowledgement(*final(session), *state)
        }),
{
    let cut_version = match state.phase {
        Phase::InProgress | Phase::WaitPending => {
            match session.switch_version(state.version) {
                Ok(switched) => {
                    if switched {
                        *changed = true;
                    }
                },
                Err(error) => {
                    return Err(error);
                },
            }
            if state.version.0 == 0 {
                return Err(Error::InvalidState("Old version does not exist"));
            }
            Some(CheckpointVersion(state.version.0 - 1))
        },
        Phase::PrepareIndex | Phase::Prepare | Phase::GrowPrepare => Some(state.version),
        _ => None,
    };
    if session.current.version != state.version {
        return Err(
            Error::InvalidState("The session has not yet observed the current action version"),
        );
    }
    match cut_version {
        None => Ok(None),
        Some(version) => match state.id {
            None => Err(Error::InvalidState("Stage is missing action identifier")),
            Some(id) => match session.cut(version) {
                Err(error) => Err(error),
                Ok(cut) => Ok(Some(Acknowledgement { id, cut, phase: state.phase })),
            },
        },
    }
}

/// The call that a look waits for.
#[derive(Clone, Copy, Debug, PartialEq, Eq)]
pub enum ObserveCall {
    /// No look is under way.
    Idle,
    /// Ask the coordinator for the state, as this session has to see it.
    State,
    /// Look whether the engine failed.
    Health,
    /// Let the action fail with the engine.
    FailAction(MaintenanceId),
    Acknowledge(Acknowledgement),
    /// Ask for the state once more, after something did not work.
    StateAgain,
}

/// The reply to a call that did not fail.
#[derive(Clone, Copy, Debug, PartialEq, Eq, Structural)]
pub enum ObserveReply {
    Done,
    Flag(bool),
    State(CoordinatorState),
}

impl ObserveReply {
    pub open spec fn answers(self, call: ObserveCall) -> bool {
        match call {
            ObserveCall::Idle => false,
            ObserveCall::State => self is State,
            ObserveCall::StateAgain => self is State,
            ObserveCall::Health => self is Flag,
            _ => self is Done,
        }
    }
}

/// What a look found.
#[derive(Clone, Copy, Debug, PartialEq, Eq, Structural)]
pub struct Observation {
    /// The session changed to another version.
    pub changed: bool,
    /// No action was under way.
    pub rest: bool,
}

#[derive(Debug)]
pub enum ObserveFlow {
    More,
    Ended(Result<Observation, Error>),
}

/// A look under way.
pub struct Observer {
    pub call: ObserveCall,
    pub round: u8,
    pub changed: bool,
    pub state: Option<CoordinatorState>,
    /// What did not work.
    pub error: Option<Error>,
    /// The engine has to close.
    pub fatal: bool,
}

impl Observer {
    pub open spec fn more(self, call: ObserveCall) -> (Observer, ObserveFlow) {
        (Observer { call, ..self }, ObserveFlow::More)
    }

    pub open spec fn ended(self, r: Result<Observation, Error>) -> (Observer, ObserveFlow) {
        (Observer { call: ObserveCall::Idle, ..self }, ObserveFlow::Ended(r))
    }

    pub open spec fn found(self, rest: bool) -> (Observer, ObserveFlow) {
        self.ended(Ok(Observation { changed: self.changed, rest }))
    }

    /// What a failed call makes of the look.
    pub open spec fn next_failed(self, error: Error) -> (Observer, ObserveFlow) {
        match self.call {
            ObserveCall::Acknowledge(_) => Observer { error: Some(error), ..self }.more(
                ObserveCall::StateAgain,
            ),
            _ => self.ended(Err(error)),
        }
    }

    /// What the state of the action makes of a look whose engine is in order. `answer` is what the
    /// session made of the state.
    pub open spec fn looked(self, answer: Result<Option<Acknowledgement>, Error>) -> (
        Observer,
        ObserveFlow,
    ) {
        match answer {
            Ok(Some(acknowledgement)) => self.more(ObserveCall::Acknowledge(acknowledgement)),
            Ok(None) => self.found(self.state->0.phase == Phase::Rest),
            Err(error) => Observer { error: Some(error), ..self }.more(ObserveCall::StateAgain),
        }
    }

    /// What a reply makes of a look, but for the reply that the engine is in order while the action
    /// did not fail: then the session decides.
    pub open spec fn next_ok(self, reply: ObserveReply) -> (Observer, ObserveFlow) {
        match self.call {
            ObserveCall::State => Observer { state: Some(reply->State_0), ..self }.more(
                ObserveCall::Health,
            ),
            ObserveCall::Health => if reply->Flag_0 {
                match self.state->0.id {
                    None => self.found(false),
                    Some(id) => if self.state->0.phase != Phase::Failed {
                        self.more(ObserveCall::FailAction(id))
                    } else {
                        self.ended(Err(Error::InvalidState("engine_failed_closed")))
                    },
                }
            } else {
                Observer { fatal: true, ..self }.ended(
                    Err(Error::InvalidState("Coordinated action failed")),
                )
            },
            ObserveCall::FailAction(_) => self.ended(
                Err(Error::InvalidState("engine_failed_closed")),
            ),
            ObserveCall::Acknowledge(_) => self.found(self.state->0.phase == Phase::Rest),
            _ => if self.state != Some(reply->State_0) {
                let next = Observer { round: (self.round + 1) as u8, error: None, ..self };
                if next.round >= ROUNDS {
                    next.found(false)
                } else {
                    next.more(ObserveCall::State)
                }
            } else if self.error->0 == Error::Busy {
                Observer { error: None, ..self }.found(false)
            } else {
                Observer { error: None, ..self }.ended(Err(self.error->0))
            },
        }
    }

    pub open spec fn wf(self) -> bool {
        &&& self.round < ROUNDS || self.call == ObserveCall::Idle
        &&& self.call != ObserveCall::Idle && self.call != ObserveCall::State ==> self.state is Some
        &&& self.call == ObserveCall::StateAgain ==> self.error is Some
    }

    /// The session decides.
    pub open spec fn asks_session(self, reply: Result<ObserveReply, Error>) -> bool {
        &&& self.call == ObserveCall::Health
        &&& reply matches Ok(reply) && reply == ObserveReply::Flag(false)
        &&& self.state->0.phase != Phase::Failed
    }

    /// Starts a look.
    pub fn new() -> (r: Observer)
        ensures
            r.wf(),
            r == (Observer {
                call: ObserveCall::State,
                round: 0,
                changed: false,
                state: None,
                error: None,
                fatal: false,
            }),
    {
        Observer {
            call: ObserveCall::State,
            round: 0,
            changed: false,
            state: None,
            error: None,
            fatal: false,
        }
    }

    fn go(&mut self, call: ObserveCall) -> (r: ObserveFlow)
        ensures
            (*final(self), r) == old(self).more(call),
    {
        self.call = call;
        ObserveFlow::More
    }

    fn end(&mut self, result: Result<Observation, Error>) -> (r: ObserveFlow)
        ensures
            (*final(self), r) == old(self).ended(result),
    {
        self.call = ObserveCall::Idle;
        ObserveFlow::Ended(result)
    }

    fn find(&mut self, rest: bool) -> (r: ObserveFlow)
        ensures
            (*final(self), r) == old(self).found(rest),
    {
        let changed = self.changed;
        self.end(Ok(Observation { changed, rest }))
    }

    /// Takes the reply to the call of the look.
    pub fn accept(&mut self, session: &mut SessionRuntime, reply: Result<ObserveReply, Error>) -> (r:
        ObserveFlow)
        requires
            old(self).wf(),
            old(session).wf(),
            old(self).call != ObserveCall::Idle,
            reply matches Ok(reply) ==> reply.answers(old(self).call),
        ensures
            final(self).wf(),
            final(session).wf(),
            old(self).asks_session(reply) ==> {
                let state = old(self).state->0;
                let before = *old(session);
                let looked = Observer {
                    changed: old(self).changed || changes(before, state),
                    ..*old(self)
                };
                &&& (*final(self), r) == looked.looked(
                    if switches(state.phase) && state.version != before.current.version
                        && before.switch_refusal(state.version) is Some {
                        Err(before.switch_refusal(state.version)->0)
                    } else {
                        acknowledgement(*final(session), state)
                    },
                )
                &&& !changes(before, state) ==> *final(session) == before
                &&& changes(before, state) ==> {
                    &&& final(session).previous == Some(before.current)
                    &&& final(session).current.version == state.version
                    &&& final(session).current.last_accepted == before.current.last_accepted
                    &&& final(session).current.tasks@ == Map::<u64, TaskHeader>::empty()
                    &&& final(session).id == before.id
                    &&& final(session).results == before.results
                    &&& final(session).tracker == before.tracker
                    &&& final(session).closing == before.closing
                    &&& final(session).poll_cursor == before.poll_cursor
                    &&& final(session).routes == before.routes
                }
            },
            !old(self).asks_session(reply) ==> {
                &&& *final(session) == *old(session)
                &&& (*final(self), r) == (match reply {
                    Err(error) => old(self).next_failed(error),
                    Ok(reply) => old(self).next_ok(reply),
                })
            },
    {
        let reply = match reply {
            Ok(reply) => reply,
            Err(error) => {
                return match self.call {
                    ObserveCall::Acknowledge(_) => {
                        self.error = Some(error);
                        self.go(ObserveCall::StateAgain)
                    },
                    _ => self.end(Err(error)),
                };
            },
        };
        match self.call {
            ObserveCall::State => {
                if let ObserveReply::State(state) = reply {
                    self.state = Some(state);
                }
                self.go(ObserveCall::Health)
            },
            ObserveCall::Health => {
                let state = match self.state {
                    Some(state) => state,
                    None => {
                        return self.end(Err(Error::InvalidState("engine_failed_closed")));
                    },
                };
                if reply == ObserveReply::Flag(true) {
                    return match state.id {
                        None => self.find(false),
                        Some(id) => {
                            if state.phase != Phase::Failed {
                                self.go(ObserveCall::FailAction(id))
                            } else {
                                self.end(Err(Error::InvalidState("engine_failed_closed")))
                            }
                        },
                    };
                }
                if state.phase == Phase::Failed {
                    self.fatal = true;
                    return self.end(Err(Error::InvalidState("Coordinated action failed")));
                }
                let answer = observe_at(session, &state, &mut self.changed);
                match answer {
                    Ok(Some(acknowledgement)) => self.go(
                        ObserveCall::Acknowledge(acknowledgement),
                    ),
                    Ok(None) => self.find(state.phase == Phase::Rest),
                    Err(error) => {
                        self.error = Some(error);
                        self.go(ObserveCall::StateAgain)
                    },
                }
            },
            ObserveCall::FailAction(_) => self.end(
                Err(Error::InvalidState("engine_failed_closed")),
            ),
            ObserveCall::Acknowledge(_) => {
                let rest = match self.state {
                    Some(state) => state.phase == Phase::Rest,
                    None => false,
                };
                self.find(rest)
            },
            _ => {
                let error = self.error.take();
                let same = match (self.state, reply) {
                    (Some(before), ObserveReply::State(now)) => before == now,
                    _ => false,
                };
                if !same {
                    self.round = self.round + 1;
                    return if self.round >= ROUNDS {
                        self.find(false)
                    } else {
                        self.go(ObserveCall::State)
                    };
                }
                match error {
                    Some(Error::Busy) => self.find(false),
                    Some(error) => self.end(Err(error)),
                    None => self.find(false),
                }
            },
        }
    }
}

/// A look never takes more rounds than the limit, whatever the action does meanwhile.
pub proof fn law_bounded(observer: Observer, reply: ObserveReply)
    requires
        observer.wf(),
        observer.call != ObserveCall::Idle,
        reply.answers(observer.call),
        !observer.asks_session(Ok(reply)),
    ensures
        observer.next_ok(reply).0.round <= ROUNDS,
        observer.next_ok(reply).0.round == ROUNDS ==> observer.next_ok(reply).1 is Ended,
        observer.next_ok(reply).0.round >= observer.round,
{
}

/// A session that finds no action under way acknowledges nothing and stays in its version.
pub proof fn law_rest_changes_nothing(session: SessionRuntime, state: CoordinatorState)
    requires
        state.phase == Phase::Rest,
    ensures
        !changes(session, state),
        acknowledgement(session, state) matches Ok(told) ==> told is None && session.current.version
            == state.version,
{
}

/// A session has to be in the new version while an action is in progress or waits for what is pending,
/// and acknowledges its own while one prepares; in every other phase it has nothing to say. What it
/// acknowledges is then what it had accepted before the switch.
pub proof fn law_phase_says_which_version(state: CoordinatorState)
    ensures
        switches(state.phase) <==> state.phase == Phase::InProgress || state.phase
            == Phase::WaitPending,
        cut_version(state) is Some <==> switches(state.phase) || state.phase == Phase::PrepareIndex
            || state.phase == Phase::Prepare || state.phase == Phase::GrowPrepare,
        switches(state.phase) && state.version.0 > 0 ==> (cut_version(state)->0).0 + 1
            == state.version.0,
        cut_version(state) is Some && !switches(state.phase) ==> cut_version(state)->0 == state.version,
{
}

/// The cut of a session is the last serial that it accepted in the asked version and the number of its
/// tasks there; a version that it has no context of is an error.
pub proof fn law_cut_is_of_its_version(session: SessionRuntime, version: CheckpointVersion)
    ensures
        ({
            let current = session.current.version == version;
            let previous = session.previous matches Some(p) && p.version == version;
            let r = cut_of(session, version);
            &&& r is Ok <==> current || previous
            &&& r matches Err(error) ==> error == Error::InvalidState(
                "The session does not have this version context",
            )
            &&& r matches Ok(cut) ==> {
                &&& cut.session == session.id
                &&& current ==> cut.last_accepted == session.current.last_accepted && cut.old_pending
                    == session.current.tasks@.dom().len() as usize
                &&& !current ==> cut.last_accepted == session.previous->0.last_accepted
                    && cut.old_pending == session.previous->0.tasks@.dom().len() as usize
            }
        }),
{
}

/// An acknowledgement names the action, its phase, and the cut of the version that the phase asks for.
/// A session that is in another version acknowledges nothing.
pub proof fn law_acknowledged_is_the_cut(session: SessionRuntime, state: CoordinatorState)
    ensures
        ({
            let r = acknowledgement(session, state);
            &&& switches(state.phase) && state.version.0 == 0 ==> r == Err::<
                Option<Acknowledgement>,
                Error,
            >(Error::InvalidState("Old version does not exist"))
            &&& session.current.version != state.version ==> r is Err
            &&& r matches Ok(Some(told)) ==> {
                &&& session.current.version == state.version
                &&& state.id == Some(told.id)
                &&& told.phase == state.phase
                &&& cut_version(state) is Some
                &&& cut_of(session, cut_version(state)->0) == Ok::<SessionCut, Error>(told.cut)
            }
            &&& r matches Ok(None) ==> cut_version(state) is None
            &&& session.current.version == state.version && !(switches(state.phase)
                && state.version.0 == 0) && cut_version(state) is Some && state.id is None ==> r == Err::<
                Option<Acknowledgement>,
                Error,
            >(Error::InvalidState("Stage is missing action identifier"))
            &&& session.current.version == state.version && cut_version(state) is Some && state.id
                is Some && !(switches(state.phase) && state.version.0 == 0) && cut_of(
                session,
                cut_version(state)->0,
            ) is Ok ==> r is Ok && r->Ok_0 is Some
        }),
{
}

/// A session changes its version exactly when the phase asks for another one and it may leave its own.
pub proof fn law_changes_when_asked(session: SessionRuntime, state: CoordinatorState)
    ensures
        changes(session, state) <==> {
            &&& state.phase == Phase::InProgress || state.phase == Phase::WaitPending
            &&& session.current.version != state.version
            &&& session.switch_refusal(state.version) is None
        },
{
}

/// A look asks for the state and then for the health of the engine. An engine that failed lets the
/// action fail, unless it has; an action that failed closes the engine. An acknowledgement that was
/// taken ends the look.
pub proof fn law_look_comes_in_order(observer: Observer, reply: ObserveReply)
    requires
        observer.wf(),
        reply.answers(observer.call),
        !observer.asks_session(Ok(reply)),
    ensures
        ({
            let (next, flow) = observer.next_ok(reply);
            &&& observer.call is State ==> flow is More && next == (Observer {
                call: ObserveCall::Health,
                state: Some(reply->State_0),
                ..observer
            })
            &&& observer.call is Health && reply->Flag_0 ==> {
                let state = observer.state->0;
                &&& next == (Observer { call: next.call, ..observer })
                &&& state.id is None ==> flow == ObserveFlow::Ended(
                    Ok(Observation { changed: observer.changed, rest: false }),
                )
                &&& state.id is Some && state.phase != Phase::Failed ==> flow is More && next.call
                    == ObserveCall::FailAction(state.id->0)
                &&& state.id is Some && state.phase == Phase::Failed ==> flow == ObserveFlow::Ended(
                    Err(Error::InvalidState("engine_failed_closed")),
                )
            }
            &&& observer.call is Health && !reply->Flag_0 ==> next.fatal && flow
                == ObserveFlow::Ended(Err(Error::InvalidState("Coordinated action failed")))
            &&& !(observer.call is Health && !reply->Flag_0) ==> next.fatal == observer.fatal
            &&& observer.call is FailAction ==> flow == ObserveFlow::Ended(
                Err(Error::InvalidState("engine_failed_closed")),
            )
            &&& observer.call is Acknowledge ==> flow == ObserveFlow::Ended(
                Ok(
                    Observation {
                        changed: observer.changed,
                        rest: observer.state->0.phase == Phase::Rest,
                    },
                ),
            )
            &&& next.changed == observer.changed
            &&& flow is Ended <==> next.call is Idle
        }),
{
}

/// What did not work is looked at again: if the state moved meanwhile the look begins anew, as often as
/// it may; if it did not, a busy coordinator is no error and every other failure is the look's.
pub proof fn law_moved_state_is_looked_at_again(observer: Observer, now: CoordinatorState)
    requires
        observer.wf(),
        observer.call is StateAgain,
    ensures
        ({
            let (next, flow) = observer.next_ok(ObserveReply::State(now));
            let moved = observer.state != Some(now);
            let nothing = ObserveFlow::Ended(
                Ok(Observation { changed: observer.changed, rest: false }),
            );
            &&& next.error is None
            &&& next.round == observer.round + if moved {
                1int
            } else {
                0
            }
            &&& moved && observer.round + 1 < ROUNDS ==> flow is More && next.call is State
            &&& moved && observer.round + 1 >= ROUNDS ==> flow == nothing
            &&& !moved && observer.error == Some(Error::Busy) ==> flow == nothing
            &&& !moved && observer.error != Some(Error::Busy) ==> flow == ObserveFlow::Ended(
                Err(observer.error->0),
            )
        }),
{
}

/// A call that failed ends the look with its error, but for an acknowledgement that was not taken: that
/// is looked at again.
pub proof fn law_errors_are_kept(observer: Observer, error: Error)
    requires
        observer.wf(),
        observer.call != ObserveCall::Idle,
    ensures
        ({
            let (next, flow) = observer.next_failed(error);
            &&& observer.call is Acknowledge ==> flow is More && next == (Observer {
                call: ObserveCall::StateAgain,
                error: Some(error),
                ..observer
            })
            &&& !(observer.call is Acknowledge) ==> flow == ObserveFlow::Ended(Err(error)) && next == (
            Observer { call: ObserveCall::Idle, ..observer })
        }),
{
}

/// What the session made of the state: what it acknowledges is told, nothing to acknowledge ends the
/// look, and a failure is looked at again.
pub proof fn law_answer_is_told(observer: Observer, answer: Result<Option<Acknowledgement>, Error>)
    requires
        observer.wf(),
        observer.state is Some,
    ensures
        ({
            let (next, flow) = observer.looked(answer);
            &&& answer matches Ok(Some(told)) ==> flow is More && next == (Observer {
                call: ObserveCall::Acknowledge(told),
                ..observer
            })
            &&& answer matches Ok(None) ==> flow == ObserveFlow::Ended(
                Ok(
                    Observation {
                        changed: observer.changed,
                        rest: observer.state->0.phase == Phase::Rest,
                    },
                ),
            )
            &&& answer matches Err(error) ==> flow is More && next == (Observer {
                call: ObserveCall::StateAgain,
                error: Some(error),
                ..observer
            })
        }),
{
}

/// The session is asked exactly when the engine is in order and the action did not fail.
pub proof fn law_session_is_asked(observer: Observer, reply: Result<ObserveReply, Error>)
    requires
        observer.wf(),
        observer.call is Health,
        reply matches Ok(reply) ==> reply.answers(observer.call),
    ensures
        observer.asks_session(reply) <==> reply is Ok && !reply->Ok_0->Flag_0
            && observer.state->0.phase != Phase::Failed,
{
}

} // verus!
