//! The state of one session: its suspended tasks in two versions, and the places for its results.
use crate::allocation::{reserve, Memory};
use crate::engine::io_hub::session::{SessionRoute, SessionRoutes};
use crate::engine::io_hub::CompletionHub;
use crate::engine::metrics::Tracker;
use crate::table::Table;
use crate::types::{CheckpointVersion, Error, RequestId, Serial, SessionId};
use vstd::prelude::*;

verus! {

/// What the session knows of a suspended task.
#[derive(Clone, Copy, Debug, PartialEq, Eq)]
pub struct TaskHeader {
    pub id: RequestId,
    pub serial: Serial,
    pub version: CheckpointVersion,
}

/// The tasks that were accepted in one version.
pub struct ExecutionContext {
    pub version: CheckpointVersion,
    pub last_accepted: Option<Serial>,
    pub tasks: Table<u64, TaskHeader>,
}

impl ExecutionContext {
    /// Whether `task` was accepted in this context by `session`.
    pub open spec fn fits(self, session: SessionId, task: TaskHeader) -> bool {
        &&& task.version == self.version
        &&& task.id.session == session
        &&& self.last_accepted matches Some(last) && task.serial.0 <= last.0
    }

    pub open spec fn all_fit(self, session: SessionId) -> bool {
        forall|slot: u64| #[trigger]
            self.tasks@.dom().contains(slot) ==> self.fits(session, self.tasks@[slot])
    }

    /// The tasks in the order of their numbers are consistent with the context.
    fn check(&self, session: SessionId) -> (r: bool)
        requires
            self.tasks.wf(),
        ensures
            r == self.all_fit(session),
    {
        let mut i: usize = 0;
        while i < self.tasks.len()
            invariant
                self.tasks.wf(),
                i <= self.tasks.items().len(),
                forall|j: int|
                    0 <= j < i ==> self.fits(session, (#[trigger] self.tasks.items()[j]).1),
            decreases self.tasks.items().len() - i,
        {
            let (_, task) = self.tasks.at(i);
            let late = match self.last_accepted {
                Some(last) => task.serial.0 > last.0,
                None => true,
            };
            if task.version != self.version || !task.id.session.same(&session) || late {
                proof {
                    self.tasks.lemma_item(i as int);
                }
                return false;
            }
            i += 1;
        }
        proof {
            assert forall|slot: u64| #[trigger] self.tasks@.dom().contains(slot) implies self.fits(
                session,
                self.tasks@[slot],
            ) by {
                self.tasks.lemma_key(slot);
            }
        }
        true
    }
}

/// What a session had accepted when a checkpoint began.
#[derive(Clone, Copy, Debug, PartialEq, Eq)]
pub struct SessionCut {
    pub session: SessionId,
    pub last_accepted: Option<Serial>,
    /// How many tasks of the version are not finished.
    pub old_pending: usize,
}

/// The version in which a session is registered, and what it accepted before.
#[derive(Clone, Copy, Debug, PartialEq, Eq, Structural)]
pub struct RegisteredSession {
    pub version: CheckpointVersion,
    pub last_accepted: Option<Serial>,
}

/// The place of one result. It is taken as long as anyone holds it.
pub struct ResultCredit {
    slot: usize,
}

impl ResultCredit {
    pub closed spec fn spec_slot(self) -> int {
        self.slot as int
    }
}

/// How many places are held.
pub open spec fn held(results: Seq<usize>) -> nat
    decreases results.len(),
{
    if results.len() == 0 {
        0
    } else {
        held(results.drop_last()) + if results.last() > 0 { 1nat } else { 0 }
    }
}

proof fn lemma_held_update(results: Seq<usize>, at: int, holders: usize)
    requires
        0 <= at < results.len(),
    ensures
        held(results.update(at, holders)) + if results[at] > 0 { 1nat } else { 0 } == held(results)
            + if holders > 0 { 1nat } else { 0 },
    decreases results.len(),
{
    if at == results.len() - 1 {
        assert(results.update(at, holders).drop_last() =~= results.drop_last());
    } else {
        lemma_held_update(results.drop_last(), at, holders);
        assert(results.update(at, holders).drop_last() =~= results.drop_last().update(at, holders));
    }
}

pub proof fn lemma_held_bound(results: Seq<usize>)
    ensures
        held(results) <= results.len(),
        held(results) == results.len() <==> forall|i: int|
            0 <= i < results.len() ==> #[trigger] results[i] > 0,
    decreases results.len(),
{
    if results.len() > 0 {
        let front = results.drop_last();
        lemma_held_bound(front);
        if held(results) == results.len() {
            assert forall|i: int| 0 <= i < results.len() implies #[trigger] results[i] > 0 by {
                if i < front.len() {
                    assert(front[i] > 0);
                }
            }
        }
        if forall|i: int| 0 <= i < results.len() ==> #[trigger] results[i] > 0 {
            assert forall|i: int| 0 <= i < front.len() implies #[trigger] front[i] > 0 by {
                assert(results[i] > 0);
            }
        }
    }
}

pub struct SessionRuntime {
    pub id: SessionId,
    pub tracker: Tracker,
    pub current: ExecutionContext,
    pub previous: Option<ExecutionContext>,
    pub closing: bool,
    pub poll_cursor: Option<u64>,
    /// How many hold each place for a result.
    pub results: Vec<usize>,
    pub routes: Option<SessionRoutes>,
}

impl SessionRuntime {
    /// Nothing but the places for results differs.
    pub open spec fn same_but_results(self, other: SessionRuntime) -> bool {
        &&& self.id == other.id
        &&& self.tracker == other.tracker
        &&& self.current == other.current
        &&& self.previous == other.previous
        &&& self.closing == other.closing
        &&& self.poll_cursor == other.poll_cursor
        &&& self.routes == other.routes
    }

    /// Nothing but the current version differs.
    pub open spec fn same_but_current(self, other: SessionRuntime) -> bool {
        &&& self.id == other.id
        &&& self.tracker == other.tracker
        &&& self.previous == other.previous
        &&& self.closing == other.closing
        &&& self.poll_cursor == other.poll_cursor
        &&& self.results == other.results
        &&& self.routes == other.routes
    }

    /// How many tasks are suspended.
    pub open spec fn suspended(self) -> nat {
        self.current.tasks@.dom().len() + (match self.previous {
            Some(previous) => previous.tasks@.dom().len(),
            None => 0,
        })
    }

    /// Every suspended task has a number below `next`.
    pub open spec fn numbered(self, next: u64) -> bool {
        &&& forall|slot: u64| #[trigger] self.current.tasks@.dom().contains(slot) ==> slot < next
        &&& self.previous matches Some(previous) ==> forall|slot: u64| #[trigger]
            previous.tasks@.dom().contains(slot) ==> slot < next
    }

    /// The session with one more suspended task in its current version.
    pub open spec fn suspends(self, task: TaskHeader, after: SessionRuntime) -> bool {
        &&& after.current.tasks@ == self.current.tasks@.insert(task.id.slot, task)
        &&& after.current.version == self.current.version
        &&& after.current.last_accepted == self.current.last_accepted
        &&& after.same_but_current(self)
    }

    pub open spec fn wf(self) -> bool {
        &&& self.current.tasks.wf()
        &&& self.previous matches Some(previous) ==> previous.tasks.wf()
    }

    pub fn new(
        id: SessionId,
        registered: RegisteredSession,
        tracker: Tracker,
        routes: SessionRoutes,
    ) -> (r: SessionRuntime)
        ensures
            r.wf(),
            r.id == id,
            r.tracker == tracker,
            r.current.version == registered.version,
            r.current.last_accepted == registered.last_accepted,
            r.current.tasks@ == Map::<u64, TaskHeader>::empty(),
            r.previous is None,
            r.numbered(0),
            !r.closing,
            r.poll_cursor is None,
            r.results@ == Seq::<usize>::empty(),
            r.routes == Some(routes),
    {
        SessionRuntime {
            id,
            tracker,
            current: ExecutionContext {
                version: registered.version,
                last_accepted: registered.last_accepted,
                tasks: Table::new(),
            },
            previous: None,
            closing: false,
            poll_cursor: None,
            results: Vec::new(),
            routes: Some(routes),
        }
    }

    /// Takes a route of the session, unless its routes are closed.
    pub fn reserve_route(&self, hub: &mut CompletionHub) -> (r: Result<SessionRoute, Error>)
        requires
            old(hub).wf(),
            self.routes matches Some(routes) ==> routes.known_to(old(hub)@),
        ensures
            final(hub).wf(),
            match self.routes {
                None => r == Err::<SessionRoute, Error>(
                    Error::InvalidState("session_routes_closed"),
                ) && final(hub)@ == old(hub)@,
                Some(routes) => routes.known_to(final(hub)@) && routes.reserves(
                    old(hub)@,
                    r,
                    final(hub)@,
                ),
            },
    {
        match &self.routes {
            Some(routes) => routes.reserve(hub),
            None => Err(Error::InvalidState("session_routes_closed")),
        }
    }

    /// Why the session cannot go on to `version`, which is not its own.
    pub open spec fn switch_refusal(self, version: CheckpointVersion) -> Option<Error> {
        if self.current.version.0 + 1 != version.0 {
            Some(Error::InvalidState("The session version must be continuously incremented"))
        } else if self.previous matches Some(previous) && previous.tasks@.dom().len() > 0 {
            Some(Error::Busy)
        } else if !self.current.all_fit(self.id) {
            Some(Error::InvalidState("The pending task is inconsistent with the session context"))
        } else {
            None
        }
    }

    /// Goes on to the next version. The tasks that are suspended stay with the version in which they
    /// were accepted.
    pub fn switch_version(&mut self, version: CheckpointVersion) -> (r: Result<bool, Error>)
        requires
            old(self).wf(),
        ensures
            final(self).wf(),
            if version == old(self).current.version {
                r == Ok::<bool, Error>(false) && *final(self) == *old(self)
            } else {
                match old(self).switch_refusal(version) {
                    Some(reason) => r == Err::<bool, Error>(reason) && *final(self) == *old(self),
                    None => {
                        &&& r == Ok::<bool, Error>(true)
                        &&& final(self).previous == Some(old(self).current)
                        &&& final(self).current.version == version
                        &&& final(self).current.last_accepted == old(self).current.last_accepted
                        &&& final(self).current.tasks@ == Map::<u64, TaskHeader>::empty()
                        &&& final(self).results == old(self).results
                        &&& final(self).id == old(self).id
                        &&& final(self).tracker == old(self).tracker
                        &&& final(self).closing == old(self).closing
                        &&& final(self).poll_cursor == old(self).poll_cursor
                        &&& final(self).routes == old(self).routes
                    },
                }
            },
    {
        if version == self.current.version {
            return Ok(false);
        }
        if self.current.version.0 == u64::MAX || self.current.version.0 + 1 != version.0 {
            return Err(Error::InvalidState("The session version must be continuously incremented"));
        }
        let waiting = match &self.previous {
            Some(previous) => previous.tasks.len() > 0,
            None => false,
        };
        if waiting {
            return Err(Error::Busy);
        }
        if !self.current.check(self.id) {
            return Err(
                Error::InvalidState("The pending task is inconsistent with the session context"),
            );
        }
        let mut next = ExecutionContext {
            version,
            last_accepted: self.current.last_accepted,
            tasks: Table::new(),
        };
        std::mem::swap(&mut self.current, &mut next);
        self.previous = Some(next);
        Ok(true)
    }

    /// What the session had accepted in `version`.
    pub fn cut(&self, version: CheckpointVersion) -> (r: Result<SessionCut, Error>)
        requires
            self.wf(),
        ensures
            r == (if self.current.version == version {
                Ok::<SessionCut, Error>(
                    SessionCut {
                        session: self.id,
                        last_accepted: self.current.last_accepted,
                        old_pending: self.current.tasks@.dom().len() as usize,
                    },
                )
            } else if self.previous matches Some(previous) && previous.version == version {
                Ok::<SessionCut, Error>(
                    SessionCut {
                        session: self.id,
                        last_accepted: self.previous->0.last_accepted,
                        old_pending: self.previous->0.tasks@.dom().len() as usize,
                    },
                )
            } else {
                Err::<SessionCut, Error>(
                    Error::InvalidState("The session does not have this version context"),
                )
            }),
    {
        if self.current.version == version {
            return Ok(
                SessionCut {
                    session: self.id,
                    last_accepted: self.current.last_accepted,
                    old_pending: self.current.tasks.len(),
                },
            );
        }
        if let Some(previous) = &self.previous {
            if previous.version == version {
                return Ok(
                    SessionCut {
                        session: self.id,
                        last_accepted: previous.last_accepted,
                        old_pending: previous.tasks.len(),
                    },
                );
            }
        }
        Err(Error::InvalidState("The session does not have this version context"))
    }

    /// How many places are held by anyone.
    fn held_results(&self) -> (r: usize)
        ensures
            r == held(self.results@),
    {
        let mut count: usize = 0;
        let mut i: usize = 0;
        assert(self.results@.take(0) =~= Seq::<usize>::empty());
        while i < self.results.len()
            invariant
                i <= self.results@.len(),
                count == held(self.results@.take(i as int)),
                count <= i,
            decreases self.results@.len() - i,
        {
            assert(self.results@.take(i + 1).drop_last() =~= self.results@.take(i as int));
            if self.results[i] > 0 {
                count += 1;
            }
            i += 1;
        }
        assert(self.results@.take(i as int) =~= self.results@);
        count
    }

    /// The places after one more is held: the first that is free, or a new one.
    pub open spec fn result_taken(before: Seq<usize>, slot: int, after: Seq<usize>) -> bool {
        if slot < before.len() {
            &&& 0 <= slot
            &&& before[slot] == 0
            &&& forall|i: int| 0 <= i < slot ==> #[trigger] before[i] > 0
            &&& after == before.update(slot, 1)
        } else {
            &&& slot == before.len()
            &&& forall|i: int| 0 <= i < before.len() ==> #[trigger] before[i] > 0
            &&& after == before.push(1)
        }
    }

    /// Holds a place for a result, while fewer than `limit` are held. Places from a time with a
    /// larger limit do not count as room. `memory` says whether there is room for a new place.
    pub fn reserve_result_from(&mut self, limit: usize, memory: Memory) -> (r: Result<
        ResultCredit,
        Error,
    >)
        requires
            old(self).wf(),
        ensures
            final(self).wf(),
            final(self).same_but_results(*old(self)),
            held(old(self).results@) >= limit ==> r == Err::<ResultCredit, Error>(Error::Busy),
            held(old(self).results@) < limit ==> {
                &&& r matches Err(error) ==> error == Error::OutOfMemory && !(memory is Granted)
                    && held(old(self).results@) == old(self).results@.len()
                &&& memory is Refused && held(old(self).results@) == old(self).results@.len()
                    ==> r is Err
            },
            match r {
                Ok(credit) => {
                    &&& Self::result_taken(
                        old(self).results@,
                        credit.spec_slot(),
                        final(self).results@,
                    )
                    &&& held(final(self).results@) == held(old(self).results@) + 1
                    &&& held(final(self).results@) <= limit
                },
                Err(_) => final(self).results@ == old(self).results@,
            },
    {
        proof {
            lemma_held_bound(self.results@);
        }
        let mut i: usize = 0;
        while i < self.results.len() && self.results[i] > 0
            invariant
                i <= self.results@.len(),
                forall|j: int| 0 <= j < i ==> #[trigger] self.results@[j] > 0,
            decreases self.results@.len() - i,
        {
            i += 1;
        }
        if i < self.results.len() {
            proof {
                lemma_held_update(self.results@, i as int, 1);
            }
            if self.results.len() > limit && self.held_results() >= limit {
                return Err(Error::Busy);
            }
            self.results.set(i, 1);
            return Ok(ResultCredit { slot: i });
        }
        if self.results.len() >= limit {
            return Err(Error::Busy);
        }
        if !reserve(&mut self.results, 1, memory) {
            return Err(Error::OutOfMemory);
        }
        self.results.push(1);
        assert(self.results@.drop_last() =~= old(self).results@);
        Ok(ResultCredit { slot: i })
    }

    /// Holds a place for a result, while fewer than `limit` are held. The allocator decides whether
    /// there is room for a new place.
    pub fn reserve_result(&mut self, limit: usize) -> (r: Result<ResultCredit, Error>)
        requires
            old(self).wf(),
        ensures
            final(self).wf(),
            final(self).same_but_results(*old(self)),
            held(old(self).results@) >= limit ==> r == Err::<ResultCredit, Error>(Error::Busy),
            held(old(self).results@) < limit ==> (r matches Err(error) ==> error
                == Error::OutOfMemory && held(old(self).results@) == old(self).results@.len()),
            match r {
                Ok(credit) => {
                    &&& Self::result_taken(
                        old(self).results@,
                        credit.spec_slot(),
                        final(self).results@,
                    )
                    &&& held(final(self).results@) == held(old(self).results@) + 1
                    &&& held(final(self).results@) <= limit
                },
                Err(_) => final(self).results@ == old(self).results@,
            },
    {
        self.reserve_result_from(limit, Memory::Allocator)
    }

    /// One more holds the same place.
    pub fn share_result(&mut self, credit: &ResultCredit) -> (r: ResultCredit)
        requires
            old(self).wf(),
            0 <= credit.spec_slot() < old(self).results@.len(),
            0 < old(self).results@[credit.spec_slot()] < usize::MAX,
        ensures
            final(self).wf(),
            final(self).same_but_results(*old(self)),
            r.spec_slot() == credit.spec_slot(),
            final(self).results@ == old(self).results@.update(
                credit.spec_slot(),
                (old(self).results@[credit.spec_slot()] + 1) as usize,
            ),
            held(final(self).results@) == held(old(self).results@),
    {
        let holders = self.results[credit.slot];
        proof {
            lemma_held_update(self.results@, credit.slot as int, (holders + 1) as usize);
        }
        self.results.set(credit.slot, holders + 1);
        ResultCredit { slot: credit.slot }
    }

    /// One holder lets go. The place is free when the last one did.
    pub fn return_result(&mut self, credit: ResultCredit)
        requires
            old(self).wf(),
            0 <= credit.spec_slot() < old(self).results@.len(),
            old(self).results@[credit.spec_slot()] > 0,
        ensures
            final(self).wf(),
            final(self).same_but_results(*old(self)),
            final(self).results@ == old(self).results@.update(
                credit.spec_slot(),
                (old(self).results@[credit.spec_slot()] - 1) as usize,
            ),
            held(final(self).results@) + (if old(self).results@[credit.spec_slot()] == 1 {
                1nat
            } else {
                0
            }) == held(old(self).results@),
    {
        let holders = self.results[credit.slot];
        proof {
            lemma_held_update(self.results@, credit.slot as int, (holders - 1) as usize);
        }
        self.results.set(credit.slot, holders - 1);
    }

    /// How many tasks are suspended.
    pub fn pending(&self) -> (r: usize)
        requires
            self.wf(),
            self.suspended() <= usize::MAX,
        ensures
            r == self.suspended(),
    {
        let earlier = match &self.previous {
            Some(previous) => previous.tasks.len(),
            None => 0,
        };
        self.current.tasks.len() + earlier
    }
}

/// The tasks of a session keep their numbers below those that are still to be given: a session
/// starts without tasks, going on to the next version moves them with their numbers, and numbers that
/// are given later only leave more room.
pub proof fn law_numbers_are_kept(session: SessionRuntime, after: SessionRuntime, next: u64, later: u64)
    requires
        session.numbered(next),
        next <= later,
    ensures
        session.numbered(later),
        after.same_but_results(session) ==> after.numbered(later),
        after.previous == Some(session.current) && after.current.tasks@ == Map::<
            u64,
            TaskHeader,
        >::empty() ==> after.numbered(later),
{
}

/// A session goes on to a version exactly when it is the next one, nothing of the version before its own
/// is left, and every task of its own is one that it accepted there.
pub proof fn law_versions_follow(session: SessionRuntime, version: CheckpointVersion)
    requires
        session.wf(),
    ensures
        session.switch_refusal(version) is None <==> {
            &&& version.0 == session.current.version.0 + 1
            &&& session.previous matches Some(previous) ==> previous.tasks@.dom().len() == 0
            &&& forall|slot: u64| #[trigger]
                session.current.tasks@.dom().contains(slot) ==> {
                    let task = session.current.tasks@[slot];
                    &&& task.version == session.current.version
                    &&& task.id.session == session.id
                    &&& session.current.last_accepted is Some
                    &&& task.serial.0 <= (session.current.last_accepted->0).0
                }
        },
        version.0 != session.current.version.0 + 1 ==> session.switch_refusal(version) == Some(
            Error::InvalidState("The session version must be continuously incremented"),
        ),
        version.0 == session.current.version.0 + 1 && session.previous is Some
            && session.previous->0.tasks@.dom().len() > 0 ==> session.switch_refusal(version) == Some(
            Error::Busy,
        ),
{
    if session.current.all_fit(session.id) {
        assert forall|slot: u64| #[trigger] session.current.tasks@.dom().contains(slot) implies {
            let task = session.current.tasks@[slot];
            &&& task.version == session.current.version
            &&& task.id.session == session.id
            &&& session.current.last_accepted is Some
            &&& task.serial.0 <= (session.current.last_accepted->0).0
        } by {
            assert(session.current.fits(session.id, session.current.tasks@[slot]));
        }
    }
}

/// A place for a result is the first that nobody holds, and only if all are held a new one; nobody
/// else's place is touched, and one more is held than before.
pub proof fn law_first_free_place(before: Seq<usize>, slot: int, after: Seq<usize>)
    requires
        SessionRuntime::result_taken(before, slot, after),
    ensures
        0 <= slot < after.len(),
        after[slot] == 1,
        slot < before.len() ==> before[slot] == 0 && after.len() == before.len(),
        slot >= before.len() ==> after.len() == before.len() + 1,
        forall|i: int| 0 <= i < slot ==> #[trigger] before[i] > 0,
        forall|i: int| 0 <= i < before.len() && i != slot ==> #[trigger] after[i] == before[i],
        held(after) == held(before) + 1,
{
    if slot < before.len() {
        lemma_held_update(before, slot, 1);
    } else {
        assert(after.drop_last() =~= before);
    }
}

/// A place counts as held while anyone holds it, however many.
pub proof fn law_held_places(results: Seq<usize>, holders: usize)
    ensures
        held(Seq::empty()) == 0,
        held(results.push(holders)) == held(results) + if holders > 0 {
            1nat
        } else {
            0
        },
{
    assert(results.push(holders).drop_last() =~= results);
}

/// A task that is suspended is found under its number, with what it is; every other task, and what was
/// accepted, stays.
pub proof fn law_suspended_is_kept(session: SessionRuntime, task: TaskHeader, after: SessionRuntime)
    requires
        session.wf(),
        session.suspends(task, after),
        !session.current.tasks@.dom().contains(task.id.slot),
    ensures
        after.current.tasks@.dom().contains(task.id.slot),
        after.current.tasks@[task.id.slot] == task,
        after.current.tasks@.remove(task.id.slot) == session.current.tasks@,
        after.current.last_accepted == session.current.last_accepted,
        after.current.version == session.current.version,
        after.previous == session.previous,
        after.suspended() == session.suspended() + 1,
{
    assert(after.current.tasks@.remove(task.id.slot) =~= session.current.tasks@);
    assert(after.current.tasks@.dom() =~= session.current.tasks@.dom().insert(task.id.slot));
}

/// A session that changes its version keeps what it accepted and leaves its tasks with the version in
/// which they were accepted; one that may not, or need not, changes nothing.
pub proof fn law_tasks_stay_with_their_version(
    session: &mut SessionRuntime,
    version: CheckpointVersion,
    r: Result<bool, Error>,
)
    requires
        old(session).wf(),
        call_ensures(SessionRuntime::switch_version, (session, version), r),
    ensures
        r == Ok::<bool, Error>(true) <==> version != old(session).current.version && old(
            session,
        ).switch_refusal(version) is None,
        r != Ok::<bool, Error>(true) ==> *final(session) == *old(session),
        r == Ok::<bool, Error>(true) ==> {
            &&& final(session).current.version == version
            &&& final(session).current.last_accepted == old(session).current.last_accepted
            &&& final(session).current.tasks@.dom().len() == 0
            &&& final(session).previous == Some(old(session).current)
            &&& final(session).suspended() == old(session).current.tasks@.dom().len()
        },
{
}

} // verus!
