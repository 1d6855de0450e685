//! The routes of a session. A session reserves its whole quota once; the quota is given back when
//! the session and all routes that it gave out are gone.
use crate::engine::io_hub::{lemma_quota_update, CompletionHub, HubModel, Mailbox, Quota};
use crate::types::{is_set, Error, Generation, RequestId, SessionId};
use vstd::prelude::*;

verus! {

/// The quota of a session, from which it takes routes, until it is given to [`SessionRoutes::close`].
pub struct SessionRoutes {
    session: SessionId,
    owner: u64,
    quota: usize,
}

/// One route of a session. It is given back by [`SessionRoute::release`] or
/// [`SessionRoute::abandon`]; dropping it changes nothing.
pub struct SessionRoute {
    id: RequestId,
    owner: u64,
    quota: usize,
    registered: bool,
    released: bool,
}

pub open spec fn no_quota() -> Quota {
    Quota { limit: 0, routes: 0, issuing: false }
}

impl HubModel {
    /// Why a quota cannot be reserved.
    pub open spec fn quota_refusal(self, session: SessionId, limit: usize) -> Option<Error> {
        if !is_set(session.0) {
            Some(Error::InvalidFormat("an identity must not be zero"))
        } else if limit == 0 {
            Some(Error::CapacityExceeded)
        } else if self.occupied + limit > self.capacity {
            Some(Error::Busy)
        } else {
            None
        }
    }

    /// The hub with `quota` at `at`. A quota that nobody uses any more is given back.
    pub open spec fn with_quota(self, at: int, quota: Quota) -> HubModel {
        if !quota.issuing && quota.routes == 0 {
            HubModel {
                quotas: self.quotas.update(at, no_quota()),
                occupied: (self.occupied - quota.limit) as nat,
                ..self
            }
        } else {
            HubModel { quotas: self.quotas.update(at, quota), ..self }
        }
    }

    /// Whether the quota at `at` is free.
    pub open spec fn free_quota(self, at: int) -> bool {
        at == self.quotas.len() || (0 <= at < self.quotas.len() && self.quotas[at].limit == 0)
    }

    /// The hub after a quota was reserved at `at`.
    pub open spec fn quota_reserved(self, at: int, limit: usize) -> HubModel {
        let quota = Quota { limit, routes: 0, issuing: true };
        HubModel {
            occupied: self.occupied + limit as nat,
            quotas: if at == self.quotas.len() {
                self.quotas.push(quota)
            } else {
                self.quotas.update(at, quota)
            },
            ..self
        }
    }
}

impl SessionRoutes {
    pub closed spec fn spec_session(self) -> SessionId {
        self.session
    }

    pub closed spec fn owner(self) -> u64 {
        self.owner
    }

    pub closed spec fn spec_quota(self) -> int {
        self.quota as int
    }

    /// Whether `hub` holds the quota for this session.
    pub open spec fn known_to(self, hub: HubModel) -> bool {
        &&& self.owner() == hub.instance
        &&& 0 <= self.spec_quota() < hub.quotas.len()
        &&& hub.quotas[self.spec_quota()].issuing
    }

    /// What comes of taking a route: it is refused while all are taken and when the numbers are used
    /// up, and otherwise has the next number.
    pub open spec fn reserves(
        self,
        before: HubModel,
        r: Result<SessionRoute, Error>,
        after: HubModel,
    ) -> bool {
        let quota = before.quotas[self.spec_quota()];
        if quota.routes >= quota.limit {
            r == Err::<SessionRoute, Error>(Error::Busy) && after == before
        } else if before.next == u64::MAX {
            r == Err::<SessionRoute, Error>(Error::CapacityExceeded) && after == before
        } else {
            &&& r matches Ok(route)
            &&& route.spec_id() == before.next_id(self.spec_session())
            &&& route.owner() == self.owner()
            &&& route.spec_quota() == self.spec_quota()
            &&& !route.is_registered()
            &&& !route.is_released()
            &&& route.known_to(after)
            &&& after == (HubModel {
                next: (before.next + 1) as u64,
                locals: before.locals.insert(before.next),
                quotas: before.quotas.update(
                    self.spec_quota(),
                    Quota { routes: (quota.routes + 1) as usize, ..quota },
                ),
                ..before
            })
        }
    }

    /// Takes a route, unless all are taken.
    pub fn reserve(&self, hub: &mut CompletionHub) -> (r: Result<SessionRoute, Error>)
        requires
            old(hub).wf(),
            self.known_to(old(hub)@),
        ensures
            final(hub).wf(),
            self.known_to(final(hub)@),
            self.reserves(old(hub)@, r, final(hub)@),
    {
        let quota = hub.quotas[self.quota];
        if quota.routes >= quota.limit {
            return Err(Error::Busy);
        }
        let slot = hub.next;
        let next = match slot.checked_add(1) {
            Some(next) => next,
            None => {
                return Err(Error::CapacityExceeded);
            },
        };
        let taken = Quota { limit: quota.limit, routes: quota.routes + 1, issuing: quota.issuing };
        proof {
            lemma_quota_update(hub.quotas@, self.quota as int, taken);
            assert(hub@.quotas[self.quota as int].wf());
        }
        hub.next = next;
        hub.quotas.set(self.quota, taken);
        hub.locals = Ghost(hub.locals@.insert(slot));
        proof {
            assert(hub@.plain() =~= old(hub)@.plain());
            assert(!old(hub)@.locals.contains(slot));
        }
        Ok(
            SessionRoute {
                id: RequestId {
                    store: hub.store,
                    session: self.session,
                    slot,
                    generation: Generation(0),
                },
                owner: self.owner,
                quota: self.quota,
                registered: false,
                released: false,
            },
        )
    }

    /// Ends the session: it takes no more routes. The quota is given back with the last route.
    pub fn close(self, hub: &mut CompletionHub)
        requires
            old(hub).wf(),
            self.known_to(old(hub)@),
        ensures
            final(hub).wf(),
            final(hub)@ == old(hub)@.with_quota(
                self.spec_quota(),
                (Quota { issuing: false, ..old(hub)@.quotas[self.spec_quota()] }),
            ),
    {
        let quota = hub.quotas[self.quota];
        hub.put_quota(
            self.quota,
            Quota { limit: quota.limit, routes: quota.routes, issuing: false },
        );
    }
}

impl SessionRoute {
    pub closed spec fn spec_id(self) -> RequestId {
        self.id
    }

    pub closed spec fn owner(self) -> u64 {
        self.owner
    }

    pub closed spec fn spec_quota(self) -> int {
        self.quota as int
    }

    pub closed spec fn is_registered(self) -> bool {
        self.registered
    }

    pub closed spec fn is_released(self) -> bool {
        self.released
    }

    /// Whether `hub`, if it gave the route, counts it.
    pub open spec fn known_to(self, hub: HubModel) -> bool {
        self.owner() == hub.instance ==> {
            &&& 0 <= self.spec_quota() < hub.quotas.len()
            &&& hub.quotas[self.spec_quota()].routes > 0
            &&& self.spec_id().store == hub.store
            &&& !self.is_released() && !self.is_registered() ==> hub.locals.contains(
                self.spec_id().slot,
            )
        }
    }

    /// Why a hub does not work on the route.
    pub open spec fn rejection(self, hub: HubModel) -> Option<Error> {
        if self.owner() != hub.instance {
            Some(Error::InvalidState("session route belongs to another hub"))
        } else if self.is_released() {
            Some(Error::InvalidState("operation route is already released"))
        } else {
            None
        }
    }

    pub fn id(&self) -> (r: RequestId)
        ensures
            r == self.spec_id(),
    {
        self.id
    }

    /// The identity under which the route has a mailbox.
    pub fn registered_id(&self) -> (r: Option<RequestId>)
        ensures
            r == (if self.is_registered() && !self.is_released() {
                Some(self.spec_id())
            } else {
                None
            }),
    {
        if self.registered && !self.released {
            Some(self.id)
        } else {
            None
        }
    }

    fn reject(&self, hub: &CompletionHub) -> (r: Option<Error>)
        ensures
            r == self.rejection(hub@),
    {
        if self.owner != hub.instance {
            Some(Error::InvalidState("session route belongs to another hub"))
        } else if self.released {
            Some(Error::InvalidState("operation route is already released"))
        } else {
            None
        }
    }

    /// Gives the route its mailbox, unless it has one.
    pub fn activate(&mut self, hub: &mut CompletionHub) -> (r: Result<(), Error>)
        requires
            old(hub).wf(),
            old(self).known_to(old(hub)@),
        ensures
            final(hub).wf(),
            final(self).known_to(final(hub)@),
            final(self).spec_id() == old(self).spec_id(),
            final(self).owner() == old(self).owner(),
            final(self).spec_quota() == old(self).spec_quota(),
            final(self).is_released() == old(self).is_released(),
            match old(self).rejection(old(hub)@) {
                Some(reason) => r == Err::<(), Error>(reason) && final(hub)@ == old(hub)@
                    && *final(self) == *old(self),
                None => {
                    &&& r == Ok::<(), Error>(())
                    &&& final(self).is_registered()
                    &&& final(hub)@ == (if old(self).is_registered() {
                        old(hub)@
                    } else {
                        HubModel {
                            locals: old(hub)@.locals.remove(old(self).spec_id().slot),
                            ..old(hub)@
                        }.with_mailbox(old(self).spec_id(), true)
                    })
                },
            },
    {
        if let Some(reason) = self.reject(hub) {
            return Err(reason);
        }
        if self.registered {
            return Ok(());
        }
        let id = self.id;
        proof {
            let mid = HubModel { locals: hub@.locals.remove(id.slot), ..hub@ };
            mid.lemma_with_mailbox(id, true);
            assert(mid.plain() =~= hub@.plain());
        }
        hub.locals = Ghost(hub.locals@.remove(id.slot));
        hub.mailboxes.insert(
            id.slot,
            Mailbox { id, completion: None, completions: 0, session: true },
        );
        self.registered = true;
        assert(hub@ =~= HubModel { locals: old(hub)@.locals.remove(id.slot), ..old(hub)@ }.with_mailbox(
            id,
            true,
        ));
        Ok(())
    }

    /// What giving the route back does to its hub.
    pub open spec fn given_back(self, hub: HubModel) -> HubModel {
        if !self.is_registered() {
            HubModel { locals: hub.locals.remove(self.spec_id().slot), ..hub }
        } else {
            hub.released(self.spec_id())
        }
    }

    /// Gives the route back, with its mailbox if it has one. The session keeps its quota, and the
    /// route still counts against it until it is abandoned.
    pub fn release(&mut self, hub: &mut CompletionHub) -> (r: Result<(), Error>)
        requires
            old(hub).wf(),
            old(self).known_to(old(hub)@),
        ensures
            final(hub).wf(),
            final(self).known_to(final(hub)@),
            final(self).spec_id() == old(self).spec_id(),
            final(self).owner() == old(self).owner(),
            final(self).spec_quota() == old(self).spec_quota(),
            match old(self).rejection(old(hub)@) {
                Some(reason) => r == Err::<(), Error>(reason) && final(hub)@ == old(hub)@
                    && *final(self) == *old(self),
                None => if old(self).is_registered() && !old(hub)@.registered(
                    old(self).spec_id(),
                ) {
                    &&& r == Err::<(), Error>(
                        Error::InvalidState("request mailbox ownership does not match"),
                    )
                    &&& *final(self) == *old(self)
                    &&& final(hub)@ == old(hub)@
                } else {
                    &&& r == Ok::<(), Error>(())
                    &&& final(self).is_released()
                    &&& final(hub)@ == old(self).given_back(old(hub)@)
                },
            },
    {
        if let Some(reason) = self.reject(hub) {
            return Err(reason);
        }
        if !self.registered {
            hub.locals = Ghost(hub.locals@.remove(self.id.slot));
            self.released = true;
            assert(hub@.plain() =~= old(hub)@.plain());
            return Ok(());
        }
        match hub.release(self.id) {
            Ok(()) => {
                self.released = true;
                Ok(())
            },
            Err(error) => Err(error),
        }
    }

    /// Ends the route: it is given back if it was not, and counts against the quota no more.
    pub fn abandon(self, hub: &mut CompletionHub)
        requires
            old(hub).wf(),
            self.known_to(old(hub)@),
        ensures
            final(hub).wf(),
            self.owner() != old(hub)@.instance ==> final(hub)@ == old(hub)@,
            self.owner() == old(hub)@.instance ==> {
                let quota = old(hub)@.quotas[self.spec_quota()];
                let rest = if self.is_released() || (self.is_registered() && !old(hub)@.registered(
                    self.spec_id(),
                )) {
                    old(hub)@
                } else {
                    self.given_back(old(hub)@)
                };
                final(hub)@ == rest.with_quota(
                    self.spec_quota(),
                    (Quota { routes: (quota.routes - 1) as usize, ..quota }),
                )
            },
    {
        let mut route = self;
        if route.owner != hub.instance {
            return;
        }
        if !route.released {
            let _ = route.release(hub);
        }
        let quota = hub.quotas[route.quota];
        hub.put_quota(
            route.quota,
            Quota { limit: quota.limit, routes: quota.routes - 1, issuing: quota.issuing },
        );
    }
}

impl CompletionHub {
    /// Replaces a quota, or gives it back where nobody uses it any more.
    fn put_quota(&mut self, at: usize, quota: Quota)
        requires
            old(self).wf(),
            at < old(self)@.quotas.len(),
            old(self)@.quotas[at as int].limit == quota.limit,
            quota.limit > 0,
            quota.routes <= quota.limit,
        ensures
            final(self).wf(),
            final(self)@ == old(self)@.with_quota(at as int, quota),
    {
        proof {
            lemma_quota_update(self.quotas@, at as int, quota);
            lemma_quota_update(self.quotas@, at as int, no_quota());
        }
        if !quota.issuing && quota.routes == 0 {
            self.quotas.set(at, Quota { limit: 0, routes: 0, issuing: false });
            self.occupied = self.occupied - quota.limit;
        } else {
            self.quotas.set(at, quota);
        }
        assert(self@.plain() =~= old(self)@.plain());
        assert(self@ =~= old(self)@.with_quota(at as int, quota));
    }

    /// Reserves `limit` routes for a session.
    pub fn session_routes(&mut self, session: SessionId, limit: usize) -> (r: Result<
        SessionRoutes,
        Error,
    >)
        requires
            old(self).wf(),
        ensures
            final(self).wf(),
            match old(self)@.quota_refusal(session, limit) {
                Some(reason) => r == Err::<SessionRoutes, Error>(reason) && final(self)@ == old(
                    self,
                )@,
                None => {
                    &&& r matches Ok(routes)
                    &&& routes.spec_session() == session
                    &&& routes.owner() == old(self)@.instance
                    &&& routes.known_to(final(self)@)
                    &&& old(self)@.free_quota(routes.spec_quota())
                    &&& final(self)@ == old(self)@.quota_reserved(routes.spec_quota(), limit)
                },
            },
    {
        match session.validate() {
            Ok(()) => {},
            Err(error) => {
                return Err(error);
            },
        }
        if limit == 0 {
            return Err(Error::CapacityExceeded);
        }
        if limit > self.capacity - self.occupied {
            return Err(Error::Busy);
        }
        let mut at: usize = 0;
        while at < self.quotas.len() && self.quotas[at].limit != 0
            invariant
                at <= self.quotas@.len(),
            decreases self.quotas@.len() - at,
        {
            at += 1;
        }
        let quota = Quota { limit, routes: 0, issuing: true };
        if at < self.quotas.len() {
            proof {
                lemma_quota_update(self.quotas@, at as int, quota);
            }
            self.quotas.set(at, quota);
        } else {
            self.quotas.push(quota);
            assert(self.quotas@.drop_last() =~= old(self).quotas@);
        }
        self.occupied = self.occupied + limit;
        assert(self@.plain() =~= old(self)@.plain());
        assert(self@ =~= old(self)@.quota_reserved(at as int, limit));
        Ok(SessionRoutes { session, owner: self.instance, quota: at })
    }
}

/// A quota is reserved exactly when its session is named, it is not empty and the hub has that many
/// places left; the first of these that fails is the reason.
pub proof fn law_quota_needs_room(hub: HubModel, session: SessionId, limit: usize)
    ensures
        hub.quota_refusal(session, limit) is None <==> is_set(session.0) && limit > 0 && hub.occupied
            + limit <= hub.capacity,
        !is_set(session.0) ==> hub.quota_refusal(session, limit) == Some(
            Error::InvalidFormat("an identity must not be zero"),
        ),
        is_set(session.0) && limit == 0 ==> hub.quota_refusal(session, limit) == Some(
            Error::CapacityExceeded,
        ),
        is_set(session.0) && limit > 0 && hub.occupied + limit > hub.capacity ==> hub.quota_refusal(
            session,
            limit,
        ) == Some(Error::Busy),
{
}

/// A reserved quota takes as many places as it has routes, at once, and touches no other quota that is
/// in use.
pub proof fn law_quota_takes_its_places(hub: HubModel, at: int, limit: usize, other: int)
    requires
        hub.wf(),
        hub.free_quota(at),
        0 <= other < hub.quotas.len(),
    ensures
        ({
            let after = hub.quota_reserved(at, limit);
            &&& after.occupied == hub.occupied + limit
            &&& 0 <= at < after.quotas.len()
            &&& after.quotas[at] == (Quota { limit, routes: 0, issuing: true })
            &&& other != at ==> after.quotas[other] == hub.quotas[other]
            &&& hub.quotas[other].limit > 0 ==> other != at
            &&& after == (HubModel { occupied: after.occupied, quotas: after.quotas, ..hub })
        }),
{
}

/// The places of a quota are returned exactly when its session is over and none of its routes is left;
/// until then it keeps all of them.
pub proof fn law_quota_returns_its_places(hub: HubModel, at: int, quota: Quota, other: int)
    requires
        hub.wf(),
        0 <= at < hub.quotas.len(),
        0 <= other < hub.quotas.len(),
        quota.limit <= hub.occupied,
    ensures
        ({
            let after = hub.with_quota(at, quota);
            let over = !quota.issuing && quota.routes == 0;
            &&& over ==> after.occupied + quota.limit == hub.occupied && after.quotas[at].limit == 0
                && after.free_quota(at)
            &&& !over ==> after.occupied == hub.occupied && after.quotas[at] == quota
            &&& other != at ==> after.quotas[other] == hub.quotas[other]
            &&& after == (HubModel { occupied: after.occupied, quotas: after.quotas, ..hub })
        }),
{
}

/// A route is given exactly when the session has one left and the hub a number: then it has the next
/// number in the name of the session and counts against its quota. It takes no place of its own.
pub proof fn law_route_is_fresh(
    routes: SessionRoutes,
    before: HubModel,
    r: Result<SessionRoute, Error>,
    after: HubModel,
)
    requires
        before.wf(),
        routes.known_to(before),
        routes.reserves(before, r, after),
    ensures
        ({
            let q = routes.spec_quota();
            &&& r is Ok <==> before.quotas[q].routes < before.quotas[q].limit && before.next < u64::MAX
            &&& r is Err ==> after == before
            &&& before.quotas[q].routes == before.quotas[q].limit ==> r == Err::<SessionRoute, Error>(
                Error::Busy,
            )
            &&& after.occupied == before.occupied
            &&& after.mailboxes == before.mailboxes
            &&& r matches Ok(route) ==> {
                &&& route.spec_id().slot == before.next
                &&& route.spec_id().session == routes.spec_session()
                &&& route.spec_id().store == before.store
                &&& route.owner() == routes.owner()
                &&& after.next == before.next + 1
                &&& after.locals == before.locals.insert(before.next)
                &&& after.quotas[q].routes == before.quotas[q].routes + 1
                &&& after.quotas[q].limit == before.quotas[q].limit
                &&& after.quotas[q].issuing == before.quotas[q].issuing
                &&& after.quotas.len() == before.quotas.len()
            }
        }),
{
    assert(before.quotas[routes.spec_quota()].wf());
}

/// A route is worked on exactly by the hub that gave it, until it is given back. One that is given back
/// leaves nothing behind: neither a number in use nor a mailbox.
pub proof fn law_route_leaves_nothing(route: SessionRoute, hub: HubModel)
    requires
        hub.wf(),
        route.known_to(hub),
    ensures
        route.rejection(hub) is None <==> route.owner() == hub.instance && !route.is_released(),
        route.owner() != hub.instance ==> route.rejection(hub) == Some(
            Error::InvalidState("session route belongs to another hub"),
        ),
        route.owner() == hub.instance && route.is_released() ==> route.rejection(hub) == Some(
            Error::InvalidState("operation route is already released"),
        ),
        route.rejection(hub) is None && (route.is_registered() ==> hub.registered(route.spec_id())) ==> {
            let after = route.given_back(hub);
            &&& !after.locals.contains(route.spec_id().slot)
            &&& !after.mailboxes.dom().contains(route.spec_id().slot)
            &&& after.mailboxes == hub.mailboxes.remove(route.spec_id().slot)
            &&& after.locals == hub.locals.remove(route.spec_id().slot)
            &&& after.quotas == hub.quotas
            &&& after.next == hub.next
        },
{
    if route.rejection(hub) is None {
        let slot = route.spec_id().slot;
        if route.is_registered() {
            if hub.registered(route.spec_id()) {
                assert(hub.locals.remove(slot) =~= hub.locals);
            }
        } else {
            assert(!hub.mailboxes.dom().contains(slot));
            assert(hub.mailboxes.remove(slot) =~= hub.mailboxes);
        }
    }
}

} // verus!
