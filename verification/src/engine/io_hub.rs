//! Mailboxes for device completions. A request reserves its mailbox before it asks the device,
//! and a completion goes to the mailbox that its route names and to no other.
pub mod session;

use crate::device::{CompletionRoute, Device, IoCompletion};
use crate::table::Table;
use crate::types::{is_set, Error, Generation, PollBudget, RequestId, SessionId, StoreId};
use vstd::prelude::*;

verus! {

/// The mailbox of one request.
pub struct Mailbox {
    pub id: RequestId,
    pub completion: Option<IoCompletion>,
    pub completions: u64,
    /// Whether the mailbox is paid for by the quota of a session.
    pub session: bool,
}

/// The routes that a session has reserved at once. A quota with limit zero is free.
#[derive(Clone, Copy, Debug, PartialEq, Eq, Structural)]
pub struct Quota {
    pub limit: usize,
    /// How many routes the session holds.
    pub routes: usize,
    /// Whether the session can still reserve routes.
    pub issuing: bool,
}

impl Quota {
    pub open spec fn wf(self) -> bool {
        &&& self.routes <= self.limit
        &&& self.limit > 0 ==> self.issuing || self.routes > 0
        &&& self.limit == 0 ==> !self.issuing
    }
}

/// How much all quotas hold together.
pub open spec fn quota_sum(quotas: Seq<Quota>) -> nat
    decreases quotas.len(),
{
    if quotas.len() == 0 {
        0
    } else {
        quota_sum(quotas.drop_last()) + quotas.last().limit as nat
    }
}

proof fn lemma_quota_update(quotas: Seq<Quota>, at: int, quota: Quota)
    requires
        0 <= at < quotas.len(),
    ensures
        quota_sum(quotas.update(at, quota)) + quotas[at].limit == quota_sum(quotas) + quota.limit,
    decreases quotas.len(),
{
    if at == quotas.len() - 1 {
        assert(quotas.update(at, quota).drop_last() =~= quotas.drop_last());
    } else {
        lemma_quota_update(quotas.drop_last(), at, quota);
        assert(quotas.update(at, quota).drop_last() =~= quotas.drop_last().update(at, quota));
    }
}

/// All that a hub holds.
#[verifier::ext_equal]
pub struct HubModel {
    pub store: StoreId,
    pub instance: u64,
    pub capacity: nat,
    /// How many requests are reserved, with a mailbox or without, and by the quotas of sessions.
    pub occupied: nat,
    /// The number of the next route.
    pub next: u64,
    pub acquisitions: u64,
    pub mailboxes: Map<u64, Mailbox>,
    /// The operations that are reserved and have no mailbox.
    pub operations: Set<u64>,
    /// The routes of sessions that are not given back and have no mailbox.
    pub locals: Set<u64>,
    pub quotas: Seq<Quota>,
}

impl HubModel {
    /// The mailboxes that no quota pays for.
    pub open spec fn plain(self) -> Set<u64> {
        self.mailboxes.dom().filter(|slot: u64| !self.mailboxes[slot].session)
    }

    /// Every reservation is counted once, the capacity is kept, no number is given twice, and every
    /// mailbox stands under its own number.
    pub open spec fn wf(self) -> bool {
        &&& 0 < self.capacity <= usize::MAX
        &&& self.mailboxes.dom().finite()
        &&& self.operations.finite()
        &&& self.occupied == self.plain().len() + self.operations.len() + quota_sum(self.quotas)
        &&& self.occupied <= self.capacity
        &&& forall|slot: u64| #[trigger]
            self.mailboxes.dom().contains(slot) ==> {
                &&& slot < self.next
                &&& self.mailboxes[slot].id.slot == slot
                &&& self.mailboxes[slot].id.store == self.store
                &&& !self.operations.contains(slot)
                &&& !self.locals.contains(slot)
            }
        &&& forall|slot: u64| #[trigger]
            self.operations.contains(slot) ==> slot < self.next && !self.locals.contains(slot)
        &&& forall|slot: u64| #[trigger] self.locals.contains(slot) ==> slot < self.next
        &&& forall|q: int| 0 <= q < self.quotas.len() ==> (#[trigger] self.quotas[q]).wf()
    }

    pub open spec fn next_id(self, session: SessionId) -> RequestId {
        RequestId { store: self.store, session, slot: self.next, generation: Generation(0) }
    }

    /// Why no request can be reserved.
    pub open spec fn refusal(self, session: SessionId) -> Option<Error> {
        if !is_set(session.0) {
            Some(Error::InvalidFormat("an identity must not be zero"))
        } else if self.occupied >= self.capacity {
            Some(Error::Busy)
        } else if self.next == u64::MAX {
            Some(Error::CapacityExceeded)
        } else {
            None
        }
    }

    /// The hub after one more request was counted and numbered.
    pub open spec fn counted(self) -> HubModel {
        HubModel {
            occupied: self.occupied + 1,
            next: (self.next + 1) as u64,
            acquisitions: if self.acquisitions == u64::MAX {
                u64::MAX
            } else {
                (self.acquisitions + 1) as u64
            },
            ..self
        }
    }

    pub open spec fn with_mailbox(self, id: RequestId, session: bool) -> HubModel {
        HubModel {
            mailboxes: self.mailboxes.insert(
                id.slot,
                Mailbox { id, completion: None, completions: 0, session },
            ),
            ..self
        }
    }

    /// What comes of collecting the completion of a request: it is handed out once, and to its own
    /// request only.
    pub open spec fn taken(self, id: RequestId) -> (Result<Option<IoCompletion>, Error>, HubModel) {
        if !self.mailboxes.dom().contains(id.slot) {
            (Err(Error::InvalidState("The request email does not exist")), self)
        } else if self.mailboxes[id.slot].id != id {
            (Err(Error::InvalidState("request mailbox ownership does not match")), self)
        } else {
            (
                Ok(self.mailboxes[id.slot].completion),
                HubModel {
                    mailboxes: self.mailboxes.insert(
                        id.slot,
                        Mailbox { completion: None, ..self.mailboxes[id.slot] },
                    ),
                    ..self
                },
            )
        }
    }

    /// Whether `id` has a mailbox.
    pub open spec fn registered(self, id: RequestId) -> bool {
        self.mailboxes.dom().contains(id.slot) && self.mailboxes[id.slot].id == id
    }

    /// The hub without the mailbox of `id`.
    pub open spec fn released(self, id: RequestId) -> HubModel {
        HubModel {
            occupied: if self.mailboxes[id.slot].session {
                self.occupied
            } else {
                (self.occupied - 1) as nat
            },
            mailboxes: self.mailboxes.remove(id.slot),
            ..self
        }
    }

    /// The hub after one completion arrived: its mailbox counts it, and keeps it if it is empty.
    pub open spec fn delivered(self, c: IoCompletion) -> HubModel {
        let slot = c.route.0;
        if self.mailboxes.dom().contains(slot) {
            let mailbox = self.mailboxes[slot];
            HubModel {
                mailboxes: self.mailboxes.insert(
                    slot,
                    Mailbox {
                        completions: if mailbox.completions == u64::MAX {
                            u64::MAX
                        } else {
                            (mailbox.completions + 1) as u64
                        },
                        completion: if mailbox.completion is Some {
                            mailbox.completion
                        } else {
                            Some(c)
                        },
                        ..mailbox
                    },
                ),
                ..self
            }
        } else {
            self
        }
    }

    /// What is wrong with a completion: its mailbox is full, or its route was never given.
    pub open spec fn complaint(self, c: IoCompletion) -> Option<Error> {
        let slot = c.route.0;
        if self.mailboxes.dom().contains(slot) {
            if self.mailboxes[slot].completion is Some {
                Some(
                    Error::InvalidState(
                        "There are multiple uncollected requests for one request I/O completed",
                    ),
                )
            } else {
                None
            }
        } else if slot >= self.next {
            Some(Error::InvalidState("Device returns unassigned completion route"))
        } else {
            None
        }
    }

    /// The hub after all of `arrived` came in, one after the other.
    pub open spec fn delivered_all(self, arrived: Seq<IoCompletion>) -> HubModel
        decreases arrived.len(),
    {
        if arrived.len() == 0 {
            self
        } else {
            self.delivered_all(arrived.drop_last()).delivered(arrived.last())
        }
    }

    /// The first error: that of the device, or else the first complaint.
    pub open spec fn first_error(self, arrived: Seq<IoCompletion>, failed: Option<Error>) -> Option<
        Error,
    >
        decreases arrived.len(),
    {
        if arrived.len() == 0 {
            failed
        } else {
            match self.first_error(arrived.drop_last(), failed) {
                Some(error) => Some(error),
                None => self.delivered_all(arrived.drop_last()).complaint(arrived.last()),
            }
        }
    }

    /// The hub without any completion that was not collected.
    pub open spec fn emptied(self) -> HubModel {
        HubModel {
            mailboxes: self.mailboxes.map_values(
                |mailbox: Mailbox| Mailbox { completion: None, ..mailbox },
            ),
            ..self
        }
    }

    /// Whether the hub has reserved the operation of a route and holds no mailbox for it.
    pub open spec fn holds(self, slot: u64) -> bool {
        self.operations.contains(slot)
    }

    proof fn lemma_delivered(self, c: IoCompletion)
        requires
            self.wf(),
        ensures
            self.delivered(c).wf(),
    {
        let after = self.delivered(c);
        assert(after.mailboxes.dom() =~= self.mailboxes.dom());
        assert(after.plain() =~= self.plain());
    }

    proof fn lemma_delivered_all(self, arrived: Seq<IoCompletion>)
        requires
            self.wf(),
        ensures
            self.delivered_all(arrived).wf(),
        decreases arrived.len(),
    {
        if arrived.len() > 0 {
            self.lemma_delivered_all(arrived.drop_last());
            self.delivered_all(arrived.drop_last()).lemma_delivered(arrived.last());
        }
    }

    proof fn lemma_with_mailbox(self, id: RequestId, session: bool)
        requires
            self.mailboxes.dom().finite(),
            !self.mailboxes.dom().contains(id.slot),
        ensures
            self.with_mailbox(id, session).mailboxes.dom() == self.mailboxes.dom().insert(id.slot),
            self.with_mailbox(id, session).plain() == (if session {
                self.plain()
            } else {
                self.plain().insert(id.slot)
            }),
            self.plain().finite(),
            !self.plain().contains(id.slot),
    {
        let after = self.with_mailbox(id, session);
        assert(after.mailboxes.dom() =~= self.mailboxes.dom().insert(id.slot));
        if session {
            assert(after.plain() =~= self.plain());
        } else {
            assert(after.plain() =~= self.plain().insert(id.slot));
        }
        vstd::set_lib::lemma_len_subset(self.plain(), self.mailboxes.dom());
    }

    proof fn lemma_released(self, id: RequestId)
        requires
            self.wf(),
            self.registered(id),
        ensures
            self.released(id).wf(),
            self.occupied > 0 || self.mailboxes[id.slot].session,
    {
        let after = self.released(id);
        assert(after.mailboxes.dom() =~= self.mailboxes.dom().remove(id.slot));
        vstd::set_lib::lemma_len_subset(self.plain(), self.mailboxes.dom());
        if self.mailboxes[id.slot].session {
            assert(after.plain() =~= self.plain());
        } else {
            assert(self.plain().contains(id.slot));
            assert(after.plain() =~= self.plain().remove(id.slot));
        }
    }
}

/// The hub without the mailbox of `id`, if it is there.
pub open spec fn given_back(hub: HubModel, id: Option<RequestId>) -> HubModel {
    match id {
        Some(id) => if hub.registered(id) {
            hub.released(id)
        } else {
            hub
        },
        None => hub,
    }
}

/// The device was polled so many times with the default budget, and handed something out each time.
pub open spec fn handed_out<D: Device>(device: D, rounds: nat, after: D) -> bool
    decreases rounds,
{
    if rounds == 0 {
        after == device
    } else {
        exists|mid: D, arrived: Seq<IoCompletion>|
            {
                &&& handed_out(device, (rounds - 1) as nat, mid)
                &&& arrived.len() > 0
                &&& #[trigger] mid.polls(64, arrived, Ok(()), after)
            }
    }
}

/// The device was polled with the default budget until it had nothing to hand out, or failed: `r` is
/// what the last poll ended with.
pub open spec fn drained<D: Device>(device: D, r: Result<(), Error>, after: D) -> bool {
    exists|rounds: nat, mid: D, arrived: Seq<IoCompletion>|
        {
            &&& #[trigger] handed_out(device, rounds, mid)
            &&& r is Ok ==> arrived.len() == 0
            &&& #[trigger] mid.polls(64, arrived, r, after)
        }
}

/// The error of giving back a mailbox that is not there.
pub open spec fn give_back_error(hub: HubModel, id: Option<RequestId>) -> Option<Error> {
    match id {
        Some(id) => if hub.registered(id) {
            None
        } else {
            Some(Error::InvalidState("request mailbox ownership does not match"))
        },
        None => None,
    }
}

/// A completion reaches the mailbox that its route names, and no other.
pub proof fn law_only_its_own_mailbox(hub: HubModel, c: IoCompletion, slot: u64)
    requires
        slot != c.route.0,
    ensures
        hub.delivered(c).mailboxes.dom() == hub.mailboxes.dom(),
        hub.mailboxes.dom().contains(slot) ==> hub.delivered(c).mailboxes[slot]
            == hub.mailboxes[slot],
{
    assert(hub.delivered(c).mailboxes.dom() =~= hub.mailboxes.dom());
}

/// What waits in a mailbox is not replaced by what comes later, however much comes.
pub proof fn law_uncollected_stays(hub: HubModel, arrived: Seq<IoCompletion>, slot: u64)
    requires
        hub.mailboxes.dom().contains(slot),
        hub.mailboxes[slot].completion is Some,
    ensures
        hub.delivered_all(arrived).mailboxes.dom().contains(slot),
        hub.delivered_all(arrived).mailboxes[slot].completion == hub.mailboxes[slot].completion,
        hub.delivered_all(arrived).mailboxes[slot].id == hub.mailboxes[slot].id,
    decreases arrived.len(),
{
    if arrived.len() > 0 {
        law_uncollected_stays(hub, arrived.drop_last(), slot);
    }
}

/// A completion for a mailbox that was given back is dropped in silence: it reaches no later
/// request, since no number is given twice.
pub proof fn law_late_completion_reaches_nobody(hub: HubModel, id: RequestId, c: IoCompletion)
    requires
        hub.wf(),
        hub.registered(id),
        c.route.0 == id.slot,
    ensures
        hub.released(id).delivered(c) == hub.released(id),
        hub.released(id).complaint(c) is None,
        forall|session: SessionId| #[trigger] hub.released(id).next_id(session).slot > id.slot,
{
}

/// Giving back what was reserved returns its place.
pub proof fn law_release_undoes_reserve(hub: HubModel, session: SessionId)
    requires
        hub.wf(),
        hub.refusal(session) is None,
    ensures
        ({
            let id = hub.next_id(session);
            let after = hub.counted().with_mailbox(id, false);
            &&& after.registered(id)
            &&& after.released(id) == (HubModel {
                next: after.next,
                acquisitions: after.acquisitions,
                ..hub
            })
        }),
{
    let id = hub.next_id(session);
    let after = hub.counted().with_mailbox(id, false);
    assert(!hub.mailboxes.dom().contains(id.slot));
    assert(after.released(id).mailboxes =~= hub.mailboxes);
}

/// The right of one operation to a mailbox. It is taken once, and given back once.
pub struct OperationRoute {
    id: RequestId,
    owner: u64,
    registered: bool,
    released: bool,
}

impl OperationRoute {
    pub closed spec fn spec_id(self) -> RequestId {
        self.id
    }

    /// The hub that gave the route.
    pub closed spec fn owner(self) -> u64 {
        self.owner
    }

    pub closed spec fn is_registered(self) -> bool {
        self.registered
    }

    pub closed spec fn is_released(self) -> bool {
        self.released
    }

    /// Whether `hub` gave the route and it was not given back: then the hub counts it.
    pub open spec fn known_to(self, hub: HubModel) -> bool {
        self.owner() == hub.instance && !self.is_released() ==> {
            &&& self.spec_id().store == hub.store
            &&& self.spec_id().slot < hub.next
            &&& !self.is_registered() ==> hub.holds(self.spec_id().slot)
        }
    }

    /// Why a hub does not work on the route.
    pub open spec fn rejection(self, hub: HubModel) -> Option<Error> {
        if self.owner() != hub.instance {
            Some(Error::InvalidState("operation route belongs to another hub"))
        } else if self.is_released() {
            Some(Error::InvalidState("operation route is already released"))
        } else {
            None
        }
    }

    pub fn id(&self) -> (r: RequestId)
        ensures
            r == self.spec_id(),
    {
        self.id
    }

    /// The identity under which the operation has a mailbox.
    pub fn registered_id(&self) -> (r: Option<RequestId>)
        ensures
            r == (if self.is_registered() && !self.is_released() {
                Some(self.spec_id())
            } else {
                None
            }),
    {
        if self.registered && !self.released {
            Some(self.id)
        } else {
            None
        }
    }
}

pub struct CompletionHub {
    store: StoreId,
    instance: u64,
    capacity: usize,
    occupied: usize,
    next: u64,
    acquisitions: u64,
    mailboxes: Table<u64, Mailbox>,
    operations: Ghost<Set<u64>>,
    locals: Ghost<Set<u64>>,
    quotas: Vec<Quota>,
}

impl CompletionHub {
    pub closed spec fn view(self) -> HubModel {
        HubModel {
            store: self.store,
            instance: self.instance,
            capacity: self.capacity as nat,
            occupied: self.occupied as nat,
            next: self.next,
            acquisitions: self.acquisitions,
            mailboxes: self.mailboxes@,
            operations: self.operations@,
            locals: self.locals@,
            quotas: self.quotas@,
        }
    }

    pub closed spec fn wf(self) -> bool {
        self.mailboxes.wf() && self@.wf()
    }

    /// A hub for `capacity` requests. `instance` tells it from all other hubs.
    pub fn new(store: StoreId, capacity: usize, instance: u64) -> (r: Result<CompletionHub, Error>)
        ensures
            !is_set(store.0) ==> r == Err::<CompletionHub, Error>(
                Error::InvalidFormat("an identity must not be zero"),
            ),
            is_set(store.0) && capacity == 0 ==> r == Err::<CompletionHub, Error>(
                Error::CapacityExceeded,
            ),
            is_set(store.0) && capacity > 0 ==> r is Ok,
            r matches Ok(hub) ==> hub.wf() && hub@ == (HubModel {
                store,
                instance,
                capacity: capacity as nat,
                occupied: 0,
                next: 0,
                acquisitions: 0,
                mailboxes: Map::empty(),
                operations: Set::empty(),
                locals: Set::empty(),
                quotas: Seq::empty(),
            }),
    {
        match store.validate() {
            Ok(()) => {},
            Err(error) => {
                return Err(error);
            },
        }
        if capacity == 0 {
            return Err(Error::CapacityExceeded);
        }
        let hub = CompletionHub {
            store,
            instance,
            capacity,
            occupied: 0,
            next: 0,
            acquisitions: 0,
            mailboxes: Table::new(),
            operations: Ghost(Set::empty()),
            locals: Ghost(Set::empty()),
            quotas: Vec::new(),
        };
        assert(hub@.plain() =~= Set::<u64>::empty());
        Ok(hub)
    }

    pub fn occupied(&self) -> (r: usize)
        ensures
            r == self@.occupied,
    {
        self.occupied
    }

    pub fn next_route(&self) -> (r: u64)
        ensures
            r == self@.next,
    {
        self.next
    }

    /// How often a request was counted.
    pub fn capacity_acquisitions(&self) -> (r: u64)
        ensures
            r == self@.acquisitions,
    {
        self.acquisitions
    }

    pub fn mailbox_count(&self) -> (r: usize)
        requires
            self.wf(),
        ensures
            r == self@.mailboxes.dom().len(),
    {
        self.mailboxes.len()
    }

    /// Gives no number below `next` any more.
    pub fn skip_to(&mut self, next: u64)
        requires
            old(self).wf(),
        ensures
            final(self).wf(),
            final(self)@ == (HubModel {
                next: if next > old(self)@.next {
                    next
                } else {
                    old(self)@.next
                },
                ..old(self)@
            }),
    {
        if next > self.next {
            self.next = next;
        }
        assert(self@.plain() =~= old(self)@.plain());
    }

    /// Counts and numbers one more request.
    fn count(&mut self, session: SessionId) -> (r: Result<RequestId, Error>)
        requires
            old(self).wf(),
        ensures
            final(self).mailboxes.wf(),
            match old(self)@.refusal(session) {
                Some(reason) => r == Err::<RequestId, Error>(reason) && *final(self) == *old(self),
                None => r == Ok::<RequestId, Error>(old(self)@.next_id(session)) && final(self)@
                    == old(self)@.counted(),
            },
    {
        match session.validate() {
            Ok(()) => {},
            Err(error) => {
                return Err(error);
            },
        }
        if self.occupied >= self.capacity {
            return Err(Error::Busy);
        }
        let next = match self.next.checked_add(1) {
            Some(next) => next,
            None => {
                return Err(Error::CapacityExceeded);
            },
        };
        let id = RequestId {
            store: self.store,
            session,
            slot: self.next,
            generation: Generation(0),
        };
        self.next = next;
        self.occupied = self.occupied + 1;
        self.acquisitions = self.acquisitions.saturating_add(1);
        Ok(id)
    }

    /// Reserves a mailbox.
    pub fn reserve(&mut self, session: SessionId) -> (r: Result<RequestId, Error>)
        requires
            old(self).wf(),
        ensures
            final(self).wf(),
            match old(self)@.refusal(session) {
                Some(reason) => r == Err::<RequestId, Error>(reason) && final(self)@ == old(self)@,
                None => r == Ok::<RequestId, Error>(old(self)@.next_id(session)) && final(self)@
                    == old(self)@.counted().with_mailbox(old(self)@.next_id(session), false),
            },
    {
        let id = match self.count(session) {
            Ok(id) => id,
            Err(error) => {
                return Err(error);
            },
        };
        proof {
            old(self)@.counted().lemma_with_mailbox(id, false);
            assert(old(self)@.counted().plain() =~= old(self)@.plain());
        }
        self.mailboxes.insert(
            id.slot,
            Mailbox { id, completion: None, completions: 0, session: false },
        );
        assert(self@ =~= old(self)@.counted().with_mailbox(id, false));
        Ok(id)
    }

    /// The route that carries the completion of a request to its mailbox.
    pub fn route(id: RequestId) -> (r: CompletionRoute)
        ensures
            r == CompletionRoute(id.slot),
    {
        CompletionRoute(id.slot)
    }

    /// Collects the completion of a request, if it has come.
    pub fn take(&mut self, id: RequestId) -> (r: Result<Option<IoCompletion>, Error>)
        requires
            old(self).wf(),
        ensures
            final(self).wf(),
            (r, final(self)@) == old(self)@.taken(id),
    {
        let taken = match self.mailboxes.get_mut(&id.slot) {
            None => {
                return Err(Error::InvalidState("The request email does not exist"));
            },
            Some(mailbox) => if !mailbox.id.same(&id) {
                Err(Error::InvalidState("request mailbox ownership does not match"))
            } else {
                Ok(mailbox.completion.take())
            },
        };
        proof {
            assert(self@.mailboxes.dom() =~= old(self)@.mailboxes.dom());
            assert(self@.plain() =~= old(self)@.plain());
            if taken is Err {
                assert(self@ =~= old(self)@);
            }
        }
        taken
    }

    /// How many completions have come for a request.
    pub fn completion_count(&self, id: RequestId) -> (r: Result<u64, Error>)
        requires
            self.wf(),
        ensures
            r == (if self@.registered(id) {
                Ok::<u64, Error>(self@.mailboxes[id.slot].completions)
            } else {
                Err::<u64, Error>(Error::InvalidState("Completion count route does not exist"))
            }),
    {
        match self.mailboxes.get(&id.slot) {
            Some(mailbox) if mailbox.id.same(&id) => Ok(mailbox.completions),
            _ => Err(Error::InvalidState("Completion count route does not exist")),
        }
    }

    /// Gives a mailbox back. A completion that comes later is dropped with its buffer.
    pub fn release(&mut self, id: RequestId) -> (r: Result<(), Error>)
        requires
            old(self).wf(),
        ensures
            final(self).wf(),
            if old(self)@.registered(id) {
                r == Ok::<(), Error>(()) && final(self)@ == old(self)@.released(id)
            } else {
                r == Err::<(), Error>(
                    Error::InvalidState("request mailbox ownership does not match"),
                ) && final(self)@ == old(self)@
            },
    {
        let session = match self.mailboxes.get(&id.slot) {
            Some(mailbox) => if mailbox.id.same(&id) {
                Some(mailbox.session)
            } else {
                None
            },
            None => None,
        };
        let session = match session {
            Some(session) => session,
            None => {
                return Err(Error::InvalidState("request mailbox ownership does not match"));
            },
        };
        proof {
            old(self)@.lemma_released(id);
        }
        self.mailboxes.remove(&id.slot);
        if !session {
            self.occupied = self.occupied - 1;
        }
        assert(self@ =~= old(self)@.released(id));
        Ok(())
    }

    /// Puts one completion into its mailbox.
    fn deliver_one(&mut self, c: IoCompletion) -> (r: Option<Error>)
        requires
            old(self).wf(),
        ensures
            final(self).wf(),
            final(self)@ == old(self)@.delivered(c),
            r == old(self)@.complaint(c),
    {
        let ghost arrived = c;
        proof {
            self@.lemma_delivered(c);
        }
        let slot = c.route.0;
        let next = self.next;
        let complaint = match self.mailboxes.get_mut(&slot) {
            Some(mailbox) => {
                mailbox.completions = mailbox.completions.saturating_add(1);
                if mailbox.completion.is_some() {
                    Some(
                        Error::InvalidState(
                            "There are multiple uncollected requests for one request I/O completed",
                        ),
                    )
                } else {
                    mailbox.completion = Some(c);
                    None
                }
            },
            None => if slot >= next {
                Some(Error::InvalidState("Device returns unassigned completion route"))
            } else {
                None
            },
        };
        assert(self@ =~= old(self)@.delivered(arrived));
        complaint
    }

    /// Takes in what a device handed out, and the error with which it did. Every completion goes to
    /// its mailbox whatever is wrong with the others.
    pub fn deliver(&mut self, completions: Vec<IoCompletion>, failed: Option<Error>) -> (r: Result<
        usize,
        Error,
    >)
        requires
            old(self).wf(),
        ensures
            final(self).wf(),
            final(self)@ == old(self)@.delivered_all(completions@),
            r == (match old(self)@.first_error(completions@, failed) {
                Some(error) => Err::<usize, Error>(error),
                None => Ok::<usize, Error>(completions@.len() as usize),
            }),
    {
        let mut rest = completions;
        let mut error = failed;
        let count = rest.len();
        let ghost all = rest@;
        let mut i: usize = 0;
        proof {
            assert(all.take(0) =~= Seq::<IoCompletion>::empty());
            assert(all.skip(0) =~= all);
        }
        while i < count
            invariant
                self.wf(),
                i <= count == all.len(),
                rest@ == all.skip(i as int),
                self@ == old(self)@.delivered_all(all.take(i as int)),
                error == old(self)@.first_error(all.take(i as int), failed),
            decreases count - i,
        {
            let c = rest.remove(0);
            proof {
                assert(all.take(i + 1).drop_last() =~= all.take(i as int));
                assert(rest@ =~= all.skip(i + 1));
            }
            let complaint = self.deliver_one(c);
            if error.is_none() {
                error = complaint;
            }
            i += 1;
        }
        assert(all.take(i as int) =~= all);
        match error {
            Some(error) => Err(error),
            None => Ok(count),
        }
    }

    /// Polls the device, for at most as many completions as the hub has mailboxes, and delivers
    /// what comes.
    pub fn poll<D: Device>(&mut self, device: &mut D, budget: PollBudget) -> (r: Result<
        usize,
        Error,
    >)
        requires
            old(self).wf(),
            old(device).wf(),
        ensures
            final(self).wf(),
            final(device).wf(),
            exists|arrived: Seq<IoCompletion>, failed: Option<Error>|
                {
                    &&& arrived.len() <= budget@
                    &&& arrived.len() <= old(self)@.capacity
                    &&& final(device).owed() + arrived.len() == old(device).owed()
                    &&& old(device).polls(
                        if budget@ < old(self)@.capacity {
                            budget@
                        } else {
                            old(self)@.capacity
                        },
                        arrived,
                        match failed {
                            Some(error) => Err(error),
                            None => Ok(()),
                        },
                        *final(device),
                    )
                    &&& final(self)@ == #[trigger] old(self)@.delivered_all(arrived)
                    &&& r == (match #[trigger] old(self)@.first_error(arrived, failed) {
                        Some(error) => Err::<usize, Error>(error),
                        None => Ok::<usize, Error>(arrived.len() as usize),
                    })
                },
    {
        let mut completions: Vec<IoCompletion> = Vec::new();
        let limit = if budget.get() < self.capacity {
            budget.get()
        } else {
            self.capacity
        };
        let failed = match PollBudget::new(limit) {
            Some(limited) => {
                let polled = device.poll(limited, &mut completions);
                assert(completions@.skip(0) =~= completions@);
                match polled {
                    Ok(()) => {
                        assert(polled->Ok_0 == ());
                        None
                    },
                    Err(error) => Some(error),
                }
            },
            None => None,
        };
        self.deliver(completions, failed)
    }

    /// Drops all completions that were not collected.
    pub fn discard_completions(&mut self)
        requires
            old(self).wf(),
        ensures
            final(self).wf(),
            final(self)@ == old(self)@.emptied(),
    {
        let mut i: usize = 0;
        let count = self.mailboxes.len();
        while i < count
            invariant
                self.wf(),
                i <= count,
                count == self.mailboxes.items().len(),
                *self == (CompletionHub { mailboxes: self.mailboxes, ..*old(self) }),
                self@.mailboxes.dom() == old(self)@.mailboxes.dom(),
                forall|j: int|
                    0 <= j < i ==> (#[trigger] self.mailboxes.items()[j]).1.completion is None,
                forall|slot: u64| #[trigger]
                    self@.mailboxes.dom().contains(slot) ==> self@.mailboxes[slot] == old(
                        self,
                    )@.mailboxes[slot] || self@.mailboxes[slot] == (Mailbox {
                        completion: None,
                        ..old(self)@.mailboxes[slot]
                    }),
            decreases count - i,
        {
            let ghost before = *self;
            proof {
                before.mailboxes.lemma_item(i as int);
            }
            let mailbox = self.mailboxes.at_mut(i);
            mailbox.completion = None;
            proof {
                assert(self@.mailboxes.dom() =~= before@.mailboxes.dom());
                assert(self@.plain() =~= before@.plain());
                assert forall|j: int| 0 <= j <= i implies (
                #[trigger] self.mailboxes.items()[j]).1.completion is None by {
                    if j < i {
                        assert(self.mailboxes.items()[j] == before.mailboxes.items()[j]);
                    }
                }
            }
            i += 1;
        }
        proof {
            assert forall|slot: u64| #[trigger] self@.mailboxes.dom().contains(
                slot,
            ) implies self@.mailboxes[slot] == (Mailbox {
                completion: None,
                ..old(self)@.mailboxes[slot]
            }) by {
                self.mailboxes.lemma_key(slot);
                let p = self.mailboxes.place(slot);
                assert(self.mailboxes.items()[p].1.completion is None);
            }
            assert(self@.mailboxes =~= old(self)@.emptied().mailboxes);
            assert(self@ =~= old(self)@.emptied());
        }
    }

    /// Drops everything that a device still hands out after it was shut down, and everything that
    /// was not collected.
    pub fn discard_after_device_shutdown<D: Device>(&mut self, device: &mut D) -> (r: Result<
        (),
        Error,
    >)
        requires
            old(self).wf(),
            old(device).wf(),
        ensures
            final(self).wf(),
            final(device).wf(),
            final(device).owed() <= old(device).owed(),
            drained(*old(device), r, *final(device)),
            match r {
                Ok(()) => final(self)@ == old(self)@.emptied(),
                Err(_) => final(self)@ == old(self)@,
            },
    {
        let ghost mut rounds: nat = 0;
        loop
            invariant_except_break
                handed_out(*old(device), rounds, *device),
            invariant
                self.wf(),
                *self == *old(self),
                device.wf(),
                device.owed() <= old(device).owed(),
            ensures
                drained(*old(device), Ok(()), *device),
            decreases device.owed(),
        {
            let ghost before = *device;
            let mut completions: Vec<IoCompletion> = Vec::new();
            let polled = device.poll(PollBudget::default(), &mut completions);
            assert(completions@.skip(0) =~= completions@);
            assert(before.polls(64, completions@, polled, *device));
            match polled {
                Ok(()) => {
                    assert(polled->Ok_0 == ());
                },
                Err(error) => {
                    return Err(error);
                },
            }
            if completions.len() == 0 {
                assert(handed_out(*old(device), rounds, before));
                assert(before.polls(64, completions@, Ok(()), *device));
                break ;
            }
            proof {
                rounds = rounds + 1;
                assert(handed_out(*old(device), (rounds - 1) as nat, before));
            }
        }
        self.discard_completions();
        Ok(())
    }

    /// Reserves an operation that has no mailbox yet.
    pub fn reserve_operation(&mut self, session: SessionId) -> (r: Result<OperationRoute, Error>)
        requires
            old(self).wf(),
        ensures
            final(self).wf(),
            match old(self)@.refusal(session) {
                Some(reason) => r == Err::<OperationRoute, Error>(reason) && final(self)@ == old(
                    self,
                )@,
                None => {
                    &&& r matches Ok(route)
                    &&& route.spec_id() == old(self)@.next_id(session)
                    &&& route.owner() == old(self)@.instance
                    &&& !route.is_registered()
                    &&& !route.is_released()
                    &&& route.known_to(final(self)@)
                    &&& final(self)@ == (HubModel {
                        operations: old(self)@.operations.insert(old(self)@.next),
                        ..old(self)@.counted()
                    })
                },
            },
    {
        let id = match self.count(session) {
            Ok(id) => id,
            Err(error) => {
                return Err(error);
            },
        };
        self.operations = Ghost(self.operations@.insert(id.slot));
        proof {
            assert(!old(self)@.operations.contains(id.slot));
            assert(self@.plain() =~= old(self)@.plain());
        }
        Ok(OperationRoute { id, owner: self.instance, registered: false, released: false })
    }

    /// Why a route cannot be used here.
    fn reject(&self, route: &OperationRoute) -> (r: Option<Error>)
        ensures
            r == route.rejection(self@),
    {
        if route.owner != self.instance {
            Some(Error::InvalidState("operation route belongs to another hub"))
        } else if route.released {
            Some(Error::InvalidState("operation route is already released"))
        } else {
            None
        }
    }

    /// Gives an operation its mailbox, unless it has one.
    pub fn activate_operation(&mut self, route: &mut OperationRoute) -> (r: Result<(), Error>)
        requires
            old(self).wf(),
            old(route).known_to(old(self)@),
        ensures
            final(self).wf(),
            final(route).known_to(final(self)@),
            final(route).spec_id() == old(route).spec_id(),
            final(route).owner() == old(route).owner(),
            final(route).is_released() == old(route).is_released(),
            match old(route).rejection(old(self)@) {
                Some(reason) => r == Err::<(), Error>(reason) && final(self)@ == old(self)@
                    && *final(route) == *old(route),
                None => {
                    &&& r == Ok::<(), Error>(())
                    &&& final(route).is_registered()
                    &&& final(self)@ == (if old(route).is_registered() {
                        old(self)@
                    } else {
                        HubModel {
                            operations: old(self)@.operations.remove(old(route).spec_id().slot),
                            ..old(self)@
                        }.with_mailbox(old(route).spec_id(), false)
                    })
                },
            },
    {
        if let Some(reason) = self.reject(route) {
            return Err(reason);
        }
        if route.registered {
            return Ok(());
        }
        let id = route.id;
        proof {
            let mid = HubModel { operations: self@.operations.remove(id.slot), ..self@ };
            mid.lemma_with_mailbox(id, false);
            assert(mid.plain() =~= self@.plain());
        }
        self.operations = Ghost(self.operations@.remove(id.slot));
        self.mailboxes.insert(
            id.slot,
            Mailbox { id, completion: None, completions: 0, session: false },
        );
        route.registered = true;
        assert(self@ =~= HubModel { operations: old(self)@.operations.remove(id.slot), ..old(self)@ }.with_mailbox(id, false));
        Ok(())
    }

    /// Takes over an operation that has no mailbox, with its identity and its place.
    pub fn retain_operation(&self, route: &mut OperationRoute) -> (r: Option<OperationRoute>)
        requires
            self.wf(),
            old(route).known_to(self@),
        ensures
            final(route).known_to(self@),
            match r {
                None => *final(route) == *old(route) && (old(route).rejection(self@) is Some || old(
                    route,
                ).is_registered()),
                Some(kept) => {
                    &&& old(route).rejection(self@) is None
                    &&& !old(route).is_registered()
                    &&& kept == *old(route)
                    &&& kept.known_to(self@)
                    &&& final(route).is_released()
                    &&& final(route).spec_id() == old(route).spec_id()
                    &&& final(route).owner() == old(route).owner()
                },
            },
    {
        if self.reject(route).is_some() || route.registered {
            return None;
        }
        let kept = OperationRoute {
            id: route.id,
            owner: route.owner,
            registered: false,
            released: false,
        };
        route.released = true;
        Some(kept)
    }

    /// Checks that an operation of `session` can be started again under the identity it holds.
    pub fn reuse_operation(&self, route: &mut OperationRoute, session: SessionId) -> (r: Result<
        (),
        Error,
    >)
        ensures
            *final(route) == *old(route),
            r == (match old(route).rejection(self@) {
                Some(reason) => Err::<(), Error>(reason),
                None => if old(route).is_registered() {
                    Err::<(), Error>(Error::InvalidState("operation route is already registered"))
                } else if old(route).spec_id().session != session {
                    Err::<(), Error>(
                        Error::InvalidState("operation route belongs to another session"),
                    )
                } else {
                    Ok::<(), Error>(())
                },
            }),
    {
        if let Some(reason) = self.reject(route) {
            return Err(reason);
        }
        if route.registered {
            return Err(Error::InvalidState("operation route is already registered"));
        }
        if !route.id.session.same(&session) {
            return Err(Error::InvalidState("operation route belongs to another session"));
        }
        Ok(())
    }

    /// Gives an operation back, with its mailbox if it has one.
    pub fn release_operation(&mut self, route: &mut OperationRoute) -> (r: Result<(), Error>)
        requires
            old(self).wf(),
            old(route).known_to(old(self)@),
        ensures
            final(self).wf(),
            final(route).known_to(final(self)@),
            final(route).spec_id() == old(route).spec_id(),
            final(route).owner() == old(route).owner(),
            match old(route).rejection(old(self)@) {
                Some(reason) => r == Err::<(), Error>(reason) && final(self)@ == old(self)@
                    && *final(route) == *old(route),
                None => if !old(route).is_registered() {
                    &&& r == Ok::<(), Error>(())
                    &&& final(route).is_released()
                    &&& final(self)@ == (HubModel {
                        operations: old(self)@.operations.remove(old(route).spec_id().slot),
                        occupied: (old(self)@.occupied - 1) as nat,
                        ..old(self)@
                    })
                } else if old(self)@.registered(old(route).spec_id()) {
                    &&& r == Ok::<(), Error>(())
                    &&& final(route).is_released()
                    &&& final(self)@ == old(self)@.released(old(route).spec_id())
                } else {
                    &&& r == Err::<(), Error>(
                        Error::InvalidState("request mailbox ownership does not match"),
                    )
                    &&& *final(route) == *old(route)
                    &&& final(self)@ == old(self)@
                },
            },
    {
        if let Some(reason) = self.reject(route) {
            return Err(reason);
        }
        if !route.registered {
            let slot = route.id.slot;
            proof {
                assert(self@.operations.contains(slot));
                assert(self@.operations.len() > 0) by {
                    if self@.operations.len() == 0 {
                        assert(self@.operations =~= Set::<u64>::empty());
                    }
                }
            }
            self.operations = Ghost(self.operations@.remove(slot));
            self.occupied = self.occupied - 1;
            route.released = true;
            assert(self@.plain() =~= old(self)@.plain());
            return Ok(());
        }
        match self.release(route.id) {
            Ok(()) => {
                route.released = true;
                Ok(())
            },
            Err(error) => Err(error),
        }
    }
}

/// A request is reserved exactly when its session is named, the hub has a place left and a number left;
/// the first of these that fails is the reason.
pub proof fn law_refused_for_a_reason(hub: HubModel, session: SessionId)
    ensures
        hub.refusal(session) is None <==> is_set(session.0) && hub.occupied < hub.capacity && hub.next
            < u64::MAX,
        !is_set(session.0) ==> hub.refusal(session) == Some(
            Error::InvalidFormat("an identity must not be zero"),
        ),
        is_set(session.0) && hub.occupied >= hub.capacity ==> hub.refusal(session) == Some(Error::Busy),
        is_set(session.0) && hub.occupied < hub.capacity && hub.next == u64::MAX ==> hub.refusal(session)
            == Some(Error::CapacityExceeded),
{
}

/// A reservation takes one place and one number, gives the request the number that was next, in the
/// name of the store and the session, and an empty mailbox; the other mailboxes stay as they are.
pub proof fn law_reservation_is_fresh(hub: HubModel, session: SessionId, paid: bool, slot: u64)
    requires
        hub.wf(),
        hub.refusal(session) is None,
    ensures
        ({
            let id = hub.next_id(session);
            let after = hub.counted().with_mailbox(id, paid);
            &&& id.slot == hub.next
            &&& id.store == hub.store
            &&& id.session == session
            &&& !hub.mailboxes.dom().contains(id.slot)
            &&& after.occupied == hub.occupied + 1
            &&& after.next == hub.next + 1
            &&& after.acquisitions >= hub.acquisitions
            &&& hub.acquisitions < u64::MAX ==> after.acquisitions == hub.acquisitions + 1
            &&& after.store == hub.store
            &&& after.instance == hub.instance
            &&& after.capacity == hub.capacity
            &&& after.operations == hub.operations
            &&& after.locals == hub.locals
            &&& after.quotas == hub.quotas
            &&& after.mailboxes.dom().contains(id.slot)
            &&& after.mailboxes[id.slot].id == id
            &&& after.mailboxes[id.slot].completion is None
            &&& after.mailboxes[id.slot].completions == 0
            &&& after.mailboxes[id.slot].session == paid
            &&& slot != id.slot ==> after.mailboxes.dom().contains(slot)
                == hub.mailboxes.dom().contains(slot)
            &&& slot != id.slot && hub.mailboxes.dom().contains(slot) ==> after.mailboxes[slot]
                == hub.mailboxes[slot]
        }),
{
}

/// A completion that arrives for an empty mailbox is what its request collects, and it is collected
/// once. A request gets nothing from a mailbox that is not there or is another's, and changes nothing.
pub proof fn law_collected_once(hub: HubModel, id: RequestId, c: IoCompletion)
    ensures
        ({
            let own = hub.mailboxes.dom().contains(id.slot) && hub.mailboxes[id.slot].id == id;
            let (r, after) = hub.taken(id);
            &&& hub.registered(id) <==> own
            &&& r is Ok <==> own
            &&& !own ==> after == hub
            &&& !hub.mailboxes.dom().contains(id.slot) ==> r == Err::<Option<IoCompletion>, Error>(
                Error::InvalidState("The request email does not exist"),
            )
            &&& hub.mailboxes.dom().contains(id.slot) && !own ==> r == Err::<
                Option<IoCompletion>,
                Error,
            >(Error::InvalidState("request mailbox ownership does not match"))
            &&& own ==> {
                &&& r == Ok::<Option<IoCompletion>, Error>(hub.mailboxes[id.slot].completion)
                &&& after.taken(id).0 == Ok::<Option<IoCompletion>, Error>(None)
                &&& after == (HubModel { mailboxes: after.mailboxes, ..hub })
                &&& after.mailboxes.dom() == hub.mailboxes.dom()
                &&& after.mailboxes[id.slot].completions == hub.mailboxes[id.slot].completions
                &&& after.mailboxes.remove(id.slot) == hub.mailboxes.remove(id.slot)
            }
            &&& own && c.route.0 == id.slot && hub.mailboxes[id.slot].completion is None ==> {
                &&& hub.complaint(c) is None
                &&& hub.delivered(c).taken(id).0 == Ok::<Option<IoCompletion>, Error>(Some(c))
            }
        }),
{
    let after = hub.taken(id).1;
    assert(hub.registered(id) ==> after.mailboxes.dom() =~= hub.mailboxes.dom());
    assert(after.mailboxes.remove(id.slot) =~= hub.mailboxes.remove(id.slot));
}

/// Every completion is counted in its mailbox, collected or not; one that finds the mailbox full and
/// one whose route was never given are complained of, and no other. A completion without a mailbox
/// changes nothing.
pub proof fn law_completions_are_counted(hub: HubModel, c: IoCompletion)
    ensures
        ({
            let slot = c.route.0;
            let there = hub.mailboxes.dom().contains(slot);
            let after = hub.delivered(c);
            &&& !there ==> after == hub
            &&& after == (HubModel { mailboxes: after.mailboxes, ..hub })
            &&& there && hub.mailboxes[slot].completions < u64::MAX ==> after.mailboxes[slot].completions
                == hub.mailboxes[slot].completions + 1
            &&& there ==> after.mailboxes[slot].completion is Some
            &&& there ==> after.mailboxes[slot].id == hub.mailboxes[slot].id
            &&& there ==> after.mailboxes[slot].session == hub.mailboxes[slot].session
            &&& hub.complaint(c) is Some <==> if there {
                hub.mailboxes[slot].completion is Some
            } else {
                slot >= hub.next
            }
            &&& there && hub.mailboxes[slot].completion is Some ==> hub.complaint(c) == Some(
                Error::InvalidState(
                    "There are multiple uncollected requests for one request I/O completed",
                ),
            )
            &&& !there && slot >= hub.next ==> hub.complaint(c) == Some(
                Error::InvalidState("Device returns unassigned completion route"),
            )
        }),
{
}

/// All that arrives is delivered, in the order in which it came, also past an error; and the error that
/// is told is the device's own, or else the first complaint. Nothing is told exactly when there was
/// neither.
pub proof fn law_all_are_delivered(
    hub: HubModel,
    arrived: Seq<IoCompletion>,
    last: IoCompletion,
    failed: Option<Error>,
)
    ensures
        hub.delivered_all(Seq::empty()) == hub,
        hub.delivered_all(arrived.push(last)) == hub.delivered_all(arrived).delivered(last),
        hub.first_error(Seq::empty(), failed) == failed,
        failed is Some ==> hub.first_error(arrived, failed) == failed,
        hub.first_error(arrived, failed) is Some ==> hub.first_error(arrived.push(last), failed)
            == hub.first_error(arrived, failed),
        hub.first_error(arrived, failed) is None ==> hub.first_error(arrived.push(last), failed)
            == hub.delivered_all(arrived).complaint(last),
    decreases arrived.len(),
{
    assert(arrived.push(last).drop_last() =~= arrived);
    if arrived.len() > 0 {
        law_all_are_delivered(hub, arrived.drop_last(), arrived.last(), failed);
        assert(arrived.drop_last().push(arrived.last()) =~= arrived);
    }
}

/// Giving back a mailbox takes it away and returns its place, unless a session's quota pays for it;
/// every other mailbox stays. One that is not there is not given back, and that is an error.
pub proof fn law_given_back(hub: HubModel, id: RequestId)
    requires
        hub.wf(),
    ensures
        ({
            let own = hub.mailboxes.dom().contains(id.slot) && hub.mailboxes[id.slot].id == id;
            let after = given_back(hub, Some(id));
            &&& give_back_error(hub, Some(id)) is None <==> own
            &&& !own ==> after == hub && give_back_error(hub, Some(id)) == Some(
                Error::InvalidState("request mailbox ownership does not match"),
            )
            &&& own ==> {
                &&& after.mailboxes == hub.mailboxes.remove(id.slot)
                &&& after.occupied + (if hub.mailboxes[id.slot].session {
                    0int
                } else {
                    1
                }) == hub.occupied
                &&& after == (HubModel {
                    mailboxes: after.mailboxes,
                    occupied: after.occupied,
                    ..hub
                })
            }
            &&& given_back(hub, None) == hub
            &&& give_back_error(hub, None) is None
        }),
{
    if hub.registered(id) {
        hub.lemma_released(id);
    }
}

/// After the device was shut down no mailbox holds a completion; everything else of the hub stays.
pub proof fn law_emptied(hub: HubModel, slot: u64)
    ensures
        hub.emptied() == (HubModel { mailboxes: hub.emptied().mailboxes, ..hub }),
        hub.emptied().mailboxes.dom() == hub.mailboxes.dom(),
        hub.mailboxes.dom().contains(slot) ==> hub.emptied().mailboxes[slot] == (Mailbox {
            completion: None,
            ..hub.mailboxes[slot]
        }),
{
    assert(hub.emptied().mailboxes.dom() =~= hub.mailboxes.dom());
}

/// A route is worked on exactly by the hub that gave it, until it is given back.
pub proof fn law_route_has_one_hub(route: OperationRoute, hub: HubModel)
    ensures
        route.rejection(hub) is None <==> route.owner() == hub.instance && !route.is_released(),
        route.owner() != hub.instance ==> route.rejection(hub) == Some(
            Error::InvalidState("operation route belongs to another hub"),
        ),
        route.owner() == hub.instance && route.is_released() ==> route.rejection(hub) == Some(
            Error::InvalidState("operation route is already released"),
        ),
{
}

/// What all quotas hold together is what each of them holds.
pub proof fn law_quotas_add_up(quotas: Seq<Quota>, quota: Quota)
    ensures
        quota_sum(Seq::empty()) == 0,
        quota_sum(quotas.push(quota)) == quota_sum(quotas) + quota.limit,
{
    assert(quotas.push(quota).drop_last() =~= quotas);
}

/// A poll that drains the device ends when it hands nothing more out, or with its error.
pub proof fn law_drained_at_once<D: Device>(device: D, r: Result<(), Error>, after: D)
    requires
        device.polls(64, Seq::empty(), r, after),
    ensures
        drained(device, r, after),
        handed_out(device, 0, device),
{
    assert(handed_out(device, 0, device));
}

} // verus!
