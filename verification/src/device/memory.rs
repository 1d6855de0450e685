//! A bounded device in memory. It makes progress only when it is polled, and keeps nothing beyond
//! its own life.
use crate::allocation::{reserve, Memory};
use crate::device::contents::{Contents, Limits};
use crate::device::disk::{gives_back, performed, Disk};
use crate::device::{
    Device, DeviceCapabilities, DeviceFactory, DeviceOpenOptions, IoCompletion, IoOperation,
    IoRequest, RejectedIo,
};
use crate::types::{Deadline, Error, IoErrorKind, IoId, PollBudget};
use vstd::prelude::*;

verus! {

#[derive(Clone, Debug, Default)]
pub struct MemoryDeviceFactory;

/// A fault for the next request that is accepted. A request that is rejected does not use it up.
#[derive(Clone, Copy, Debug, PartialEq, Eq, Structural)]
pub enum MemoryFault {
    /// The request fails without an effect.
    Fail(IoErrorKind),
    /// A transfer moves at most so many bytes.
    Short(usize),
}

/// A request that waits for its turn.
pub struct Queued {
    pub fault: Option<MemoryFault>,
    pub cancelled: bool,
    pub id: IoId,
    pub request: IoRequest,
}

impl Queued {
    /// The error with which the request ends before it does anything.
    pub open spec fn refusal(self) -> Option<IoErrorKind> {
        if self.cancelled {
            Some(IoErrorKind::Interrupted)
        } else {
            match self.fault {
                Some(MemoryFault::Fail(kind)) => Some(kind),
                _ => None,
            }
        }
    }

    /// How many bytes a transfer may move.
    pub open spec fn limit(self) -> usize {
        match self.fault {
            Some(MemoryFault::Short(limit)) => limit,
            _ => usize::MAX,
        }
    }
}

/// The queue of a device with the request `target` marked as cancelled.
pub open spec fn cancelled(pending: Seq<Queued>, target: IoId) -> Seq<Queued> {
    pending.map_values(
        |q: Queued|
            if q.id == target {
                Queued { cancelled: true, ..q }
            } else {
                q
            },
    )
}

/// All that a device in memory holds.
#[verifier::ext_equal]
pub struct Machine {
    pub disk: Contents,
    pub limits: Limits,
    pub closed: bool,
    pub fault: Option<MemoryFault>,
    pub reverse: bool,
    pub next_io: u64,
    /// What was accepted and not executed, in the order in which it was accepted.
    pub pending: Seq<Queued>,
    /// What was executed and not polled.
    pub ready: Seq<IoCompletion>,
}

impl Machine {
    /// The place in the queue of the request that is executed next.
    pub open spec fn next_place(self) -> int {
        if self.reverse {
            self.pending.len() - 1
        } else {
            0
        }
    }

    /// The device without the request that is executed next.
    pub open spec fn taken(self) -> Machine {
        Machine { pending: self.pending.remove(self.next_place()), ..self }
    }

    /// What the execution of `q` makes of the device, and its completion.
    pub open spec fn executes(
        self,
        memory: Memory,
        q: Queued,
        after: Machine,
        done: IoCompletion,
    ) -> bool {
        &&& done.id == q.id
        &&& done.route == q.request.route
        &&& match q.refusal() {
            Some(kind) => {
                &&& done.result == Err::<crate::device::IoOutcome, Error>(Error::Io(kind))
                &&& done.buffer == q.request.operation.owned()
                &&& after == self
            },
            None => {
                &&& performed(
                    memory,
                    self.limits,
                    self.disk,
                    q.request.operation,
                    q.limit(),
                    after.disk,
                    done.result,
                )
                &&& gives_back(self.disk, q.request.operation, q.limit(), done.buffer)
                &&& after == (Machine {
                    disk: after.disk,
                    pending: match q.request.operation {
                        IoOperation::Cancel(target) => cancelled(self.pending, target),
                        _ => self.pending,
                    },
                    ..self
                })
            },
        }
    }

    /// One completion leaves the device: the oldest that is ready, or else that of the request
    /// that is executed next.
    pub open spec fn advances(self, memory: Memory, after: Machine, done: IoCompletion) -> bool {
        if self.ready.len() > 0 {
            done == self.ready[0] && after == (Machine { ready: self.ready.drop_first(), ..self })
        } else {
            &&& self.pending.len() > 0
            &&& self.taken().executes(memory, self.pending[self.next_place()], after, done)
        }
    }

    /// The completions `done` leave the device one after the other.
    pub open spec fn runs(self, memory: Memory, done: Seq<IoCompletion>, after: Machine) -> bool
        decreases done.len(),
    {
        if done.len() == 0 {
            after == self
        } else {
            exists|mid: Machine|
                self.runs(memory, done.drop_last(), mid) && #[trigger] mid.advances(
                    memory,
                    after,
                    done.last(),
                )
        }
    }

    /// The request that is executed next becomes ready.
    pub open spec fn finishes(self, memory: Memory, after: Machine) -> bool {
        exists|mid: Machine, done: IoCompletion|
            {
                &&& #[trigger] self.taken().executes(
                    memory,
                    self.pending[self.next_place()],
                    mid,
                    done,
                )
                &&& after == Machine { ready: mid.ready.push(done), ..mid }
            }
    }

    /// So many requests become ready one after the other.
    pub open spec fn drains(self, count: nat, after: Machine) -> bool
        decreases count,
    {
        if count == 0 {
            after == self
        } else {
            exists|mid: Machine|
                self.drains((count - 1) as nat, mid) && mid.pending.len() > 0 && #[trigger] mid.finishes(
                    Memory::Allocator,
                    after,
                )
        }
    }

    proof fn lemma_runs(
        self,
        memory: Memory,
        done: Seq<IoCompletion>,
        mid: Machine,
        c: IoCompletion,
        after: Machine,
    )
        requires
            self.runs(memory, done, mid),
            mid.advances(memory, after, c),
        ensures
            self.runs(memory, done.push(c), after),
    {
        assert(done.push(c).drop_last() =~= done);
        assert(mid.advances(memory, after, done.push(c).last()));
    }

    proof fn lemma_drains(self, count: nat, mid: Machine, after: Machine)
        requires
            self.drains(count, mid),
            mid.pending.len() > 0,
            mid.finishes(Memory::Allocator, after),
        ensures
            self.drains(count + 1, after),
    {
        assert((count + 1 - 1) as nat == count);
    }

    /// Why a request is rejected before any room is asked for.
    pub open spec fn rejection(self) -> Option<Error> {
        if self.closed {
            Some(Error::InvalidState("Device is turned off"))
        } else if self.waiting() >= self.limits.capacity {
            Some(Error::Busy)
        } else if self.next_io == u64::MAX {
            Some(Error::CapacityExceeded)
        } else {
            None
        }
    }

    /// The device after it accepted `request`, which takes the fault that is set.
    pub open spec fn accepted(self, request: IoRequest) -> Machine {
        Machine {
            next_io: (self.next_io + 1) as u64,
            fault: None,
            pending: self.pending.push(
                Queued { fault: self.fault, cancelled: false, id: IoId(self.next_io), request },
            ),
            ..self
        }
    }

    /// How many completions the device still owes.
    pub open spec fn waiting(self) -> nat {
        self.pending.len() + self.ready.len()
    }
}

/// The numbers of the requests for which the device owes a completion.
pub open spec fn owed(m: Machine) -> vstd::multiset::Multiset<IoId> {
    m.pending.map_values(|q: Queued| q.id).to_multiset().add(
        m.ready.map_values(|c: IoCompletion| c.id).to_multiset(),
    )
}

proof fn lemma_owed_pending(m: Machine, place: int)
    requires
        0 <= place < m.pending.len(),
    ensures
        owed(m) == owed(Machine { pending: m.pending.remove(place), ..m }).insert(
            m.pending[place].id,
        ),
{
    broadcast use vstd::seq_lib::group_to_multiset_ensures;

    let id = |q: Queued| q.id;
    let all = m.pending.map_values(id);
    let rest = m.pending.remove(place).map_values(id);
    assert(rest =~= all.remove(place));
    assert(all.remove(place).insert(place, all[place]) =~= all);
    assert(all.to_multiset() =~= rest.to_multiset().insert(m.pending[place].id));
    assert(owed(m) =~= owed(Machine { pending: m.pending.remove(place), ..m }).insert(
        m.pending[place].id,
    ));
}

/// Every accepted request gets exactly one completion: acceptance adds its number to what is
/// owed, each completion that leaves takes its own number out, and nothing else changes it.
pub proof fn law_one_completion(
    memory: Memory,
    m: Machine,
    after: Machine,
    done: IoCompletion,
    request: IoRequest,
)
    requires
        m.advances(memory, after, done),
    ensures
        owed(m) == owed(after).insert(done.id),
        owed(m.accepted(request)) == owed(m).insert(IoId(m.next_io)),
{
    broadcast use vstd::seq_lib::group_to_multiset_ensures;

    if m.ready.len() > 0 {
        let ids = m.ready.map_values(|c: IoCompletion| c.id);
        assert(m.ready.drop_first().map_values(|c: IoCompletion| c.id) =~= ids.remove(0));
        assert(ids.remove(0).insert(0, ids[0]) =~= ids);
        assert(owed(m) =~= owed(after).insert(done.id));
    } else {
        lemma_owed_pending(m, m.next_place());
        if let IoOperation::Cancel(target) = m.pending[m.next_place()].request.operation {
            let rest = m.taken().pending;
            assert(cancelled(rest, target).map_values(|q: Queued| q.id) =~= rest.map_values(
                |q: Queued| q.id,
            ));
        }
        assert(owed(m) =~= owed(after).insert(done.id));
    }
    let more = m.accepted(request);
    assert(more.pending.map_values(|q: Queued| q.id) =~= m.pending.map_values(
        |q: Queued| q.id,
    ).push(IoId(m.next_io)));
    assert(owed(more) =~= owed(m).insert(IoId(m.next_io)));
}

/// A completion gives the buffer of its request back, also where the request failed: with its own
/// length and alignment.
pub proof fn law_buffer_returns(
    memory: Memory,
    m: Machine,
    q: Queued,
    after: Machine,
    done: IoCompletion,
)
    requires
        m.executes(memory, q, after, done),
    ensures
        match q.request.operation.owned() {
            Some(buffer) => done.buffer matches Some(returned) && returned@.len() == buffer@.len()
                && returned.aligned_to() == buffer.aligned_to(),
            None => done.buffer is None,
        },
{
}

/// A failed request leaves the files as they were.
pub proof fn law_failure_changes_nothing(
    memory: Memory,
    m: Machine,
    q: Queued,
    after: Machine,
    done: IoCompletion,
)
    requires
        m.executes(memory, q, after, done),
        done.result is Err,
    ensures
        after.disk == m.disk,
{
    if m.disk.perform(m.limits, q.request.operation, q.limit()).1 is Fails {
        m.disk.law_failure_changes_nothing(m.limits, q.request.operation, q.limit());
    }
}

pub struct MemoryDevice {
    disk: Disk,
    capacity: usize,
    closed: bool,
    fault: Option<MemoryFault>,
    reverse: bool,
    next_io: u64,
    pending: Vec<Queued>,
    ready: Vec<IoCompletion>,
}

impl MemoryDevice {
    pub closed spec fn view(self) -> Machine {
        Machine {
            disk: self.disk@,
            limits: self.disk.limits(),
            closed: self.closed,
            fault: self.fault,
            reverse: self.reverse,
            next_io: self.next_io,
            pending: self.pending@,
            ready: self.ready@,
        }
    }

    spec fn sound(self) -> bool {
        &&& self.disk.wf()
        &&& self.capacity == self.disk.limits().capacity
        &&& self@.waiting() <= self.capacity
        &&& forall|i: int|
            0 <= i < self.pending@.len() ==> (#[trigger] self.pending@[i]).request.wf()
                && self.pending@[i].id.0 < self.next_io
        &&& forall|i: int, j: int|
            0 <= i < j < self.pending@.len() ==> (#[trigger] self.pending@[i]).id.0 < (
            #[trigger] self.pending@[j]).id.0
    }

    /// What a valid device holds is consistent, and it owes no more than it may; the numbers of the
    /// requests that wait grow and were given out.
    pub proof fn lemma_consistent(self)
        requires
            self.wf(),
        ensures
            self@.disk.consistent(self@.limits),
            self@.waiting() <= self@.limits.capacity,
            forall|i: int|
                0 <= i < self@.pending.len() ==> (#[trigger] self@.pending[i]).request.wf()
                    && self@.pending[i].id.0 < self@.next_io,
            forall|i: int, j: int|
                0 <= i < j < self@.pending.len() ==> (#[trigger] self@.pending[i]).id.0 < (
                #[trigger] self@.pending[j]).id.0,
    {
        self.disk.lemma_consistent();
    }

    /// An empty device. Neither bound may be zero.
    pub fn new(capacity: usize, max_bytes: usize) -> (r: Result<MemoryDevice, Error>)
        ensures
            capacity == 0 || max_bytes == 0 ==> r == Err::<MemoryDevice, Error>(
                Error::InvalidConfig {
                    field: "memory_device",
                    reason: "Queue and byte capacity must be non-zero",
                },
            ),
            capacity > 0 && max_bytes > 0 ==> r is Ok,
            r matches Ok(device) ==> {
                &&& device.wf()
                &&& device@ == (Machine {
                    disk: Contents::empty(),
                    limits: Limits { capacity, max_bytes },
                    closed: false,
                    fault: None,
                    reverse: false,
                    next_io: 0,
                    pending: Seq::empty(),
                    ready: Seq::empty(),
                })
            },
    {
        if capacity == 0 || max_bytes == 0 {
            return Err(
                Error::InvalidConfig {
                    field: "memory_device",
                    reason: "Queue and byte capacity must be non-zero",
                },
            );
        }
        Ok(
            MemoryDevice {
                disk: Disk::new(capacity, max_bytes),
                capacity,
                closed: false,
                fault: None,
                reverse: false,
                next_io: 0,
                pending: Vec::new(),
                ready: Vec::new(),
            },
        )
    }

    /// Sets the fault of the next request, unless one is set already.
    pub fn inject_next(&mut self, fault: MemoryFault) -> (r: Result<(), Error>)
        requires
            old(self).wf(),
        ensures
            final(self).wf(),
            old(self)@.fault is Some ==> r == Err::<(), Error>(Error::Busy) && final(self)@ == old(
                self,
            )@,
            old(self)@.fault is None ==> r == Ok::<(), Error>(()) && final(self)@ == (Machine {
                fault: Some(fault),
                ..old(self)@
            }),
    {
        if self.fault.is_some() {
            return Err(Error::Busy);
        }
        self.fault = Some(fault);
        Ok(())
    }

    /// Whether the request that was accepted last is executed first.
    pub fn set_reverse(&mut self, reverse: bool) -> (r: Result<(), Error>)
        requires
            old(self).wf(),
        ensures
            r == Ok::<(), Error>(()),
            final(self).wf(),
            final(self)@ == (Machine { reverse, ..old(self)@ }),
    {
        self.reverse = reverse;
        Ok(())
    }

    /// Marks a waiting request as cancelled.
    fn cancel(&mut self, target: IoId)
        requires
            old(self).sound(),
        ensures
            final(self).sound(),
            final(self)@ == (Machine { pending: cancelled(old(self)@.pending, target), ..old(self)@ }),
    {
        let mut i: usize = 0;
        while i < self.pending.len()
            invariant
                self.sound(),
                *self == *old(self),
                i <= self.pending@.len(),
                forall|j: int| 0 <= j < i ==> (#[trigger] self.pending@[j]).id != target,
            decreases self.pending@.len() - i,
        {
            if self.pending[i].id == target {
                let queued = &mut self.pending[i];
                queued.cancelled = true;
                assert forall|j: int|
                    0 <= j < self.pending@.len() && j != i implies #[trigger] old(
                    self,
                ).pending@[j].id != target by {
                    if j < i {
                        assert(old(self).pending@[j].id.0 < old(self).pending@[i as int].id.0);
                    } else {
                        assert(old(self).pending@[i as int].id.0 < old(self).pending@[j].id.0);
                    }
                }
                assert(self.pending@ =~= cancelled(old(self).pending@, target));
                return;
            }
            i += 1;
        }
        assert(self.pending@ =~= cancelled(old(self).pending@, target));
    }

    fn execute(&mut self, queued: Queued, memory: Memory) -> (r: IoCompletion)
        requires
            old(self).sound(),
            queued.request.wf(),
        ensures
            final(self).sound(),
            old(self)@.executes(memory, queued, final(self)@, r),
    {
        let Queued { fault, cancelled, id, request } = queued;
        let IoRequest { route, operation } = request;
        let kind = if cancelled {
            Some(IoErrorKind::Interrupted)
        } else {
            match fault {
                Some(MemoryFault::Fail(kind)) => Some(kind),
                _ => None,
            }
        };
        if let Some(kind) = kind {
            return IoCompletion {
                id,
                route,
                result: Err(Error::Io(kind)),
                buffer: operation.into_buffer(),
            };
        }
        let limit = match fault {
            Some(MemoryFault::Short(limit)) => limit,
            _ => usize::MAX,
        };
        if let IoOperation::Cancel(target) = operation {
            self.cancel(target);
        }
        let (result, buffer) = self.disk.execute(operation, limit, memory);
        IoCompletion { id, route, result, buffer }
    }

    /// Lets one completion out.
    pub fn advance(&mut self, memory: Memory) -> (r: Option<IoCompletion>)
        requires
            old(self).wf(),
        ensures
            final(self).wf(),
            match r {
                Some(done) => old(self)@.advances(memory, final(self)@, done),
                None => old(self)@.waiting() == 0 && final(self)@ == old(self)@,
            },
            r is Some ==> final(self)@.waiting() + 1 == old(self)@.waiting(),
    {
        if self.ready.len() > 0 {
            let done = self.ready.remove(0);
            assert(self@.ready =~= old(self)@.ready.drop_first());
            return Some(done);
        }
        match self.take_next() {
            Some(queued) => Some(self.execute(queued, memory)),
            None => None,
        }
    }

    /// Takes the request that is executed next out of the queue.
    fn take_next(&mut self) -> (r: Option<Queued>)
        requires
            old(self).sound(),
        ensures
            final(self).sound(),
            match r {
                Some(queued) => {
                    &&& old(self)@.pending.len() > 0
                    &&& queued == old(self)@.pending[old(self)@.next_place()]
                    &&& queued.request.wf()
                    &&& final(self)@ == old(self)@.taken()
                },
                None => old(self)@.pending.len() == 0 && final(self)@ == old(self)@,
            },
    {
        if self.pending.len() == 0 {
            return None;
        }
        let place = if self.reverse {
            self.pending.len() - 1
        } else {
            0
        };
        let queued = self.pending.remove(place);
        assert forall|i: int, j: int| 0 <= i < j < self.pending@.len() implies (
        #[trigger] self.pending@[i]).id.0 < (#[trigger] self.pending@[j]).id.0 by {
            let a = if i < place { i } else { i + 1 };
            let b = if j < place { j } else { j + 1 };
            assert(self.pending@[i] == old(self).pending@[a]);
            assert(self.pending@[j] == old(self).pending@[b]);
        }
        assert forall|i: int| 0 <= i < self.pending@.len() implies (
        #[trigger] self.pending@[i]).request.wf() && self.pending@[i].id.0 < self.next_io by {
            let a = if i < place { i } else { i + 1 };
            assert(self.pending@[i] == old(self).pending@[a]);
        }
        assert(self@ =~= old(self)@.taken());
        Some(queued)
    }

    /// Makes the request that is executed next ready, unless the time is over or there is no room
    /// for its completion. Returns whether there was such a request.
    pub fn finish_one(&mut self, expired: bool, memory: Memory) -> (r: Result<bool, Error>)
        requires
            old(self).wf(),
        ensures
            final(self).wf(),
            old(self)@.pending.len() == 0 ==> r == Ok::<bool, Error>(false),
            old(self)@.pending.len() > 0 && expired ==> r == Err::<bool, Error>(
                Error::DeadlineExceeded,
            ),
            old(self)@.pending.len() > 0 && !expired ==> match memory {
                Memory::Granted => r == Ok::<bool, Error>(true),
                Memory::Refused => r == Err::<bool, Error>(Error::OutOfMemory),
                Memory::Allocator => r == Ok::<bool, Error>(true) || r == Err::<bool, Error>(
                    Error::OutOfMemory,
                ),
            },
            r == Ok::<bool, Error>(true) ==> old(self)@.finishes(memory, final(self)@)
                && final(self)@.pending.len() + 1 == old(self)@.pending.len(),
            final(self)@.waiting() == old(self)@.waiting(),
            r != Ok::<bool, Error>(true) ==> final(self)@ == old(self)@,
    {
        if self.pending.len() == 0 {
            return Ok(false);
        }
        if expired {
            return Err(Error::DeadlineExceeded);
        }
        if !reserve(&mut self.ready, 1, memory) {
            return Err(Error::OutOfMemory);
        }
        match self.take_next() {
            Some(queued) => {
                let done = self.execute(queued, memory);
                let ghost mid = self@;
                self.ready.push(done);
                assert(old(self)@.taken().executes(memory, queued, mid, done));
                assert(self@ =~= Machine { ready: mid.ready.push(done), ..mid });
                Ok(true)
            },
            None => Ok(false),
        }
    }

    /// Runs as many requests as the budget allows and appends their completions to `output`, where
    /// `memory` says whether there is room for the completions and for what the requests write.
    pub fn poll_from(
        &mut self,
        budget: PollBudget,
        output: &mut Vec<IoCompletion>,
        memory: Memory,
    ) -> (r: Result<(), Error>)
        requires
            old(self).wf(),
        ensures
            final(self).wf(),
            memory is Granted || old(self)@.waiting() == 0 ==> r is Ok,
            memory is Refused && old(self)@.waiting() > 0 ==> r is Err,
            r == Ok::<(), Error>(()) || r == Err::<(), Error>(Error::OutOfMemory),
            r is Err ==> final(self)@ == old(self)@ && final(output)@ == old(output)@,
            old(output)@.is_prefix_of(final(output)@),
            r is Ok ==> {
                let done = final(output)@.skip(old(output)@.len() as int);
                &&& done.len() == least_of(budget@, old(self)@.waiting())
                &&& old(self)@.runs(memory, done, final(self)@)
                &&& final(self)@.waiting() == old(self)@.waiting() - done.len()
            },
    {
        let waiting = self.pending.len() + self.ready.len();
        let count = if budget.get() < waiting {
            budget.get()
        } else {
            waiting
        };
        if !reserve(output, count, memory) {
            return Err(Error::OutOfMemory);
        }
        let mut i: usize = 0;
        let ghost mut done: Seq<IoCompletion> = Seq::empty();
        assert(output@ =~= old(output)@ + done);
        while i < count
            invariant
                self.wf(),
                i <= count <= waiting,
                waiting == old(self)@.waiting(),
                self@.waiting() == waiting - i,
                done.len() == i,
                output@ == old(output)@ + done,
                old(self)@.runs(memory, done, self@),
            decreases count - i,
        {
            let ghost mid = self@;
            match self.advance(memory) {
                Some(completion) => {
                    output.push(completion);
                    proof {
                        let more = done.push(completion);
                        old(self)@.lemma_runs(memory, done, mid, completion, self@);
                        assert(output@ =~= old(output)@ + more);
                        done = more;
                    }
                },
                None => {},
            }
            i += 1;
        }
        assert(output@.skip(old(output)@.len() as int) =~= done);
        Ok(())
    }

    /// Accepts a request, where `memory` says whether there is room for it.
    pub fn submit_from(&mut self, request: IoRequest, memory: Memory) -> (r: Result<
        IoId,
        RejectedIo,
    >)
        requires
            old(self).wf(),
            request.wf(),
        ensures
            final(self).wf(),
            match old(self)@.rejection() {
                Some(reason) => r == Err::<IoId, RejectedIo>(RejectedIo { request, reason }),
                None => {
                    &&& memory is Granted ==> r is Ok
                    &&& memory is Refused ==> r is Err
                    &&& r is Err ==> r == Err::<IoId, RejectedIo>(
                        RejectedIo { request, reason: Error::OutOfMemory },
                    )
                },
            },
            r is Err ==> final(self)@ == old(self)@,
            r matches Ok(id) ==> id.0 == old(self)@.next_io && final(self)@ == old(self)@.accepted(
                request,
            ),
    {
        if self.closed || self.pending.len() + self.ready.len() >= self.capacity {
            let reason = if self.closed {
                Error::InvalidState("Device is turned off")
            } else {
                Error::Busy
            };
            return Err(RejectedIo { request, reason });
        }
        let next = match self.next_io.checked_add(1) {
            Some(next) => next,
            None => {
                return Err(RejectedIo { request, reason: Error::CapacityExceeded });
            },
        };
        if !reserve(&mut self.pending, 1, memory) {
            return Err(RejectedIo { request, reason: Error::OutOfMemory });
        }
        let id = IoId(self.next_io);
        self.next_io = next;
        let fault = self.fault.take();
        self.pending.push(Queued { fault, cancelled: false, id, request });
        assert(self@ =~= old(self)@.accepted(request));
        Ok(id)
    }
}

impl Device for MemoryDevice {
    closed spec fn wf(&self) -> bool {
        self.sound()
    }

    open spec fn owed(&self) -> nat {
        self@.waiting()
    }

    /// As many requests as the budget allows are run, unless there is no memory for their
    /// completions.
    open spec fn polls(
        self,
        budget: nat,
        arrived: Seq<IoCompletion>,
        r: Result<(), Error>,
        after: MemoryDevice,
    ) -> bool {
        match r {
            Ok(()) => {
                &&& arrived.len() == least_of(budget, self@.waiting())
                &&& self@.runs(Memory::Allocator, arrived, after@)
            },
            Err(error) => {
                &&& self@.waiting() > 0
                &&& error == Error::OutOfMemory
                &&& arrived.len() == 0
                &&& after@ == self@
            },
        }
    }

    fn capabilities(&self) -> (r: DeviceCapabilities)
        ensures
            r == (DeviceCapabilities {
                supports_files: true,
                memory_alignment: 1,
                transfer_alignment: 1,
                supports_file_sync: false,
                supports_directory_sync: false,
                supports_atomic_publish: false,
                supports_directory_listing: true,
                supports_file_locks: false,
            }),
    {
        DeviceCapabilities {
            supports_files: true,
            memory_alignment: 1,
            transfer_alignment: 1,
            supports_file_sync: false,
            supports_directory_sync: false,
            supports_atomic_publish: false,
            supports_directory_listing: true,
            supports_file_locks: false,
        }
    }

    fn submit(&mut self, request: IoRequest) -> (r: Result<IoId, RejectedIo>)
        ensures
            match old(self)@.rejection() {
                Some(reason) => r == Err::<IoId, RejectedIo>(RejectedIo { request, reason }),
                None => r is Ok || r == Err::<IoId, RejectedIo>(
                    RejectedIo { request, reason: Error::OutOfMemory },
                ),
            },
            r is Err ==> final(self)@ == old(self)@,
            r matches Ok(id) ==> id.0 == old(self)@.next_io && final(self)@ == old(self)@.accepted(
                request,
            ),
    {
        self.submit_from(request, Memory::Allocator)
    }

    fn poll(&mut self, budget: PollBudget, output: &mut Vec<IoCompletion>) -> (r: Result<(), Error>)
        ensures
            old(self)@.waiting() == 0 ==> r is Ok,
            r == Ok::<(), Error>(()) || r == Err::<(), Error>(Error::OutOfMemory),
            r is Err ==> final(self)@ == old(self)@ && final(output)@ == old(output)@,
            r is Ok ==> {
                let done = final(output)@.skip(old(output)@.len() as int);
                &&& done.len() == least_of(budget@, old(self)@.waiting())
                &&& old(self)@.runs(Memory::Allocator, done, final(self)@)
            },
    {
        self.poll_from(budget, output, Memory::Allocator)
    }

    fn shutdown(&mut self, deadline: Deadline) -> (r: Result<(), Error>)
        ensures
            match r {
                Ok(()) => final(self)@.pending.len() == 0,
                Err(error) => final(self)@.pending.len() > 0 && (error == Error::DeadlineExceeded
                    || error == Error::OutOfMemory),
            },
            final(self)@.pending.len() <= old(self)@.pending.len(),
            (Machine { closed: true, ..old(self)@ }).drains(
                (old(self)@.pending.len() - final(self)@.pending.len()) as nat,
                final(self)@,
            ),
    {
        self.closed = true;
        let ghost start = self@;
        assert(start =~= (Machine { closed: true, ..old(self)@ }));
        loop
            invariant
                self.wf(),
                start == (Machine { closed: true, ..old(self)@ }),
                self@.pending.len() <= start.pending.len(),
                self@.waiting() == start.waiting(),
                start.drains((start.pending.len() - self@.pending.len()) as nat, self@),
            ensures
                self@.pending.len() == 0,
            decreases self@.pending.len(),
        {
            if self.pending.len() == 0 {
                break ;
            }
            let ghost before = self@;
            let expired = deadline.expired();
            match self.finish_one(expired, Memory::Allocator) {
                Ok(true) => {
                    proof {
                        start.lemma_drains(
                            (start.pending.len() - before.pending.len()) as nat,
                            before,
                            self@,
                        );
                    }
                },
                Ok(false) => {},
                Err(error) => {
                    return Err(error);
                },
            }
        }
        Ok(())
    }
}

pub open spec fn least_of(a: nat, b: nat) -> nat {
    if a < b {
        a
    } else {
        b
    }
}

impl DeviceFactory for MemoryDeviceFactory {
    type Opened = MemoryDevice;

    /// Opens a device for 1024 requests, objects, handles and directories, and for 64 MiB.
    fn open(&self, options: DeviceOpenOptions) -> (r: Result<MemoryDevice, Error>)
        ensures
            r matches Ok(device) && device@ == (Machine {
                disk: Contents::empty(),
                limits: Limits { capacity: 1024, max_bytes: 67108864 },
                closed: false,
                fault: None,
                reverse: false,
                next_io: 0,
                pending: Seq::empty(),
                ready: Seq::empty(),
            }),
    {
        MemoryDevice::new(1024, 64 * 1024 * 1024)
    }
}

/// What is ready leaves first, oldest first, and untouched. Otherwise the oldest request that waits is
/// executed, or the newest on a device that works backwards; the others keep their order.
pub proof fn law_order_of_completions(memory: Memory, m: Machine, after: Machine, done: IoCompletion)
    requires
        m.advances(memory, after, done),
    ensures
        m.ready.len() > 0 ==> {
            &&& done == m.ready[0]
            &&& after.ready == m.ready.skip(1)
            &&& after.pending == m.pending
            &&& after.disk == m.disk
        },
        m.ready.len() == 0 ==> {
            let next = if m.reverse {
                m.pending.len() - 1
            } else {
                0
            };
            &&& m.pending.len() > 0
            &&& done.id == m.pending[next].id
            &&& done.route == m.pending[next].request.route
            &&& after.ready == m.ready
            &&& after.pending.len() + 1 == m.pending.len()
            &&& forall|i: int|
                0 <= i < after.pending.len() ==> (#[trigger] after.pending[i]).id == m.pending[if i
                    < next {
                    i
                } else {
                    i + 1
                }].id
        },
        after.limits == m.limits,
        after.closed == m.closed,
        after.fault == m.fault,
        after.next_io == m.next_io,
{
    if m.ready.len() > 0 {
        assert(after.ready =~= m.ready.skip(1));
    }
}

/// A request that was cancelled ends as interrupted, and one with a fault ends with it, each without
/// touching the disk; a cancelled one does not get as far as its fault. A fault that shortens lets a
/// transfer move that many bytes, and without one it moves all.
pub proof fn law_faults(
    memory: Memory,
    m: Machine,
    q: Queued,
    after: Machine,
    done: IoCompletion,
)
    requires
        m.executes(memory, q, after, done),
    ensures
        q.cancelled ==> done.result == Err::<crate::device::IoOutcome, Error>(
            Error::Io(IoErrorKind::Interrupted),
        ) && after == m,
        !q.cancelled && q.fault is Some && q.fault->0 is Fail ==> done.result == Err::<
            crate::device::IoOutcome,
            Error,
        >(Error::Io(q.fault->0->Fail_0)) && after == m,
        q.fault matches Some(MemoryFault::Short(limit)) ==> q.limit() == limit,
        !(q.fault matches Some(MemoryFault::Short(_))) ==> q.limit() == usize::MAX,
        q.refusal() is None <==> !q.cancelled && !(q.fault matches Some(MemoryFault::Fail(_))),
{
}

/// A cancellation marks the request that it names and no other; nothing of any request is lost.
pub proof fn law_cancellation_marks_its_target(pending: Seq<Queued>, target: IoId, i: int)
    requires
        0 <= i < pending.len(),
    ensures
        cancelled(pending, target).len() == pending.len(),
        pending[i].id == target ==> cancelled(pending, target)[i].cancelled,
        pending[i].id != target ==> cancelled(pending, target)[i] == pending[i],
        cancelled(pending, target)[i].id == pending[i].id,
        cancelled(pending, target)[i].request == pending[i].request,
        cancelled(pending, target)[i].fault == pending[i].fault,
{
}

/// A request is rejected exactly by a device that is closed, owes as much as it may, or has given all
/// its numbers.
pub proof fn law_rejected_for_a_reason(m: Machine)
    ensures
        m.rejection() is None <==> !m.closed && m.pending.len() + m.ready.len() < m.limits.capacity
            && m.next_io < u64::MAX,
        m.closed ==> m.rejection() == Some(Error::InvalidState("Device is turned off")),
        !m.closed && m.pending.len() + m.ready.len() >= m.limits.capacity ==> m.rejection() == Some(
            Error::Busy,
        ),
        !m.closed && m.pending.len() + m.ready.len() < m.limits.capacity && m.next_io == u64::MAX
            ==> m.rejection() == Some(Error::CapacityExceeded),
{
}

/// A request that is accepted waits behind all others, under the next number; it takes the fault that
/// is set, so that the next one has none.
pub proof fn law_accepted_waits_last(m: Machine, request: IoRequest)
    requires
        m.rejection() is None,
    ensures
        ({
            let after = m.accepted(request);
            &&& after.pending.drop_last() == m.pending
            &&& after.pending.last().id.0 == m.next_io
            &&& after.pending.last().request == request
            &&& after.pending.last().fault == m.fault
            &&& !after.pending.last().cancelled
            &&& after.fault is None
            &&& after.next_io == m.next_io + 1
            &&& after.disk == m.disk
            &&& after.ready == m.ready
            &&& after.closed == m.closed
            &&& after.reverse == m.reverse
        }),
{
    assert(m.accepted(request).pending.drop_last() =~= m.pending);
}

/// What leaves a device one after the other is what it owed: each completion takes its own number, and
/// as long as something is ready, that leaves first and in its order.
pub proof fn law_runs_through_what_is_owed(
    memory: Memory,
    m: Machine,
    done: Seq<IoCompletion>,
    after: Machine,
)
    requires
        m.runs(memory, done, after),
    ensures
        owed(m) == owed(after).add(done.map_values(|c: IoCompletion| c.id).to_multiset()),
        done.len() <= m.ready.len() ==> done == m.ready.take(done.len() as int) && after.ready
            == m.ready.skip(done.len() as int) && after.pending == m.pending,
    decreases done.len(),
{
    broadcast use vstd::seq_lib::group_to_multiset_ensures;

    let id = |c: IoCompletion| c.id;
    if done.len() == 0 {
        assert(done.map_values(id) =~= Seq::<IoId>::empty());
        assert(owed(m) =~= owed(after).add(done.map_values(id).to_multiset()));
        assert(done =~= m.ready.take(0));
        assert(after.ready =~= m.ready.skip(0));
    } else {
        let front = done.drop_last();
        let mid = choose|mid: Machine|
            m.runs(memory, front, mid) && #[trigger] mid.advances(memory, after, done.last());
        law_runs_through_what_is_owed(memory, m, front, mid);
        law_one_completion(
            memory,
            mid,
            after,
            done.last(),
            IoRequest { operation: IoOperation::Cancel(IoId(0)), route: done.last().route },
        );
        assert(done.map_values(id) =~= front.map_values(id).push(done.last().id));
        assert(owed(m) =~= owed(after).add(done.map_values(id).to_multiset()));
        if done.len() <= m.ready.len() {
            assert(mid.ready.len() > 0);
            assert(done =~= m.ready.take(done.len() as int));
            assert(after.ready =~= m.ready.skip(done.len() as int));
        }
    }
}

/// A request that becomes ready is the one that is executed next, and its completion waits behind what
/// was ready before; the device owes what it owed.
pub proof fn law_finished_waits_to_be_polled(memory: Memory, m: Machine, after: Machine)
    requires
        m.pending.len() > 0,
        m.finishes(memory, after),
    ensures
        after.ready.drop_last() == m.ready,
        after.ready.last().id == m.pending[if m.reverse {
            m.pending.len() - 1
        } else {
            0
        }].id,
        after.pending.len() + 1 == m.pending.len(),
        after.closed == m.closed,
{
    let (mid, done) = choose|mid: Machine, done: IoCompletion|
        {
            &&& #[trigger] m.taken().executes(memory, m.pending[m.next_place()], mid, done)
            &&& after == Machine { ready: mid.ready.push(done), ..mid }
        };
    assert(after.ready.drop_last() =~= m.ready);
}

/// Draining a device moves so many of its requests to what is ready, and takes nothing away that was.
pub proof fn law_drained_is_ready(m: Machine, count: nat, after: Machine)
    requires
        m.drains(count, after),
    ensures
        after.pending.len() + count == m.pending.len(),
        after.ready.len() == m.ready.len() + count,
        after.ready.take(m.ready.len() as int) == m.ready,
        after.closed == m.closed,
    decreases count,
{
    if count > 0 {
        let mid = choose|mid: Machine|
            m.drains((count - 1) as nat, mid) && mid.pending.len() > 0 && #[trigger] mid.finishes(
                Memory::Allocator,
                after,
            );
        law_drained_is_ready(m, (count - 1) as nat, mid);
        law_finished_waits_to_be_polled(Memory::Allocator, mid, after);
        assert(after.ready.take(m.ready.len() as int) =~= mid.ready.take(m.ready.len() as int));
    } else {
        assert(after.ready.take(m.ready.len() as int) =~= m.ready);
    }
}

} // verus!
