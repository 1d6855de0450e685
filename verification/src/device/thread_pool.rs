//! The queue of a file device with worker threads: which request runs next, what is accepted, and
//! when the workers end. The threads hand in what the files answered.
use crate::allocation::{reserve, Memory};
use crate::device::{
    DeviceCapabilities, IoCompletion, IoOperation, IoOutcome, IoRequest, RejectedIo,
};
use crate::types::{Error, IoErrorKind, IoId, PollBudget};
use vstd::prelude::*;

verus! {

#[derive(Clone, Copy, Debug, PartialEq, Eq, Structural)]
pub struct ThreadPoolDeviceFactory {
    /// How many threads execute file requests. Not zero.
    pub workers: usize,
    /// How many requests may be accepted and not yet polled, and how many handles may be open.
    /// Not zero.
    pub queue_capacity: usize,
}

/// A request that was accepted.
pub struct Queued {
    pub id: IoId,
    pub request: IoRequest,
    pub cancelled: bool,
}

/// The queue with the request `target` marked as cancelled.
pub open spec fn cancelled(pending: Seq<Queued>, target: IoId) -> Seq<Queued> {
    pending.map_values(
        |q: Queued|
            if q.id == target {
                Queued { cancelled: true, ..q }
            } else {
                q
            },
    )
}

/// What a worker does next.
pub enum Job {
    /// Nothing to do yet.
    Wait,
    /// Nothing to do ever again.
    Exit,
    Run(Queued),
}

/// What becomes of a request that a worker took.
pub enum Step {
    /// It is complete without the files.
    Complete(IoCompletion),
    /// The files have to be asked.
    Files { id: IoId, request: IoRequest },
}

/// All that the queue holds.
#[verifier::ext_equal]
pub struct QueueModel {
    pub capacity: nat,
    /// What was accepted and not taken by a worker, in the order in which it was accepted.
    pub pending: Seq<Queued>,
    /// What is complete and not polled, in the order in which it completed.
    pub ready: Seq<IoCompletion>,
    /// How many requests the workers have taken and not completed.
    pub inflight: nat,
    /// How many workers have been started and have not ended.
    pub alive: nat,
    pub closed: bool,
    pub next: u64,
}

impl QueueModel {
    /// How many accepted requests have not been polled.
    pub open spec fn owed(self) -> nat {
        self.pending.len() + self.ready.len() + self.inflight
    }

    pub open spec fn rejection(self) -> Option<Error> {
        if self.closed {
            Some(Error::InvalidState("Device is turned off"))
        } else if self.owed() >= self.capacity {
            Some(Error::Busy)
        } else if self.next == u64::MAX {
            Some(Error::CapacityExceeded)
        } else {
            None
        }
    }

    /// The queue after it accepted `request`. A cancellation marks its target at once.
    pub open spec fn accepted(self, request: IoRequest) -> QueueModel {
        let marked = match request.operation {
            IoOperation::Cancel(target) => cancelled(self.pending, target),
            _ => self.pending,
        };
        QueueModel {
            pending: marked.push(Queued { id: IoId(self.next), request, cancelled: false }),
            next: (self.next + 1) as u64,
            ..self
        }
    }
}

pub struct WorkQueue {
    capacity: usize,
    pending: Vec<Queued>,
    ready: Vec<IoCompletion>,
    inflight: usize,
    alive: usize,
    closed: bool,
    next: u64,
}

impl WorkQueue {
    pub closed spec fn view(self) -> QueueModel {
        QueueModel {
            capacity: self.capacity as nat,
            pending: self.pending@,
            ready: self.ready@,
            inflight: self.inflight as nat,
            alive: self.alive as nat,
            closed: self.closed,
            next: self.next,
        }
    }

    /// No more is owed than the capacity, and the queue is in the order of its numbers.
    pub open spec fn wf(self) -> bool {
        &&& self@.owed() <= self@.capacity <= usize::MAX
        &&& forall|i: int|
            0 <= i < self@.pending.len() ==> (#[trigger] self@.pending[i]).id.0 < self@.next
        &&& forall|i: int, j: int|
            0 <= i < j < self@.pending.len() ==> (#[trigger] self@.pending[i]).id.0 < (
            #[trigger] self@.pending[j]).id.0
    }

    /// The queue of a device that starts. Neither number may be zero, and there has to be room for
    /// all requests.
    pub fn new(factory: &ThreadPoolDeviceFactory, memory: Memory) -> (r: Result<WorkQueue, Error>)
        ensures
            factory.workers == 0 || factory.queue_capacity == 0 ==> r == Err::<WorkQueue, Error>(
                Error::InvalidConfig {
                    field: "thread_pool",
                    reason: "Thread count and capacity must be non-zero",
                },
            ),
            factory.workers > 0 && factory.queue_capacity > 0 ==> {
                &&& memory is Granted ==> r is Ok
                &&& memory is Refused ==> r is Err
                &&& r is Err ==> r == Err::<WorkQueue, Error>(Error::OutOfMemory)
            },
            r matches Ok(queue) ==> queue.wf() && queue@ == (QueueModel {
                capacity: factory.queue_capacity as nat,
                pending: Seq::empty(),
                ready: Seq::empty(),
                inflight: 0,
                alive: 0,
                closed: false,
                next: 0,
            }),
    {
        if factory.workers == 0 || factory.queue_capacity == 0 {
            return Err(
                Error::InvalidConfig {
                    field: "thread_pool",
                    reason: "Thread count and capacity must be non-zero",
                },
            );
        }
        let mut pending: Vec<Queued> = Vec::new();
        let mut ready: Vec<IoCompletion> = Vec::new();
        if !reserve(&mut pending, factory.queue_capacity, memory) {
            return Err(Error::OutOfMemory);
        }
        if !reserve(&mut ready, factory.queue_capacity, memory) {
            return Err(Error::OutOfMemory);
        }
        Ok(
            WorkQueue {
                capacity: factory.queue_capacity,
                pending,
                ready,
                inflight: 0,
                alive: 0,
                closed: false,
                next: 0,
            },
        )
    }

    /// A worker is about to be started.
    pub fn worker_starts(&mut self)
        requires
            old(self).wf(),
            old(self)@.alive < usize::MAX,
        ensures
            final(self).wf(),
            final(self)@ == (QueueModel { alive: old(self)@.alive + 1, ..old(self)@ }),
    {
        self.alive = self.alive + 1;
    }

    /// A worker could not be started: those that were end, and nothing is accepted.
    pub fn worker_failed(&mut self)
        requires
            old(self).wf(),
            old(self)@.alive > 0,
        ensures
            final(self).wf(),
            final(self)@ == (QueueModel {
                alive: (old(self)@.alive - 1) as nat,
                closed: true,
                ..old(self)@
            }),
    {
        self.alive = self.alive - 1;
        self.closed = true;
    }

    pub fn alive(&self) -> (r: usize)
        ensures
            r == self@.alive,
    {
        self.alive
    }

    pub fn inflight(&self) -> (r: usize)
        ensures
            r == self@.inflight,
    {
        self.inflight
    }

    /// What a worker does next. The oldest request runs first, and a worker ends only when the
    /// queue is closed and empty.
    pub fn next_job(&mut self) -> (r: Job)
        requires
            old(self).wf(),
            old(self)@.alive > 0,
        ensures
            final(self).wf(),
            match r {
                Job::Wait => old(self)@.pending.len() == 0 && !old(self)@.closed && final(self)@
                    == old(self)@,
                Job::Exit => old(self)@.pending.len() == 0 && old(self)@.closed && final(self)@ == (
                QueueModel { alive: (old(self)@.alive - 1) as nat, ..old(self)@ }),
                Job::Run(queued) => {
                    &&& old(self)@.pending.len() > 0
                    &&& queued == old(self)@.pending[0]
                    &&& final(self)@ == (QueueModel {
                        pending: old(self)@.pending.drop_first(),
                        inflight: old(self)@.inflight + 1,
                        ..old(self)@
                    })
                },
            },
    {
        if self.pending.len() == 0 {
            if !self.closed {
                return Job::Wait;
            }
            self.alive = self.alive - 1;
            return Job::Exit;
        }
        let queued = self.pending.remove(0);
        self.inflight = self.inflight + 1;
        assert(self@.pending =~= old(self)@.pending.drop_first());
        assert forall|i: int, j: int| 0 <= i < j < self@.pending.len() implies (
        #[trigger] self@.pending[i]).id.0 < (#[trigger] self@.pending[j]).id.0 by {
            assert(self@.pending[i] == old(self)@.pending[i + 1]);
            assert(self@.pending[j] == old(self)@.pending[j + 1]);
        }
        Job::Run(queued)
    }

    fn mark_cancelled(&mut self, target: IoId)
        requires
            old(self).wf(),
        ensures
            final(self).wf(),
            final(self)@ == (QueueModel {
                pending: cancelled(old(self)@.pending, target),
                ..old(self)@
            }),
    {
        let mut i: usize = 0;
        while i < self.pending.len()
            invariant
                self.wf(),
                *self == *old(self),
                i <= self.pending@.len(),
                forall|j: int| 0 <= j < i ==> (#[trigger] self.pending@[j]).id != target,
            decreases self.pending@.len() - i,
        {
            if self.pending[i].id == target {
                assert(self@.pending[i as int].id == target);
                let queued = &mut self.pending[i];
                queued.cancelled = true;
                assert forall|j: int|
                    0 <= j < self.pending@.len() && j != i implies #[trigger] old(
                    self,
                ).pending@[j].id != target by {
                    assert(old(self)@.pending[j] == old(self).pending@[j]);
                    if j < i {
                        assert(old(self)@.pending[j].id.0 < old(self)@.pending[i as int].id.0);
                    } else {
                        assert(old(self)@.pending[i as int].id.0 < old(self)@.pending[j].id.0);
                    }
                }
                assert(self@.pending =~= cancelled(old(self)@.pending, target));
                return;
            }
            i += 1;
        }
        assert(self@.pending =~= cancelled(old(self)@.pending, target));
    }

    /// What becomes of a request that a worker took: a cancelled request fails, a cancellation
    /// marks its target, and everything else is for the files.
    pub fn decide(&mut self, queued: Queued) -> (r: Step)
        requires
            old(self).wf(),
        ensures
            final(self).wf(),
            if queued.cancelled {
                &&& final(self)@ == old(self)@
                &&& r == Step::Complete(
                    IoCompletion {
                        id: queued.id,
                        route: queued.request.route,
                        result: Err(Error::Io(IoErrorKind::Interrupted)),
                        buffer: queued.request.operation.owned(),
                    },
                )
            } else if let IoOperation::Cancel(target) = queued.request.operation {
                &&& final(self)@ == (QueueModel {
                    pending: cancelled(old(self)@.pending, target),
                    ..old(self)@
                })
                &&& r == Step::Complete(
                    IoCompletion {
                        id: queued.id,
                        route: queued.request.route,
                        result: Ok(IoOutcome::Done),
                        buffer: None,
                    },
                )
            } else {
                &&& final(self)@ == old(self)@
                &&& r == (Step::Files { id: queued.id, request: queued.request })
            },
    {
        let Queued { id, request, cancelled } = queued;
        if cancelled {
            let IoRequest { route, operation } = request;
            return Step::Complete(
                IoCompletion {
                    id,
                    route,
                    result: Err(Error::Io(IoErrorKind::Interrupted)),
                    buffer: operation.into_buffer(),
                },
            );
        }
        let target = match &request.operation {
            IoOperation::Cancel(target) => Some(*target),
            _ => None,
        };
        match target {
            Some(target) => {
                self.mark_cancelled(target);
                Step::Complete(
                    IoCompletion {
                        id,
                        route: request.route,
                        result: Ok(IoOutcome::Done),
                        buffer: None,
                    },
                )
            },
            None => Step::Files { id, request },
        }
    }

    /// A worker hands in the completion of a request that it took.
    pub fn complete(&mut self, completion: IoCompletion)
        requires
            old(self).wf(),
            old(self)@.inflight > 0,
        ensures
            final(self).wf(),
            final(self)@ == (QueueModel {
                inflight: (old(self)@.inflight - 1) as nat,
                ready: old(self)@.ready.push(completion),
                ..old(self)@
            }),
    {
        self.inflight = self.inflight - 1;
        self.ready.push(completion);
    }

    pub fn capabilities(&self) -> (r: DeviceCapabilities)
        ensures
            r == (DeviceCapabilities {
                supports_files: true,
                memory_alignment: 1,
                transfer_alignment: 1,
                supports_file_sync: true,
                supports_directory_sync: true,
                supports_atomic_publish: true,
                supports_directory_listing: true,
                supports_file_locks: true,
            }),
    {
        DeviceCapabilities {
            supports_files: true,
            memory_alignment: 1,
            transfer_alignment: 1,
            supports_file_sync: true,
            supports_directory_sync: true,
            supports_atomic_publish: true,
            supports_directory_listing: true,
            supports_file_locks: true,
        }
    }

    pub fn submit(&mut self, request: IoRequest) -> (r: Result<IoId, RejectedIo>)
        requires
            old(self).wf(),
        ensures
            final(self).wf(),
            match old(self)@.rejection() {
                Some(reason) => r == Err::<IoId, RejectedIo>(RejectedIo { request, reason })
                    && final(self)@ == old(self)@,
                None => r == Ok::<IoId, RejectedIo>(IoId(old(self)@.next)) && final(self)@ == old(
                    self,
                )@.accepted(request),
            },
    {
        if self.closed || self.pending.len() + self.ready.len() + self.inflight >= self.capacity {
            let reason = if self.closed {
                Error::InvalidState("Device is turned off")
            } else {
                Error::Busy
            };
            return Err(RejectedIo { request, reason });
        }
        let next = match self.next.checked_add(1) {
            Some(next) => next,
            None => {
                return Err(RejectedIo { request, reason: Error::CapacityExceeded });
            },
        };
        let target = match &request.operation {
            IoOperation::Cancel(target) => Some(*target),
            _ => None,
        };
        if let Some(target) = target {
            self.mark_cancelled(target);
        }
        let id = IoId(self.next);
        self.next = next;
        let ghost mid = self@;
        self.pending.push(Queued { id, request, cancelled: false });
        assert forall|i: int, j: int| 0 <= i < j < self@.pending.len() implies (
        #[trigger] self@.pending[i]).id.0 < (#[trigger] self@.pending[j]).id.0 by {
            assert(self@.pending[i] == mid.pending[i]);
            if j < mid.pending.len() {
                assert(self@.pending[j] == mid.pending[j]);
            }
        }
        assert(self@ =~= old(self)@.accepted(request));
        Ok(id)
    }

    /// Appends the oldest completions to `output`, as many as the budget allows.
    pub fn poll(&mut self, budget: PollBudget, output: &mut Vec<IoCompletion>, memory: Memory) -> (r:
        Result<(), Error>)
        requires
            old(self).wf(),
        ensures
            final(self).wf(),
            memory is Granted || old(self)@.ready.len() == 0 ==> r is Ok,
            memory is Refused && old(self)@.ready.len() > 0 ==> r is Err,
            r matches Err(error) ==> error == Error::OutOfMemory && final(self)@ == old(self)@
                && final(output)@ == old(output)@,
            r is Ok ==> {
                let n = if budget@ < old(self)@.ready.len() {
                    budget@
                } else {
                    old(self)@.ready.len()
                } as int;
                &&& final(output)@ == old(output)@ + old(self)@.ready.take(n)
                &&& final(self)@ == (QueueModel { ready: old(self)@.ready.skip(n), ..old(self)@ })
            },
    {
        let n = if budget.get() < self.ready.len() {
            budget.get()
        } else {
            self.ready.len()
        };
        if !reserve(output, n, memory) {
            return Err(Error::OutOfMemory);
        }
        let mut i: usize = 0;
        assert(output@ =~= old(output)@ + old(self)@.ready.take(0));
        assert(self@ =~= (QueueModel { ready: old(self)@.ready.skip(0), ..old(self)@ }));
        while i < n
            invariant
                self.wf(),
                i <= n <= old(self)@.ready.len(),
                output@ == old(output)@ + old(self)@.ready.take(i as int),
                self@ == (QueueModel { ready: old(self)@.ready.skip(i as int), ..old(self)@ }),
            decreases n - i,
        {
            let ghost before = self@;
            assert(before.ready.len() == old(self)@.ready.len() - i);
            let completion = self.ready.remove(0);
            output.push(completion);
            assert(self@.ready =~= old(self)@.ready.skip(i + 1));
            assert(self@ =~= (QueueModel { ready: old(self)@.ready.skip(i + 1), ..old(self)@ }));
            assert(output@ =~= old(output)@ + old(self)@.ready.take(i + 1));
            i += 1;
        }
        Ok(())
    }

    /// Accepts nothing from now on. What was accepted is still executed.
    pub fn close(&mut self)
        requires
            old(self).wf(),
        ensures
            final(self).wf(),
            final(self)@ == (QueueModel { closed: true, ..old(self)@ }),
    {
        self.closed = true;
    }

    /// What a shutdown does next: it waits for the workers until the deadline.
    pub fn shutdown_step(&self, expired: bool) -> (r: Result<bool, Error>)
        ensures
            r == (if self@.alive == 0 {
                Ok::<bool, Error>(true)
            } else if expired {
                Err::<bool, Error>(Error::DeadlineExceeded)
            } else {
                Ok::<bool, Error>(false)
            }),
    {
        if self.alive == 0 {
            Ok(true)
        } else if expired {
            Err(Error::DeadlineExceeded)
        } else {
            Ok(false)
        }
    }
}

/// No request is lost between acceptance and its completion: taking a request and completing it
/// leave the number of owed completions as it is, and only acceptance and polling change it.
pub proof fn law_nothing_is_lost(
    before: QueueModel,
    taken: QueueModel,
    completion: IoCompletion,
    request: IoRequest,
)
    requires
        before.pending.len() > 0,
        taken == (QueueModel {
            pending: before.pending.drop_first(),
            inflight: before.inflight + 1,
            ..before
        }),
    ensures
        taken.owed() == before.owed(),
        (QueueModel {
            inflight: (taken.inflight - 1) as nat,
            ready: taken.ready.push(completion),
            ..taken
        }).owed() == before.owed(),
        before.accepted(request).owed() == before.owed() + 1,
{
}

/// A request is rejected exactly by a queue that is closed, owes as much as it may, or has given all its
/// numbers.
pub proof fn law_rejected_for_a_reason(q: QueueModel)
    ensures
        ({
            let owed = q.pending.len() + q.ready.len() + q.inflight;
            &&& q.rejection() is None <==> !q.closed && owed < q.capacity && q.next < u64::MAX
            &&& q.closed ==> q.rejection() == Some(Error::InvalidState("Device is turned off"))
            &&& !q.closed && owed >= q.capacity ==> q.rejection() == Some(Error::Busy)
            &&& !q.closed && owed < q.capacity && q.next == u64::MAX ==> q.rejection() == Some(
                Error::CapacityExceeded,
            )
        }),
{
}

/// A request that is accepted waits behind all others under the next number. A cancellation marks its
/// target at once, wherever it waits, and no other.
pub proof fn law_accepted_waits_last(q: QueueModel, request: IoRequest, i: int)
    requires
        q.rejection() is None,
        0 <= i < q.pending.len(),
    ensures
        ({
            let after = q.accepted(request);
            let before = q.pending[i];
            let now = after.pending[i];
            &&& after.pending.len() == q.pending.len() + 1
            &&& after.pending.last().id.0 == q.next
            &&& after.pending.last().request == request
            &&& !after.pending.last().cancelled
            &&& after.next == q.next + 1
            &&& now.id == before.id
            &&& now.request == before.request
            &&& now.cancelled == (before.cancelled || (request.operation is Cancel && before.id
                == request.operation->Cancel_0))
            &&& after.ready == q.ready
            &&& after.inflight == q.inflight
            &&& after.alive == q.alive
            &&& after.closed == q.closed
            &&& after.capacity == q.capacity
        }),
{
}

/// A cancellation that a worker takes marks its target among what still waits, and no other.
pub proof fn law_cancellation_marks_its_target(pending: Seq<Queued>, target: IoId, i: int)
    requires
        0 <= i < pending.len(),
    ensures
        cancelled(pending, target).len() == pending.len(),
        cancelled(pending, target)[i].id == pending[i].id,
        cancelled(pending, target)[i].request == pending[i].request,
        cancelled(pending, target)[i].cancelled == (pending[i].cancelled || pending[i].id == target),
{
}

/// A worker takes the oldest request that waits. It leaves only a queue that is closed and empty, and
/// waits at one that is empty and open.
pub proof fn law_oldest_is_taken(queue: &mut WorkQueue, r: Job)
    requires
        old(queue).wf(),
        call_ensures(WorkQueue::next_job, (queue,), r),
    ensures
        r is Run <==> old(queue)@.pending.len() > 0,
        r matches Job::Run(taken) ==> {
            &&& taken == old(queue)@.pending[0]
            &&& final(queue)@.pending == old(queue)@.pending.skip(1)
            &&& final(queue)@.inflight == old(queue)@.inflight + 1
        },
        r is Exit <==> old(queue)@.pending.len() == 0 && old(queue)@.closed,
        r is Wait <==> old(queue)@.pending.len() == 0 && !old(queue)@.closed,
        final(queue)@.owed() == old(queue)@.owed(),
        final(queue)@.ready == old(queue)@.ready,
{
    if r is Run {
        assert(old(queue)@.pending.drop_first() =~= old(queue)@.pending.skip(1));
    }
}

/// A request that was cancelled ends as interrupted, with its buffer; a cancellation is done at once;
/// and every other request goes to the files as it is.
pub proof fn law_cancelled_never_reaches_the_files(queue: &mut WorkQueue, queued: Queued, r: Step)
    requires
        call_ensures(WorkQueue::decide, (queue, queued), r),
    ensures
        r is Files <==> !queued.cancelled && !(queued.request.operation is Cancel),
        r matches Step::Files { id, request } ==> id == queued.id && request == queued.request,
        r matches Step::Complete(done) ==> done.id == queued.id && done.route == queued.request.route,
        queued.cancelled ==> r->Complete_0.result == Err::<IoOutcome, Error>(
            Error::Io(IoErrorKind::Interrupted),
        ) && r->Complete_0.buffer == queued.request.operation.owned(),
        !queued.cancelled && queued.request.operation is Cancel ==> r->Complete_0.result == Ok::<
            IoOutcome,
            Error,
        >(IoOutcome::Done),
        final(queue)@.pending.len() == old(queue)@.pending.len(),
        final(queue)@.inflight == old(queue)@.inflight,
{
}

/// A shutdown is done exactly when no worker is left; until the deadline it waits.
pub proof fn law_shutdown_waits_for_workers(queue: WorkQueue, expired: bool, r: Result<bool, Error>)
    requires
        call_ensures(WorkQueue::shutdown_step, (&queue, expired), r),
    ensures
        r == Ok::<bool, Error>(true) <==> queue@.alive == 0,
        r is Err <==> queue@.alive > 0 && expired,
        r matches Err(error) ==> error == Error::DeadlineExceeded,
{
}

} // verus!
