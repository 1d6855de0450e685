//! The workers of one compaction. Each has a lane with room for one copy; a copy stays in its lane
//! from when it is submitted until it is done, and is counted once, when its record was published.
use crate::allocation::{reserve, Memory};
use crate::engine::common::{is_invalid_state, Gate};
use crate::engine::compaction_history::made;
use crate::engine::conditional_copy::ConditionalCopy;
use crate::types::{Error, Rejected};
use vstd::prelude::*;

verus! {

/// The lane of one worker.
pub struct Lane {
    /// The copy, unless the worker has it.
    pub copy: Option<ConditionalCopy>,
    /// How many copies of this lane were published.
    pub copied: u64,
    /// Whether the copy in the lane is counted.
    pub accounted: bool,
    /// `Held` while the worker works on the copy, `Poisoned` when it broke off.
    pub gate: Gate,
}

impl Lane {
    /// The lane can take a copy.
    pub open spec fn vacant(self) -> bool {
        self.gate == Gate::Free && self.copy is None
    }

    /// The lane has a copy, or its worker has it.
    pub open spec fn taken(self) -> bool {
        self.copy is Some || self.gate == Gate::Held
    }

    /// The copy in this lane may still be counted.
    pub open spec fn open(self) -> bool {
        self.taken() && !self.accounted
    }

    pub open spec fn weight(self) -> nat {
        self.copied as nat + if self.open() {
            1nat
        } else {
            0
        }
    }

    /// The copy of the lane is published and not counted yet.
    pub open spec fn countable(self) -> bool {
        !self.accounted && self.copy is Some && self.copy->0.job.published is Some
    }

    /// The lane after its copy was counted if it had to be.
    pub open spec fn accounted_for(self) -> Lane {
        if self.countable() {
            Lane { copied: (self.copied + 1) as u64, accounted: true, ..self }
        } else {
            self
        }
    }

    /// Counts the copy, once, when its record is published.
    fn account(&mut self) -> (r: Result<(), Error>)
        ensures
            old(self).countable() && old(self).copied == u64::MAX ==> r == Err::<(), Error>(
                Error::CapacityExceeded,
            ) && *final(self) == *old(self),
            !(old(self).countable() && old(self).copied == u64::MAX) ==> r == Ok::<(), Error>(())
                && *final(self) == old(self).accounted_for(),
    {
        let published = match &self.copy {
            Some(copy) => copy.job.published.is_some(),
            None => false,
        };
        if !self.accounted && published {
            match self.copied.checked_add(1) {
                Some(copied) => {
                    self.copied = copied;
                    self.accounted = true;
                },
                None => {
                    return Err(Error::CapacityExceeded);
                },
            }
        }
        Ok(())
    }
}

/// The sum of the weights of all lanes.
pub open spec fn weights(lanes: Seq<Lane>) -> nat
    decreases lanes.len(),
{
    if lanes.len() == 0 {
        0
    } else {
        weights(lanes.drop_last()) + lanes.last().weight()
    }
}

/// The sum over all lanes of what `part` says of each.
pub open spec fn total(lanes: Seq<Lane>, part: spec_fn(Lane) -> nat) -> nat
    decreases lanes.len(),
{
    if lanes.len() == 0 {
        0
    } else {
        total(lanes.drop_last(), part) + part(lanes.last())
    }
}

/// How many copies are in the lanes or with their workers.
pub open spec fn under_way(lanes: Seq<Lane>) -> nat {
    total(
        lanes,
        |lane: Lane|
            if lane.taken() {
                1nat
            } else {
                0
            },
    )
}

/// How many of the copies under way are counted already.
pub open spec fn accounted(lanes: Seq<Lane>) -> nat {
    total(
        lanes,
        |lane: Lane|
            if lane.taken() && lane.accounted {
                1nat
            } else {
                0
            },
    )
}

/// How many copies were counted.
pub open spec fn counted(lanes: Seq<Lane>) -> nat {
    total(lanes, |lane: Lane| lane.copied as nat)
}

/// Whether `done` says of every copy that left its lane whether it was published: the others are
/// under way, and what was published is counted, each copy once.
pub open spec fn tallied(lanes: Seq<Lane>, issued: u64, done: Seq<bool>) -> bool {
    &&& under_way(lanes) + done.len() == issued
    &&& counted(lanes) == made(done) + accounted(lanes)
    &&& forall|i: int|
        0 <= i < lanes.len() && (#[trigger] lanes[i]).accounted ==> (lanes[i].copy matches Some(
            copy,
        ) ==> copy.job.published is Some)
}

proof fn lemma_total_update(lanes: Seq<Lane>, part: spec_fn(Lane) -> nat, i: int, lane: Lane)
    requires
        0 <= i < lanes.len(),
    ensures
        total(lanes.update(i, lane), part) + part(lanes[i]) == total(lanes, part) + part(lane),
    decreases lanes.len(),
{
    if i == lanes.len() - 1 {
        assert(lanes.update(i, lane).drop_last() =~= lanes.drop_last());
    } else {
        assert(lanes.update(i, lane).drop_last() =~= lanes.drop_last().update(i, lane));
        lemma_total_update(lanes.drop_last(), part, i, lane);
    }
}

/// What a change of one lane does to the tally.
proof fn lemma_tally_update(lanes: Seq<Lane>, i: int, lane: Lane)
    requires
        0 <= i < lanes.len(),
    ensures
        ({
            let after = lanes.update(i, lane);
            let one = |b: bool|
                if b {
                    1int
                } else {
                    0
                };
            &&& under_way(after) == under_way(lanes) + one(lane.taken()) - one(lanes[i].taken())
            &&& accounted(after) == accounted(lanes) + one(lane.taken() && lane.accounted) - one(
                lanes[i].taken() && lanes[i].accounted,
            )
            &&& counted(after) == counted(lanes) + lane.copied - lanes[i].copied
        }),
{
    lemma_total_update(
        lanes,
        |lane: Lane|
            if lane.taken() {
                1nat
            } else {
                0
            },
        i,
        lane,
    );
    lemma_total_update(
        lanes,
        |lane: Lane|
            if lane.taken() && lane.accounted {
                1nat
            } else {
                0
            },
        i,
        lane,
    );
    lemma_total_update(lanes, |lane: Lane| lane.copied as nat, i, lane);
}

proof fn lemma_nothing_under_way(lanes: Seq<Lane>)
    requires
        forall|i: int| 0 <= i < lanes.len() ==> !(#[trigger] lanes[i]).taken(),
    ensures
        under_way(lanes) == 0,
        accounted(lanes) == 0,
    decreases lanes.len(),
{
    if lanes.len() > 0 {
        let front = lanes.drop_last();
        assert forall|i: int| 0 <= i < front.len() implies !(#[trigger] front[i]).taken() by {
            assert(!lanes[i].taken());
        }
        lemma_nothing_under_way(front);
        assert(!lanes[lanes.len() - 1].taken());
    }
}

proof fn lemma_counts(lanes: Seq<Lane>, numbers: Seq<u64>)
    requires
        numbers.len() == lanes.len(),
        forall|i: int| 0 <= i < lanes.len() ==> #[trigger] numbers[i] == lanes[i].copied,
    ensures
        sum(numbers) == counted(lanes),
    decreases lanes.len(),
{
    if lanes.len() > 0 {
        assert(numbers[lanes.len() - 1] == lanes[lanes.len() - 1].copied);
        assert forall|i: int| 0 <= i < lanes.drop_last().len() implies #[trigger] numbers.drop_last()[i]
            == lanes.drop_last()[i].copied by {
            assert(numbers[i] == lanes[i].copied);
        }
        lemma_counts(lanes.drop_last(), numbers.drop_last());
    }
}

pub open spec fn sum(numbers: Seq<u64>) -> nat
    decreases numbers.len(),
{
    if numbers.len() == 0 {
        0
    } else {
        sum(numbers.drop_last()) + numbers.last() as nat
    }
}

proof fn lemma_weights_update(lanes: Seq<Lane>, i: int, lane: Lane)
    requires
        0 <= i < lanes.len(),
    ensures
        weights(lanes.update(i, lane)) + lanes[i].weight() == weights(lanes) + lane.weight(),
    decreases lanes.len(),
{
    if i == lanes.len() - 1 {
        assert(lanes.update(i, lane).drop_last() =~= lanes.drop_last());
    } else {
        assert(lanes.update(i, lane).drop_last() =~= lanes.drop_last().update(i, lane));
        lemma_weights_update(lanes.drop_last(), i, lane);
    }
}

proof fn lemma_sum_bounded(numbers: Seq<u64>, lanes: Seq<Lane>)
    requires
        numbers.len() == lanes.len(),
        forall|i: int| 0 <= i < lanes.len() ==> #[trigger] numbers[i] <= lanes[i].copied,
    ensures
        sum(numbers) <= weights(lanes),
    decreases lanes.len(),
{
    if lanes.len() > 0 {
        assert(numbers.last() <= lanes.last().copied);
        assert forall|i: int| 0 <= i < lanes.drop_last().len() implies #[trigger] numbers.drop_last()[i]
            <= lanes.drop_last()[i].copied by {
            assert(numbers[i] <= lanes[i].copied);
        }
        lemma_sum_bounded(numbers.drop_last(), lanes.drop_last());
    }
}

proof fn lemma_sum_prefix(numbers: Seq<u64>, n: int)
    requires
        0 <= n <= numbers.len(),
    ensures
        sum(numbers.take(n)) <= sum(numbers),
        n < numbers.len() ==> sum(numbers.take(n + 1)) == sum(numbers.take(n)) + numbers[n],
    decreases numbers.len(),
{
    if n < numbers.len() {
        assert(numbers.take(n + 1).drop_last() =~= numbers.take(n));
        lemma_sum_prefix(numbers.drop_last(), n);
        assert(numbers.drop_last().take(n) =~= numbers.take(n));
    } else {
        assert(numbers.take(n) =~= numbers);
    }
}

/// The first lane at or after `from` that takes a copy or is broken.
pub open spec fn first_stop(lanes: Seq<Lane>, from: int) -> int
    decreases lanes.len() - from,
{
    if from < 0 || from >= lanes.len() {
        lanes.len() as int
    } else if lanes[from].vacant() || lanes[from].gate == Gate::Poisoned {
        from
    } else {
        first_stop(lanes, from + 1)
    }
}

/// What was found of a worker's thread.
#[derive(Clone, Copy, Debug, PartialEq, Eq, Structural)]
pub enum ThreadState {
    Running,
    /// It ended, now or before.
    Ended,
    /// It ended just now, and not in order.
    Panicked,
}

/// What a worker does next.
#[derive(Clone, Copy, Debug, PartialEq, Eq, Structural)]
pub enum Turn {
    Wait,
    Exit,
    Work,
}

#[derive(Debug)]
pub struct Progress {
    pub copied: u64,
    pub failure: Option<Error>,
    pub finished: bool,
}

/// What a look at the workers found, and whether the engine has to close.
pub struct Polled {
    pub fatal: bool,
    pub progress: Result<Progress, Error>,
}

/// What a worker's step leaves to its caller.
pub struct Turned {
    /// The engine has to close.
    pub fatal: bool,
    /// A copy that is done, to be given up.
    pub done: Option<ConditionalCopy>,
}

pub struct Workers {
    pub lanes: Vec<Lane>,
    /// The count of each lane as it was seen last.
    pub known: Vec<u64>,
    /// How many copies were submitted.
    pub issued: u64,
    pub closing: bool,
    pub abort: bool,
    pub error: Option<Error>,
}

impl Workers {
    /// No more was counted than submitted, and nothing was seen that is not counted.
    pub open spec fn wf(self) -> bool {
        &&& self.known@.len() == self.lanes@.len()
        &&& forall|i: int|
            0 <= i < self.lanes@.len() ==> #[trigger] self.known@[i] <= self.lanes@[i].copied
        &&& weights(self.lanes@) <= self.issued
    }

    /// The error that is kept: the first one.
    pub open spec fn kept(self, error: Error) -> Option<Error> {
        match self.error {
            Some(first) => Some(first),
            None => Some(error),
        }
    }

    /// Makes `count` empty lanes.
    pub fn new(count: usize, memory: Memory) -> (r: Result<Workers, Error>)
        ensures
            memory is Granted || count == 0 ==> r is Ok,
            memory is Refused && count > 0 ==> r is Err,
            match r {
                Err(error) => error == Error::OutOfMemory,
                Ok(workers) => {
                    &&& workers.wf()
                    &&& workers.lanes@.len() == count
                    &&& forall|i: int|
                        0 <= i < count ==> #[trigger] workers.lanes@[i] == (Lane {
                            copy: None,
                            copied: 0,
                            accounted: false,
                            gate: Gate::Free,
                        })
                    &&& workers.issued == 0
                    &&& tallied(workers.lanes@, 0, Seq::empty())
                    &&& !workers.closing
                    &&& !workers.abort
                    &&& workers.error is None
                },
            },
    {
        let mut lanes: Vec<Lane> = Vec::new();
        if !reserve(&mut lanes, count, memory) {
            return Err(Error::OutOfMemory);
        }
        let mut known: Vec<u64> = Vec::new();
        if !reserve(&mut known, count, memory) {
            return Err(Error::OutOfMemory);
        }
        let mut i: usize = 0;
        while i < count
            invariant
                i <= count,
                lanes@.len() == i,
                known@.len() == i,
                forall|j: int|
                    0 <= j < i ==> #[trigger] lanes@[j] == (Lane {
                        copy: None,
                        copied: 0,
                        accounted: false,
                        gate: Gate::Free,
                    }),
                forall|j: int| 0 <= j < i ==> #[trigger] known@[j] == 0,
                weights(lanes@) == 0,
            decreases count - i,
        {
            let ghost before = lanes@;
            lanes.push(Lane { copy: None, copied: 0, accounted: false, gate: Gate::Free });
            assert(lanes@.drop_last() =~= before);
            known.push(0);
            i += 1;
        }
        proof {
            lemma_nothing_under_way(lanes@);
            lemma_counts(lanes@, known@);
            lemma_sum_bounded(known@, lanes@);
        }
        Ok(Workers { lanes, known, issued: 0, closing: false, abort: false, error: None })
    }

    /// No copy is taken any more; workers with an empty lane leave.
    pub fn close(&mut self)
        requires
            old(self).wf(),
        ensures
            final(self).wf(),
            *final(self) == (Workers { closing: true, ..*old(self) }),
    {
        self.closing = true;
    }

    /// As `close`; copies under way are drained.
    pub fn abort(&mut self)
        requires
            old(self).wf(),
        ensures
            final(self).wf(),
            *final(self) == (Workers { abort: true, ..*old(self) }),
    {
        self.abort = true;
    }

    /// Keeps the first error, and stops.
    pub fn fail(&mut self, error: Error)
        requires
            old(self).wf(),
        ensures
            final(self).wf(),
            *final(self) == (Workers { abort: true, error: old(self).kept(error), ..*old(self) }),
    {
        if self.error.is_none() {
            self.error = Some(error);
        }
        self.abort = true;
    }

    /// Why no lane takes a copy now.
    pub open spec fn refusal(self) -> Option<Error> {
        let stop = first_stop(self.lanes@, 0);
        if self.abort || self.closing {
            Some(Error::Busy)
        } else if self.issued == u64::MAX {
            Some(Error::CapacityExceeded)
        } else if stop >= self.lanes@.len() {
            Some(Error::Busy)
        } else if self.lanes@[stop].gate == Gate::Poisoned {
            Some(Error::InvalidState("Compression work tank poisoning"))
        } else {
            None
        }
    }

    /// Puts a copy into the first lane that is empty, or hands it back.
    pub fn submit(&mut self, copy: ConditionalCopy) -> (r: Result<(), Rejected<ConditionalCopy>>)
        requires
            old(self).wf(),
        ensures
            final(self).wf(),
            match old(self).refusal() {
                Some(reason) => r == Err::<(), Rejected<ConditionalCopy>>(
                    Rejected { request: copy, reason },
                ) && *final(self) == *old(self),
                None => {
                    let stop = first_stop(old(self).lanes@, 0);
                    &&& r == Ok::<(), Rejected<ConditionalCopy>>(())
                    &&& final(self).lanes@ == old(self).lanes@.update(
                        stop,
                        Lane {
                            copy: Some(copy),
                            accounted: false,
                            ..old(self).lanes@[stop]
                        },
                    )
                    &&& final(self).issued == old(self).issued + 1
                    &&& forall|done: Seq<bool>| #[trigger]
                        tallied(old(self).lanes@, old(self).issued, done) ==> tallied(
                            final(self).lanes@,
                            final(self).issued,
                            done,
                        )
                    &&& final(self).known@ == old(self).known@
                    &&& !final(self).closing
                    &&& !final(self).abort
                    &&& final(self).error == old(self).error
                },
            },
    {
        if self.abort || self.closing {
            return Err(Rejected { request: copy, reason: Error::Busy });
        }
        let next = match self.issued.checked_add(1) {
            Some(next) => next,
            None => {
                return Err(Rejected { request: copy, reason: Error::CapacityExceeded });
            },
        };
        let mut i: usize = 0;
        while i < self.lanes.len()
            invariant
                i <= self.lanes@.len(),
                *self == *old(self),
                first_stop(self.lanes@, 0) == first_stop(self.lanes@, i as int),
                self.wf(),
                !self.abort,
                !self.closing,
                self.issued < u64::MAX,
                next == self.issued + 1,
            decreases self.lanes@.len() - i,
        {
            match self.lanes[i].gate {
                Gate::Held => {},
                Gate::Poisoned => {
                    return Err(
                        Rejected {
                            request: copy,
                            reason: Error::InvalidState("Compression work tank poisoning"),
                        },
                    );
                },
                Gate::Free => {
                    if self.lanes[i].copy.is_none() {
                        let copied = self.lanes[i].copied;
                        let ghost lane = Lane {
                            copy: Some(copy),
                            copied,
                            accounted: false,
                            gate: Gate::Free,
                        };
                        proof {
                            lemma_weights_update(self.lanes@, i as int, lane);
                        }
                        self.lanes.set(
                            i,
                            Lane { copy: Some(copy), copied, accounted: false, gate: Gate::Free },
                        );
                        self.issued = next;
                        proof {
                            lemma_tally_update(old(self).lanes@, i as int, lane);
                            assert(self.lanes@ =~= old(self).lanes@.update(i as int, lane));
                        }
                        assert forall|j: int| 0 <= j < self.lanes@.len() implies #[trigger] self.known@[j]
                            <= self.lanes@[j].copied by {
                            assert(old(self).known@[j] <= old(self).lanes@[j].copied);
                        }
                        return Ok(());
                    }
                },
            }
            i += 1;
        }
        Err(Rejected { request: copy, reason: Error::Busy })
    }

    /// Whether some thread is in the state `state`.
    pub open spec fn any_thread(threads: Seq<ThreadState>, state: ThreadState) -> bool {
        exists|i: int| 0 <= i < threads.len() && #[trigger] threads[i] == state
    }

    /// Whether some lane is in the state `gate`.
    pub open spec fn any_lane(lanes: Seq<Lane>, gate: Gate) -> bool {
        exists|i: int| 0 <= i < lanes.len() && (#[trigger] lanes[i]).gate == gate
    }

    /// The counts of all lanes, those of a lane that is worked on as they were seen last.
    pub open spec fn seen(self) -> Seq<u64> {
        Seq::new(
            self.lanes@.len(),
            |i: int|
                if self.lanes@[i].gate == Gate::Held {
                    self.known@[i]
                } else {
                    self.lanes@[i].copied
                },
        )
    }

    /// The error that is kept after a look that found threads or lanes broken.
    pub open spec fn found(self, threads: Seq<ThreadState>) -> Option<Error> {
        if self.error is Some {
            self.error
        } else if Self::any_thread(threads, ThreadState::Panicked) {
            Some(Error::InvalidState("Compression thread exits abnormally"))
        } else if Self::any_lane(self.lanes@, Gate::Poisoned) {
            Some(Error::InvalidState("Compression work tank poisoning"))
        } else {
            None
        }
    }

    /// Looks how far the workers are. All counts are seen, those of a broken lane too, and an error
    /// is handed out once.
    pub fn poll(&mut self, threads: &[ThreadState]) -> (r: Polled)
        requires
            old(self).wf(),
        ensures
            final(self).wf(),
            final(self).lanes@ == old(self).lanes@,
            final(self).known@ == old(self).seen(),
            final(self).issued == old(self).issued,
            final(self).closing == old(self).closing,
            ({
                let broken = Self::any_thread(threads@, ThreadState::Panicked) || Self::any_lane(
                    old(self).lanes@,
                    Gate::Poisoned,
                );
                &&& r.fatal == broken
                &&& final(self).abort == (old(self).abort || broken)
                &&& final(self).error is None
                &&& r.progress matches Ok(progress)
                &&& progress.copied == sum(old(self).seen())
                &&& progress.copied <= old(self).issued
                &&& progress.failure == old(self).found(threads@)
                &&& progress.finished == (!Self::any_thread(threads@, ThreadState::Running)
                    && !Self::any_lane(old(self).lanes@, Gate::Held))
            }),
    {
        let mut finished = true;
        let mut fatal = false;
        let mut i: usize = 0;
        while i < threads.len()
            invariant
                i <= threads@.len(),
                self.wf(),
                self.lanes@ == old(self).lanes@,
                self.known@ == old(self).known@,
                self.issued == old(self).issued,
                self.closing == old(self).closing,
                fatal == exists|j: int|
                    0 <= j < i && #[trigger] threads@[j] == ThreadState::Panicked,
                finished == !(exists|j: int|
                    0 <= j < i && #[trigger] threads@[j] == ThreadState::Running),
                self.abort == (old(self).abort || fatal),
                self.error == (if old(self).error is None && fatal {
                    Some(Error::InvalidState("Compression thread exits abnormally"))
                } else {
                    old(self).error
                }),
            decreases threads@.len() - i,
        {
            let ghost had = finished;
            let ghost was = fatal;
            match threads[i] {
                ThreadState::Running => {
                    finished = false;
                    assert(threads@[i as int] == ThreadState::Running);
                },
                ThreadState::Panicked => {
                    fatal = true;
                    assert(threads@[i as int] == ThreadState::Panicked);
                    self.fail(Error::InvalidState("Compression thread exits abnormally"));
                },
                ThreadState::Ended => {
                    assert(threads@[i as int] == ThreadState::Ended);
                },
            }
            i += 1;
            proof {
                if was {
                    let j = choose|j: int|
                        0 <= j < i - 1 && #[trigger] threads@[j] == ThreadState::Panicked;
                    assert(threads@[j] == ThreadState::Panicked);
                }
                if !had {
                    let j = choose|j: int|
                        0 <= j < i - 1 && #[trigger] threads@[j] == ThreadState::Running;
                    assert(threads@[j] == ThreadState::Running);
                }
            }
        }
        assert(fatal == Self::any_thread(threads@, ThreadState::Panicked));
        assert(finished == !Self::any_thread(threads@, ThreadState::Running));
        let ghost threads_broken = fatal;
        let ghost threads_done = finished;
        let ghost lanes = self.lanes@;
        let ghost mut poisoned = false;
        let ghost mut held = false;
        let mut i: usize = 0;
        while i < self.lanes.len()
            invariant
                i <= self.lanes@.len(),
                self.wf(),
                lanes == old(self).lanes@,
                self.lanes@ == lanes,
                self.issued == old(self).issued,
                self.closing == old(self).closing,
                poisoned == exists|j: int|
                    0 <= j < i && (#[trigger] lanes[j]).gate == Gate::Poisoned,
                held == exists|j: int| 0 <= j < i && (#[trigger] lanes[j]).gate == Gate::Held,
                fatal == (threads_broken || poisoned),
                finished == (threads_done && !held),
                self.abort == (old(self).abort || fatal),
                self.error == (if old(self).error is Some {
                    old(self).error
                } else if threads_broken {
                    Some(Error::InvalidState("Compression thread exits abnormally"))
                } else if poisoned {
                    Some(Error::InvalidState("Compression work tank poisoning"))
                } else {
                    None
                }),
                forall|j: int| 0 <= j < i ==> #[trigger] self.known@[j] == old(self).seen()[j],
                forall|j: int|
                    i <= j < lanes.len() ==> #[trigger] self.known@[j] == old(self).known@[j],
            decreases self.lanes@.len() - i,
        {
            let ghost before = self.known@;
            let ghost held_before = held;
            let ghost poisoned_before = poisoned;
            match self.lanes[i].gate {
                Gate::Held => {
                    finished = false;
                    proof {
                        held = true;
                        assert(lanes[i as int].gate == Gate::Held);
                    }
                },
                Gate::Poisoned => {
                    fatal = true;
                    proof {
                        poisoned = true;
                        assert(lanes[i as int].gate == Gate::Poisoned);
                    }
                    self.fail(Error::InvalidState("Compression work tank poisoning"));
                    let copied = self.lanes[i].copied;
                    self.known.set(i, copied);
                },
                Gate::Free => {
                    assert(lanes[i as int].gate == Gate::Free);
                    let copied = self.lanes[i].copied;
                    self.known.set(i, copied);
                },
            }
            assert(self.known@[i as int] == old(self).seen()[i as int]);
            assert forall|j: int| 0 <= j < lanes.len() implies #[trigger] self.known@[j]
                <= self.lanes@[j].copied by {
                assert(before[j] <= lanes[j].copied);
            }
            i += 1;
            proof {
                if held_before {
                    let j = choose|j: int| 0 <= j < i - 1 && (#[trigger] lanes[j]).gate == Gate::Held;
                    assert(lanes[j].gate == Gate::Held);
                }
                if poisoned_before {
                    let j = choose|j: int|
                        0 <= j < i - 1 && (#[trigger] lanes[j]).gate == Gate::Poisoned;
                    assert(lanes[j].gate == Gate::Poisoned);
                }
            }
        }
        assert(poisoned == Self::any_lane(lanes, Gate::Poisoned));
        assert(held == Self::any_lane(lanes, Gate::Held));
        assert(self.known@ =~= old(self).seen());
        proof {
            lemma_sum_bounded(self.known@, self.lanes@);
        }
        let mut copied: u64 = 0;
        let mut i: usize = 0;
        while i < self.known.len()
            invariant
                i <= self.known@.len(),
                copied == sum(self.known@.take(i as int)),
                sum(self.known@) <= self.issued,
            decreases self.known@.len() - i,
        {
            proof {
                lemma_sum_prefix(self.known@, i as int);
                lemma_sum_prefix(self.known@, i + 1);
            }
            copied = copied + self.known[i];
            i += 1;
        }
        assert(self.known@.take(i as int) =~= self.known@);
        let failure = self.error.take();
        Polled { fatal, progress: Ok(Progress { copied, failure, finished }) }
    }

    /// What the worker of a lane does next.
    pub fn turn(&self, lane: usize) -> (r: Turn)
        requires
            lane < self.lanes@.len(),
        ensures
            r == (if self.lanes@[lane as int].copy is Some {
                Turn::Work
            } else if self.abort || self.closing {
                Turn::Exit
            } else {
                Turn::Wait
            }),
    {
        if self.lanes[lane].copy.is_some() {
            Turn::Work
        } else if self.abort || self.closing {
            Turn::Exit
        } else {
            Turn::Wait
        }
    }

    /// Counts the copy of a lane whose worker leaves because the engine failed.
    pub fn leave(&mut self, lane: usize) -> (r: Result<(), Error>)
        requires
            old(self).wf(),
            lane < old(self).lanes@.len(),
        ensures
            final(self).wf(),
            ({
                let before = old(self).lanes@[lane as int];
                if before.countable() && before.copied == u64::MAX {
                    r == Err::<(), Error>(Error::CapacityExceeded) && final(self).lanes@ == old(
                        self,
                    ).lanes@
                } else {
                    r == Ok::<(), Error>(()) && final(self).lanes@ == old(self).lanes@.update(
                        lane as int,
                        before.accounted_for(),
                    )
                }
            }),
            forall|done: Seq<bool>| #[trigger]
                tallied(old(self).lanes@, old(self).issued, done) ==> tallied(
                    final(self).lanes@,
                    final(self).issued,
                    done,
                ),
            final(self).known@ == old(self).known@,
            final(self).issued == old(self).issued,
            final(self).closing == old(self).closing,
            final(self).abort == old(self).abort,
            final(self).error == old(self).error,
    {
        let ghost lanes = self.lanes@;
        let place = &mut self.lanes[lane];
        let r = place.account();
        proof {
            lemma_tally_update(lanes, lane as int, self.lanes@[lane as int]);
            lemma_weights_update(lanes, lane as int, self.lanes@[lane as int]);
            assert(self.lanes@ =~= lanes.update(lane as int, self.lanes@[lane as int]));
            assert forall|j: int| 0 <= j < self.lanes@.len() implies #[trigger] self.known@[j]
                <= self.lanes@[j].copied by {
                assert(old(self).known@[j] <= old(self).lanes@[j].copied);
            }
        }
        r
    }

    /// Hands the copy of a lane to its worker.
    pub fn begin(&mut self, lane: usize) -> (r: ConditionalCopy)
        requires
            old(self).wf(),
            lane < old(self).lanes@.len(),
            old(self).lanes@[lane as int].copy is Some,
            old(self).lanes@[lane as int].gate == Gate::Free,
        ensures
            final(self).wf(),
            old(self).lanes@[lane as int].copy == Some(r),
            final(self).lanes@ == old(self).lanes@.update(
                lane as int,
                Lane { copy: None, gate: Gate::Held, ..old(self).lanes@[lane as int] },
            ),
            forall|done: Seq<bool>| #[trigger]
                tallied(old(self).lanes@, old(self).issued, done) ==> tallied(
                    final(self).lanes@,
                    final(self).issued,
                    done,
                ),
            final(self).known@ == old(self).known@,
            final(self).issued == old(self).issued,
            final(self).closing == old(self).closing,
            final(self).abort == old(self).abort,
            final(self).error == old(self).error,
    {
        let ghost lanes = self.lanes@;
        let place = &mut self.lanes[lane];
        place.gate = Gate::Held;
        let copy = place.copy.take();
        proof {
            lemma_tally_update(lanes, lane as int, self.lanes@[lane as int]);
            lemma_weights_update(lanes, lane as int, self.lanes@[lane as int]);
            assert(self.lanes@ =~= lanes.update(lane as int, self.lanes@[lane as int]));
            assert forall|j: int| 0 <= j < self.lanes@.len() implies #[trigger] self.known@[j]
                <= self.lanes@[j].copied by {
                assert(old(self).known@[j] <= old(self).lanes@[j].copied);
            }
        }
        copy.unwrap()
    }

    /// Whether one more copy of a lane could be counted: asked before anything is published.
    pub fn preflight(&self, lane: usize) -> (r: Result<(), Error>)
        requires
            lane < self.lanes@.len(),
        ensures
            r == (if self.lanes@[lane as int].copied == u64::MAX {
                Err::<(), Error>(Error::CapacityExceeded)
            } else {
                Ok::<(), Error>(())
            }),
    {
        if self.lanes[lane].copied == u64::MAX {
            Err(Error::CapacityExceeded)
        } else {
            Ok(())
        }
    }

    /// The lane after its worker brought a copy back.
    pub open spec fn back(self, lane: int, copy: ConditionalCopy) -> Lane {
        Lane { copy: Some(copy), gate: Gate::Free, ..self.lanes@[lane] }
    }

    /// Takes a copy back from its worker, with the outcome of the step: whether it is done, or the
    /// error. What was published is counted whatever the outcome is; an error is kept, and closes
    /// the engine where the state is broken.
    pub fn end(&mut self, lane: usize, copy: ConditionalCopy, outcome: Result<bool, Error>) -> (r:
        Result<Turned, Error>)
        requires
            old(self).wf(),
            lane < old(self).lanes@.len(),
            old(self).lanes@[lane as int].gate == Gate::Held,
            old(self).lanes@[lane as int].copy is None,
        ensures
            final(self).wf(),
            ({
                let back = old(self).back(lane as int, copy);
                if back.countable() && back.copied == u64::MAX {
                    &&& r is Err
                    &&& r->Err_0 == Error::CapacityExceeded
                    &&& final(self).lanes@ == old(self).lanes@.update(lane as int, back)
                    &&& final(self).error == old(self).error
                    &&& final(self).abort == old(self).abort
                } else {
                    let counted = back.accounted_for();
                    match outcome {
                        Ok(done) => {
                            &&& r == Ok::<Turned, Error>(
                                Turned {
                                    fatal: false,
                                    done: if done {
                                        Some(copy)
                                    } else {
                                        None
                                    },
                                },
                            )
                            &&& final(self).lanes@ == old(self).lanes@.update(
                                lane as int,
                                if done {
                                    Lane { copy: None, ..counted }
                                } else {
                                    counted
                                },
                            )
                            &&& final(self).error == old(self).error
                            &&& final(self).abort == old(self).abort
                        },
                        Err(error) => {
                            &&& r == Ok::<Turned, Error>(
                                Turned { fatal: error is InvalidState, done: None },
                            )
                            &&& final(self).lanes@ == old(self).lanes@.update(
                                lane as int,
                                counted,
                            )
                            &&& final(self).error == old(self).kept(error)
                            &&& final(self).abort
                        },
                    }
                }
            }),
            forall|done: Seq<bool>| #[trigger]
                tallied(old(self).lanes@, old(self).issued, done) && (old(
                    self,
                ).lanes@[lane as int].accounted ==> copy.job.published is Some) ==> tallied(
                    final(self).lanes@,
                    final(self).issued,
                    if final(self).lanes@[lane as int].taken() {
                        done
                    } else {
                        done.push(copy.job.published is Some)
                    },
                ),
            final(self).known@ == old(self).known@,
            final(self).issued == old(self).issued,
            final(self).closing == old(self).closing,
    {
        let ghost lanes = self.lanes@;
        let place = &mut self.lanes[lane];
        place.copy = Some(copy);
        place.gate = Gate::Free;
        let ghost back = *place;
        let counted = place.account();
        let mut done: Option<ConditionalCopy> = None;
        if counted.is_ok() {
            match &outcome {
                Ok(true) => {
                    done = place.copy.take();
                },
                _ => {},
            }
        }
        proof {
            lemma_tally_update(lanes, lane as int, self.lanes@[lane as int]);
            assert forall|ended: Seq<bool>| #[trigger] ended.push(
                copy.job.published is Some,
            ).drop_last() == ended by {
                assert(ended.push(copy.job.published is Some).drop_last() =~= ended);
            }
            lemma_weights_update(lanes, lane as int, self.lanes@[lane as int]);
            assert(self.lanes@ =~= lanes.update(lane as int, self.lanes@[lane as int]));
            assert forall|j: int| 0 <= j < self.lanes@.len() implies #[trigger] self.known@[j]
                <= self.lanes@[j].copied by {
                assert(old(self).known@[j] <= old(self).lanes@[j].copied);
            }
        }
        match counted {
            Ok(()) => {},
            Err(error) => {
                return Err(error);
            },
        }
        match outcome {
            Ok(_) => Ok(Turned { fatal: false, done }),
            Err(error) => {
                let fatal = is_invalid_state(&error);
                self.fail(error);
                Ok(Turned { fatal, done: None })
            },
        }
    }
}

/// Once no copy is under way, what a look at the workers counts is how many of the copies that were
/// submitted were published, and each of them is done.
pub proof fn law_all_copies_are_counted(workers: Workers, done: Seq<bool>)
    requires
        workers.wf(),
        tallied(workers.lanes@, workers.issued, done),
        forall|i: int| 0 <= i < workers.lanes@.len() ==> !(#[trigger] workers.lanes@[i]).taken(),
    ensures
        sum(workers.seen()) == made(done),
        done.len() == workers.issued,
{
    lemma_nothing_under_way(workers.lanes@);
    assert forall|i: int| 0 <= i < workers.lanes@.len() implies #[trigger] workers.seen()[i]
        == workers.lanes@[i].copied by {
        assert(!workers.lanes@[i].taken());
    }
    lemma_counts(workers.lanes@, workers.seen());
}

proof fn lemma_first_stop(lanes: Seq<Lane>, from: int)
    requires
        0 <= from <= lanes.len(),
    ensures
        from <= first_stop(lanes, from) <= lanes.len(),
        forall|j: int|
            from <= j < first_stop(lanes, from) ==> !((#[trigger] lanes[j]).gate == Gate::Free
                && lanes[j].copy is None) && lanes[j].gate != Gate::Poisoned,
        first_stop(lanes, from) < lanes.len() ==> {
            let lane = lanes[first_stop(lanes, from)];
            lane.gate == Gate::Poisoned || (lane.gate == Gate::Free && lane.copy is None)
        },
    decreases lanes.len() - from,
{
    if from < lanes.len() && !(lanes[from].vacant() || lanes[from].gate == Gate::Poisoned) {
        lemma_first_stop(lanes, from + 1);
    }
}

/// A copy is taken exactly while the workers run, another can be counted, and the first lane that is not
/// in use is in order: a lane that is empty, with none broken before it. Otherwise it is handed back, for
/// the reason that came first.
pub proof fn law_taken_by_the_first_free_lane(workers: Workers, k: int)
    requires
        0 <= k < workers.lanes@.len(),
        forall|j: int|
            0 <= j < k ==> (#[trigger] workers.lanes@[j]).gate != Gate::Poisoned && !(
            workers.lanes@[j].gate == Gate::Free && workers.lanes@[j].copy is None),
    ensures
        ({
            let lane = workers.lanes@[k];
            let empty = lane.gate == Gate::Free && lane.copy is None;
            let broken = lane.gate == Gate::Poisoned;
            let runs = !workers.abort && !workers.closing && workers.issued < u64::MAX;
            &&& workers.abort || workers.closing ==> workers.refusal() == Some(Error::Busy)
            &&& !workers.abort && !workers.closing && workers.issued == u64::MAX ==> workers.refusal()
                == Some(Error::CapacityExceeded)
            &&& runs && empty ==> workers.refusal() is None && first_stop(workers.lanes@, 0) == k
            &&& runs && broken ==> workers.refusal() == Some(
                Error::InvalidState("Compression work tank poisoning"),
            )
            &&& runs && !empty && !broken && k == workers.lanes@.len() - 1 ==> workers.refusal() == Some(
                Error::Busy,
            )
        }),
{
    lemma_first_stop(workers.lanes@, 0);
    let stop = first_stop(workers.lanes@, 0);
    if stop < k {
        assert(workers.lanes@[stop].gate != Gate::Poisoned);
    }
}

/// A published copy is counted once: when it is counted, its lane counts one more and is marked, and a
/// lane that is marked, holds no copy or holds one that is not published counts nothing.
pub proof fn law_published_is_counted_once(lane: Lane)
    requires
        lane.copied < u64::MAX,
    ensures
        ({
            let due = !lane.accounted && lane.copy is Some && lane.copy->0.job.published is Some;
            let after = lane.accounted_for();
            &&& due ==> after.copied == lane.copied + 1 && after.accounted
            &&& !due ==> after == lane
            &&& after.accounted_for() == after
            &&& after.copy == lane.copy
            &&& after.gate == lane.gate
        }),
{
}

/// What the workers are seen to have copied is what their lanes counted, but for a lane that is worked
/// on, of which the last count stands.
pub proof fn law_seen_counts(workers: Workers, i: int)
    requires
        0 <= i < workers.lanes@.len(),
    ensures
        workers.seen().len() == workers.lanes@.len(),
        workers.seen()[i] == (if workers.lanes@[i].gate == Gate::Held {
            workers.known@[i]
        } else {
            workers.lanes@[i].copied
        }),
{
}

/// The first error is kept: one from before, then that of a thread that broke, then that of a lane.
pub proof fn law_first_error_is_kept(workers: Workers, threads: Seq<ThreadState>, error: Error)
    ensures
        workers.error is Some ==> workers.found(threads) == workers.error && workers.kept(error)
            == workers.error,
        workers.error is None ==> workers.kept(error) == Some(error),
        workers.error is None ==> (workers.found(threads) is None <==> {
            &&& forall|i: int|
                0 <= i < threads.len() ==> #[trigger] threads[i] != ThreadState::Panicked
            &&& forall|i: int|
                0 <= i < workers.lanes@.len() ==> (#[trigger] workers.lanes@[i]).gate != Gate::Poisoned
        }),
        workers.error is None && (exists|i: int|
            0 <= i < threads.len() && #[trigger] threads[i] == ThreadState::Panicked)
            ==> workers.found(threads) == Some(
            Error::InvalidState("Compression thread exits abnormally"),
        ),
{
}

/// The sum of numbers is that of each of them, and so are the sums over lanes.
pub proof fn law_sums_add_up(numbers: Seq<u64>, n: u64, lanes: Seq<Lane>, lane: Lane)
    ensures
        sum(Seq::empty()) == 0,
        sum(numbers.push(n)) == sum(numbers) + n,
        counted(lanes.push(lane)) == counted(lanes) + lane.copied,
        under_way(lanes.push(lane)) == under_way(lanes) + if lane.copy is Some || lane.gate
            == Gate::Held {
            1nat
        } else {
            0
        },
{
    assert(numbers.push(n).drop_last() =~= numbers);
    assert(lanes.push(lane).drop_last() =~= lanes);
}

} // verus!
