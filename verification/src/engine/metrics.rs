//! Counters of requests. They run no user code and change no result. How many requests are active
//! and suspended is always counted; everything else only for requests that are sampled.
use crate::allocation::{reserve, Memory};
use crate::clock::{elapsed_since, now};
use crate::diagnostics::{
    bin_high, bin_low, bins_total, lemma_bins_empty, lemma_bins_update, CacheStatistics,
    IndexStatistics, OperationStatistics, Statistics,
};
use crate::types::{Effect, Error, OperationResult, Outcome};
use std::time::Instant;
use vstd::arithmetic::power2::{lemma2_to64, lemma2_to64_rest, lemma_pow2_pos, lemma_pow2_unfold, pow2};
use vstd::prelude::*;

verus! {

#[derive(Clone, Copy, Debug, PartialEq, Eq, Structural)]
pub enum Kind {
    Read,
    Upsert,
    Rmw,
    Delete,
    /// A conditional copy. It is no request, and does not count as active.
    Copy,
}

#[derive(Clone, Copy, Debug, PartialEq, Eq, Structural)]
pub enum Completed {
    Success,
    NotFound,
    Aborted,
    Failed(Effect),
}

impl Completed {
    /// What the result of an operation counts as.
    pub open spec fn of<T>(result: OperationResult<T>) -> Completed {
        match result {
            Ok(Outcome::Success(_)) => Completed::Success,
            Ok(Outcome::NotFound) => Completed::NotFound,
            Ok(Outcome::Aborted(_)) => Completed::Aborted,
            Err(error) => Completed::Failed(error.effect),
        }
    }

    pub fn result<T>(result: &OperationResult<T>) -> (r: Completed)
        ensures
            r == Completed::of(*result),
    {
        match result {
            Ok(Outcome::Success(_)) => Completed::Success,
            Ok(Outcome::NotFound) => Completed::NotFound,
            Ok(Outcome::Aborted(_)) => Completed::Aborted,
            Err(error) => Completed::Failed(error.effect),
        }
    }
}

#[derive(Clone, Copy, Debug, PartialEq, Eq, Structural)]
pub enum CacheEvent {
    Lookup,
    Hit,
    Insert,
    Evict,
    Promote,
}

#[derive(Clone, Copy, Debug, PartialEq, Eq, Structural)]
pub enum IndexEvent {
    Lookup,
    Publish,
    Conflict,
}

/// Addition that stops at the largest number.
pub open spec fn plus(a: u64, b: u64) -> u64 {
    if a + b > u64::MAX {
        u64::MAX
    } else {
        (a + b) as u64
    }
}

pub open spec fn overflows(a: u64, b: u64) -> bool {
    a + b > u64::MAX
}

pub open spec fn capped(n: u128) -> u64 {
    if n > u64::MAX {
        u64::MAX
    } else {
        n as u64
    }
}

fn add_to(target: &mut u64, value: u64, saturated: &mut bool)
    ensures
        *final(target) == plus(*old(target), value),
        *final(saturated) == (*old(saturated) || overflows(*old(target), value)),
{
    match target.checked_add(value) {
        Some(next) => {
            *target = next;
        },
        None => {
            *target = u64::MAX;
            *saturated = true;
        },
    }
}

/// A duration as a number that fits, which is marked where it did not.
pub fn nanos(value: u128, saturated: &mut bool) -> (r: u64)
    ensures
        r == capped(value),
        *final(saturated) == (*old(saturated) || value > u64::MAX),
{
    if value > u64::MAX as u128 {
        *saturated = true;
        u64::MAX
    } else {
        value as u64
    }
}

/// The bin that counts requests with `io` completions.
pub open spec fn bin(io: nat) -> nat
    decreases io,
{
    if io == 0 {
        0
    } else {
        1 + bin(io / 2)
    }
}

/// Every number of completions lies between the bounds of its bin.
pub proof fn law_bin_bounds(io: nat)
    ensures
        bin_low(bin(io)) <= io <= bin_high(bin(io)),
        io <= u64::MAX ==> bin(io) <= 64,
    decreases io,
{
    lemma2_to64();
    lemma2_to64_rest();
    if io > 0 {
        law_bin_bounds(io / 2);
        let b = bin(io / 2);
        lemma_pow2_unfold(b + 1);
        lemma_pow2_pos(b);
        lemma_pow2_pos(b + 1);
        assert(bin(io) == b + 1);
        if b > 0 {
            lemma_pow2_unfold(b);
            assert(bin_low(b + 1) == 2 * bin_low(b));
            assert(bin_high(b + 1) == 2 * bin_high(b) + 1);
        } else {
            assert(io / 2 == 0);
            assert(pow2(0) == 1 && pow2(1) == 2);
        }
        assert(2 * (io / 2) <= io <= 2 * (io / 2) + 1);
        if io <= u64::MAX {
            if b >= 64 {
                if b > 64 {
                    vstd::arithmetic::power2::lemma_pow2_strictly_increases(64, b);
                }
                lemma_pow2_unfold(64);
                assert(pow2(64) == 0x10000000000000000);
                assert(pow2(63) == 0x8000000000000000);
                if b == 64 {
                    assert(bin_low(64) == pow2(63));
                } else {
                    vstd::arithmetic::power2::lemma_pow2_strictly_increases(63, (b - 1) as nat);
                }
            }
        }
    }
}

fn bin_of(io: u64) -> (r: usize)
    ensures
        r == bin(io as nat),
        r < 65,
{
    let mut rest: u64 = io;
    let mut b: usize = 0;
    proof {
        law_bin_bounds(io as nat);
    }
    while rest > 0
        invariant
            b + bin(rest as nat) == bin(io as nat),
            bin(io as nat) <= 64,
        decreases rest,
    {
        rest = rest / 2;
        b += 1;
    }
    b
}

/// All that is counted.
#[verifier::ext_equal]
pub struct Counters {
    pub reads: OperationStatistics,
    pub upserts: OperationStatistics,
    pub rmw: OperationStatistics,
    pub deletes: OperationStatistics,
    pub copies: OperationStatistics,
    pub cache: CacheStatistics,
    pub index: IndexStatistics,
    pub refresh: u64,
    pub maintenance: u64,
    pub saturated: bool,
    pub complete: bool,
}

impl Counters {
    pub open spec fn of(self, kind: Kind) -> OperationStatistics {
        match kind {
            Kind::Read => self.reads,
            Kind::Upsert => self.upserts,
            Kind::Rmw => self.rmw,
            Kind::Delete => self.deletes,
            Kind::Copy => self.copies,
        }
    }

    pub open spec fn with(self, kind: Kind, stat: OperationStatistics) -> Counters {
        match kind {
            Kind::Read => Counters { reads: stat, ..self },
            Kind::Upsert => Counters { upserts: stat, ..self },
            Kind::Rmw => Counters { rmw: stat, ..self },
            Kind::Delete => Counters { deletes: stat, ..self },
            Kind::Copy => Counters { copies: stat, ..self },
        }
    }

    pub open spec fn is_zero(self) -> bool {
        &&& self.reads.is_zero()
        &&& self.upserts.is_zero()
        &&& self.rmw.is_zero()
        &&& self.deletes.is_zero()
        &&& self.copies.is_zero()
        &&& self.cache == (CacheStatistics {
            lookups: 0,
            hits: 0,
            insertions: 0,
            evictions: 0,
            promotions: 0,
        })
        &&& self.index == (IndexStatistics {
            lookups: 0,
            publication_attempts: 0,
            publication_conflicts: 0,
        })
        &&& self.refresh == 0
        &&& self.maintenance == 0
        &&& !self.saturated
        &&& self.complete
    }

    /// One more request was accepted.
    pub open spec fn accepted(self, kind: Kind) -> Counters {
        let stat = self.of(kind);
        Counters {
            saturated: self.saturated || overflows(stat.accepted, 1),
            ..self.with(
                kind,
                OperationStatistics { accepted: plus(stat.accepted, 1), ..stat },
            )
        }
    }

    pub open spec fn cache_event(self, event: CacheEvent) -> Counters {
        let c = self.cache;
        let (cache, before) = match event {
            CacheEvent::Lookup => (CacheStatistics { lookups: plus(c.lookups, 1), ..c }, c.lookups),
            CacheEvent::Hit => (CacheStatistics { hits: plus(c.hits, 1), ..c }, c.hits),
            CacheEvent::Insert => (
                CacheStatistics { insertions: plus(c.insertions, 1), ..c },
                c.insertions,
            ),
            CacheEvent::Evict => (
                CacheStatistics { evictions: plus(c.evictions, 1), ..c },
                c.evictions,
            ),
            CacheEvent::Promote => (
                CacheStatistics { promotions: plus(c.promotions, 1), ..c },
                c.promotions,
            ),
        };
        Counters { cache, saturated: self.saturated || overflows(before, 1), ..self }
    }

    pub open spec fn index_event(self, event: IndexEvent) -> Counters {
        let c = self.index;
        let (index, before) = match event {
            IndexEvent::Lookup => (IndexStatistics { lookups: plus(c.lookups, 1), ..c }, c.lookups),
            IndexEvent::Publish => (
                IndexStatistics { publication_attempts: plus(c.publication_attempts, 1), ..c },
                c.publication_attempts,
            ),
            IndexEvent::Conflict => (
                IndexStatistics { publication_conflicts: plus(c.publication_conflicts, 1), ..c },
                c.publication_conflicts,
            ),
        };
        Counters { index, saturated: self.saturated || overflows(before, 1), ..self }
    }

    /// Time was spent on maintenance or on refreshing a session.
    pub open spec fn timed(self, maintenance: bool, elapsed: u128) -> Counters {
        let before = if maintenance { self.maintenance } else { self.refresh };
        let saturated = self.saturated || elapsed > u64::MAX || overflows(before, capped(elapsed));
        if maintenance {
            Counters { maintenance: plus(before, capped(elapsed)), saturated, ..self }
        } else {
            Counters { refresh: plus(before, capped(elapsed)), saturated, ..self }
        }
    }
}

/// A request that ended, as it is counted. `waited` is how long it was suspended, if it was.
pub struct Ended {
    pub result: Completed,
    pub waited: Option<u128>,
    pub invalidations: u64,
    pub io: Option<u64>,
}

impl Ended {
    /// The counters of its kind after it ended.
    pub open spec fn counts(self, s: OperationStatistics, r: OperationStatistics) -> bool {
        let failed = self.result is Failed;
        &&& r.accepted == s.accepted
        &&& r.completed == plus(s.completed, 1)
        &&& r.synchronous == (if self.waited is Some { s.synchronous } else { plus(s.synchronous, 1) })
        &&& r.pending_nanoseconds == (match self.waited {
            Some(elapsed) => plus(s.pending_nanoseconds, capped(elapsed)),
            None => s.pending_nanoseconds,
        })
        &&& r.success == (if self.result is Success { plus(s.success, 1) } else { s.success })
        &&& r.not_found == (if self.result is NotFound { plus(s.not_found, 1) } else { s.not_found })
        &&& r.aborted == (if self.result is Aborted { plus(s.aborted, 1) } else { s.aborted })
        &&& r.failed == (if failed { plus(s.failed, 1) } else { s.failed })
        &&& r.failed_after_applied == (if self.result == Completed::Failed(Effect::Applied) {
            plus(s.failed_after_applied, 1)
        } else {
            s.failed_after_applied
        })
        &&& r.failed_with_unknown_effect == (if self.result == Completed::Failed(Effect::Unknown) {
            plus(s.failed_with_unknown_effect, 1)
        } else {
            s.failed_with_unknown_effect
        })
        &&& r.record_invalidations == plus(s.record_invalidations, self.invalidations)
        &&& r.io_completions == (match self.io {
            Some(io) => plus(s.io_completions, io),
            None => s.io_completions,
        })
        &&& r.io_per_request@ == (match self.io {
            Some(io) => s.io_per_request@.update(
                bin(io as nat) as int,
                plus(s.io_per_request@[bin(io as nat) as int], 1),
            ),
            None => s.io_per_request@,
        })
    }

    /// Whether a counter reached its end.
    pub open spec fn saturates(self, s: OperationStatistics) -> bool {
        ||| overflows(s.completed, 1)
        ||| match self.waited {
            Some(elapsed) => elapsed > u64::MAX || overflows(
                s.pending_nanoseconds,
                capped(elapsed),
            ),
            None => overflows(s.synchronous, 1),
        }
        ||| match self.result {
            Completed::Success => overflows(s.success, 1),
            Completed::NotFound => overflows(s.not_found, 1),
            Completed::Aborted => overflows(s.aborted, 1),
            Completed::Failed(effect) => overflows(s.failed, 1) || match effect {
                Effect::Applied => overflows(s.failed_after_applied, 1),
                Effect::Unknown => overflows(s.failed_with_unknown_effect, 1),
                Effect::NotApplied => false,
            },
        }
        ||| overflows(s.record_invalidations, self.invalidations)
        ||| match self.io {
            Some(io) => overflows(s.io_completions, io) || overflows(
                s.io_per_request@[bin(io as nat) as int],
                1,
            ),
            None => false,
        }
    }
}

/// Counts the end of a request.
fn count_end(stat: &mut OperationStatistics, ended: &Ended, saturated: &mut bool)
    ensures
        ended.counts(*old(stat), *final(stat)),
        *final(saturated) == (*old(saturated) || ended.saturates(*old(stat))),
{
    add_to(&mut stat.completed, 1, saturated);
    match ended.waited {
        Some(elapsed) => {
            let duration = nanos(elapsed, saturated);
            add_to(&mut stat.pending_nanoseconds, duration, saturated);
        },
        None => {
            add_to(&mut stat.synchronous, 1, saturated);
        },
    }
    match ended.result {
        Completed::Success => {
            add_to(&mut stat.success, 1, saturated);
        },
        Completed::NotFound => {
            add_to(&mut stat.not_found, 1, saturated);
        },
        Completed::Aborted => {
            add_to(&mut stat.aborted, 1, saturated);
        },
        Completed::Failed(effect) => {
            match effect {
                Effect::Applied => {
                    add_to(&mut stat.failed_after_applied, 1, saturated);
                },
                Effect::Unknown => {
                    add_to(&mut stat.failed_with_unknown_effect, 1, saturated);
                },
                Effect::NotApplied => {},
            }
            add_to(&mut stat.failed, 1, saturated);
        },
    }
    add_to(&mut stat.record_invalidations, ended.invalidations, saturated);
    if let Some(io) = ended.io {
        add_to(&mut stat.io_completions, io, saturated);
        let b = bin_of(io);
        let mut count = stat.io_per_request[b];
        add_to(&mut count, 1, saturated);
        stat.io_per_request[b] = count;
    }
}

/// The place of one tracker. It is free when the tracker and all its monitors are gone.
#[derive(Clone, Copy, Debug, PartialEq, Eq, Structural)]
pub struct TrackerPlace {
    pub held: bool,
    pub monitors: usize,
}

/// A request that did not end, as the metrics know it.
pub struct OpenRequest {
    pub kind: Kind,
    pub sampled: bool,
    /// It was suspended at least once.
    pub waiting: bool,
}

/// All that metrics hold. Monitors are told apart by numbers that exist in proofs only.
#[verifier::ext_equal]
pub struct MetricsModel {
    pub enabled: bool,
    pub counters: Counters,
    /// The requests that did not end, by the numbers of their monitors.
    pub open: Map<int, OpenRequest>,
    /// Those of them that are no copies.
    pub active: Set<int>,
    /// The active ones that are suspended.
    pub pending: Set<int>,
    pub next: int,
    pub trackers: Seq<TrackerPlace>,
    /// The monitors of each tracker.
    pub owned: Seq<Set<int>>,
}

impl MetricsModel {
    /// The sampled requests of a kind that did not end.
    pub open spec fn open_of(self, kind: Kind) -> Set<int> {
        self.open.dom().filter(|id: int| self.open[id].kind == kind && self.open[id].sampled)
    }

    /// Whether the counters of a kind agree with each other, as long as none stopped: each end has
    /// one outcome, and each accepted request ended or is open.
    pub open spec fn balanced(self, kind: Kind) -> bool {
        let stat = self.counters.of(kind);
        &&& stat.outcomes_agree()
        &&& stat.completed + self.open_of(kind).len() == stat.accepted
        &&& self.counters.complete ==> bins_total(stat.io_per_request@) == stat.completed
    }

    /// The active requests are the open ones that are no copies, and the suspended ones are among
    /// them; the counters agree with each other and with the open requests.
    pub open spec fn requests_agree(self) -> bool {
        &&& self.open.dom().finite()
        &&& self.active == self.open.dom().filter(|id: int| !(self.open[id].kind is Copy))
        &&& self.pending == self.active.filter(|id: int| self.open[id].waiting)
        &&& forall|id: int| #[trigger] self.open.dom().contains(id) ==> id < self.next
        &&& !self.counters.saturated ==> {
            &&& forall|kind: Kind| #[trigger] self.balanced(kind)
            &&& !self.counters.complete ==> exists|kind: Kind| #[trigger] self.lacks(kind)
        }
    }

    /// Some ends of a kind are in no bin.
    pub open spec fn lacks(self, kind: Kind) -> bool {
        bins_total(self.counters.of(kind).io_per_request@) < self.counters.of(kind).completed
    }

    /// The requests agree, and every monitor is counted by its tracker.
    pub open spec fn wf(self) -> bool {
        &&& self.requests_agree()
        &&& self.trackers.len() == self.owned.len()
        &&& forall|t: int|
            0 <= t < self.trackers.len() ==> {
                &&& (#[trigger] self.owned[t]).finite()
                &&& self.trackers[t].monitors == self.owned[t].len()
                &&& forall|id: int| #[trigger] self.owned[t].contains(id) ==> id < self.next
            }
    }

    /// The requests still agree where only the sampling, the trackers and other counters changed.
    proof fn lemma_same_requests(self, other: MetricsModel)
        requires
            self.requests_agree(),
            other.open == self.open,
            other.active == self.active,
            other.pending == self.pending,
            other.next == self.next,
            forall|kind: Kind| #[trigger] other.counters.of(kind) == self.counters.of(kind),
            other.counters.complete == self.counters.complete,
            self.counters.saturated ==> other.counters.saturated,
        ensures
            other.requests_agree(),
    {
        if !other.counters.saturated {
            assert forall|kind: Kind| #[trigger] other.balanced(kind) by {
                assert(self.balanced(kind));
                assert(other.counters.of(kind) == self.counters.of(kind));
                assert(other.open_of(kind) =~= self.open_of(kind));
            }
            if !other.counters.complete {
                let kind = choose|kind: Kind| #[trigger] self.lacks(kind);
                assert(other.counters.of(kind) == self.counters.of(kind));
                assert(other.lacks(kind));
            }
        }
    }

    proof fn lemma_accepted(self, kind: Kind, tracker: Option<usize>)
        requires
            self.requests_agree(),
        ensures
            self.accepted(kind, tracker).requests_agree(),
            !self.active.contains(self.next),
            self.active.finite(),
            self.pending.finite(),
            !self.pending.contains(self.next),
    {
        let after = self.accepted(kind, tracker);
        let id = self.next;
        assert(!self.open.dom().contains(id));
        assert(after.open.dom() =~= self.open.dom().insert(id));
        assert(after.active =~= after.open.dom().filter(|i: int| !(after.open[i].kind is Copy)));
        assert(after.pending =~= after.active.filter(|i: int| after.open[i].waiting));
        if !after.counters.saturated {
            assert forall|k: Kind| #[trigger] after.balanced(k) by {
                assert(self.balanced(k));
                if k == kind && self.enabled {
                    assert(after.open_of(k) =~= self.open_of(k).insert(id));
                } else {
                    assert(after.open_of(k) =~= self.open_of(k));
                    assert(after.counters.of(k) == self.counters.of(k));
                }
            }
            if !after.counters.complete {
                let k = choose|k: Kind| #[trigger] self.lacks(k);
                assert(after.lacks(k));
            }
        }
    }

    proof fn lemma_suspended(self, monitor: Monitor)
        requires
            self.requests_agree(),
            monitor.known_to(self),
            !monitor.is_finished(),
            !monitor.is_pending(),
        ensures
            monitor.suspends(self).requests_agree(),
            self.active.finite(),
            self.pending.finite(),
            self.pending.subset_of(self.active),
            !(monitor.spec_kind() is Copy) ==> self.active.contains(monitor.spec_id())
                && !self.pending.contains(monitor.spec_id()),
    {
        let after = monitor.suspends(self);
        let id = monitor.spec_id();
        assert(after.open.dom() =~= self.open.dom());
        assert(after.active =~= after.open.dom().filter(|i: int| !(after.open[i].kind is Copy)));
        assert(after.pending =~= after.active.filter(|i: int| after.open[i].waiting));
        if !after.counters.saturated {
            assert forall|k: Kind| #[trigger] after.balanced(k) by {
                assert(self.balanced(k));
                assert(after.open_of(k) =~= self.open_of(k));
            }
            if !after.counters.complete {
                let k = choose|k: Kind| #[trigger] self.lacks(k);
                assert(after.lacks(k));
            }
        }
    }

    /// An open request is counted as active, and as suspended, by what it is.
    proof fn lemma_open(self, monitor: Monitor)
        requires
            self.requests_agree(),
            monitor.known_to(self),
            !monitor.is_finished(),
        ensures
            self.active.finite(),
            self.pending.finite(),
            self.pending.subset_of(self.active),
            !(monitor.spec_kind() is Copy) ==> self.active.contains(monitor.spec_id())
                && self.pending.contains(monitor.spec_id()) == monitor.is_pending(),
    {
    }

    proof fn lemma_ended(
        self,
        monitor: Monitor,
        result: Completed,
        io: Option<u64>,
        elapsed: u128,
        after: MetricsModel,
    )
        requires
            self.requests_agree(),
            monitor.known_to(self),
            !monitor.is_finished(),
            monitor.ends(self, result, io, elapsed, after),
        ensures
            after.requests_agree(),
    {
        let id = monitor.spec_id();
        let kind = monitor.spec_kind();
        assert(after.open.dom() =~= self.open.dom().remove(id));
        assert(after.active =~= after.open.dom().filter(|i: int| !(after.open[i].kind is Copy)));
        assert(after.pending =~= after.active.filter(|i: int| after.open[i].waiting));
        if !after.counters.saturated {
            let stat = self.counters.of(kind);
            if let Some(io) = io {
                if monitor.is_sampled() {
                    law_bin_bounds(io as nat);
                    let b = bin(io as nat) as int;
                    lemma_bins_update(stat.io_per_request@, b, plus(stat.io_per_request@[b], 1));
                }
            }
            assert forall|k: Kind| #[trigger] after.balanced(k) by {
                assert(self.balanced(k));
                if k == kind && monitor.is_sampled() {
                    assert(self.open_of(k).contains(id));
                    assert(after.open_of(k) =~= self.open_of(k).remove(id));
                } else {
                    assert(after.open_of(k) =~= self.open_of(k));
                    assert(after.counters.of(k) == self.counters.of(k));
                }
            }
            if !after.counters.complete {
                if monitor.is_sampled() && io is None {
                    assert(self.balanced(kind));
                    assert(after.lacks(kind));
                } else {
                    let k = choose|k: Kind| #[trigger] self.lacks(k);
                    assert(after.lacks(k));
                }
            }
        }
    }

    /// The metrics after a monitor is gone.
    pub open spec fn left(self, tracker: Option<usize>, id: int) -> MetricsModel {
        match tracker {
            Some(t) => MetricsModel {
                trackers: self.trackers.update(
                    t as int,
                    TrackerPlace {
                        monitors: (self.trackers[t as int].monitors - 1) as usize,
                        ..self.trackers[t as int]
                    },
                ),
                owned: self.owned.update(t as int, self.owned[t as int].remove(id)),
                ..self
            },
            None => self,
        }
    }

    pub open spec fn free(self, t: int) -> bool {
        0 <= t < self.trackers.len() && !self.trackers[t].held && self.trackers[t].monitors == 0
    }

    /// The metrics after a request was accepted.
    pub open spec fn accepted(self, kind: Kind, tracker: Option<usize>) -> MetricsModel {
        MetricsModel {
            counters: if self.enabled {
                self.counters.accepted(kind)
            } else {
                self.counters
            },
            open: self.open.insert(
                self.next,
                OpenRequest { kind, sampled: self.enabled, waiting: false },
            ),
            active: if kind is Copy {
                self.active
            } else {
                self.active.insert(self.next)
            },
            next: self.next + 1,
            trackers: match tracker {
                Some(t) => self.trackers.update(
                    t as int,
                    TrackerPlace {
                        monitors: (self.trackers[t as int].monitors + 1) as usize,
                        ..self.trackers[t as int]
                    },
                ),
                None => self.trackers,
            },
            owned: match tracker {
                Some(t) => self.owned.update(t as int, self.owned[t as int].insert(self.next)),
                None => self.owned,
            },
            ..self
        }
    }
}

pub struct Metrics {
    enabled: bool,
    active: usize,
    pending: usize,
    reads: OperationStatistics,
    upserts: OperationStatistics,
    rmw: OperationStatistics,
    deletes: OperationStatistics,
    copies: OperationStatistics,
    cache: CacheStatistics,
    index: IndexStatistics,
    refresh: u64,
    maintenance: u64,
    saturated: bool,
    complete: bool,
    trackers: Vec<TrackerPlace>,
    open: Ghost<Map<int, OpenRequest>>,
    active_ids: Ghost<Set<int>>,
    pending_ids: Ghost<Set<int>>,
    next_id: Ghost<int>,
    owned: Ghost<Seq<Set<int>>>,
}

/// Counts the requests of one session, until it is given to [`Tracker::release`]. Dropping it changes
/// nothing.
pub struct Tracker {
    slot: usize,
}

/// Follows one request from acceptance to its end. It is given to [`Monitor::abandon`] when it is no
/// longer needed; dropping it changes nothing.
pub struct Monitor {
    kind: Kind,
    sampled: bool,
    pending: Option<Instant>,
    finished: bool,
    pub invalidations: u64,
    saturated: bool,
    tracker: Option<usize>,
    id: Ghost<int>,
}

/// Measures the time of a refresh or of a maintenance step, until it is given to [`Timer::stop`].
/// Dropping it changes nothing.
pub struct Timer {
    start: Option<Instant>,
    maintenance: bool,
}

impl Metrics {
    pub closed spec fn counters(self) -> Counters {
        Counters {
            reads: self.reads,
            upserts: self.upserts,
            rmw: self.rmw,
            deletes: self.deletes,
            copies: self.copies,
            cache: self.cache,
            index: self.index,
            refresh: self.refresh,
            maintenance: self.maintenance,
            saturated: self.saturated,
            complete: self.complete,
        }
    }

    pub closed spec fn view(self) -> MetricsModel {
        MetricsModel {
            enabled: self.enabled,
            counters: self.counters(),
            open: self.open@,
            active: self.active_ids@,
            pending: self.pending_ids@,
            next: self.next_id@,
            trackers: self.trackers@,
            owned: self.owned@,
        }
    }

    pub closed spec fn wf(self) -> bool {
        &&& self@.wf()
        &&& self.active == self.active_ids@.len()
        &&& self.pending == self.pending_ids@.len()
    }

    pub fn new(enabled: bool) -> (r: Metrics)
        ensures
            r.wf(),
            r@.enabled == enabled,
            r@.counters.is_zero(),
            r@.open == Map::<int, OpenRequest>::empty(),
            r@.active == Set::<int>::empty(),
            r@.pending == Set::<int>::empty(),
            r@.trackers.len() == 0,
    {
        let r = Metrics {
            enabled,
            active: 0,
            pending: 0,
            reads: OperationStatistics::default(),
            upserts: OperationStatistics::default(),
            rmw: OperationStatistics::default(),
            deletes: OperationStatistics::default(),
            copies: OperationStatistics::default(),
            cache: CacheStatistics::default(),
            index: IndexStatistics::default(),
            refresh: 0,
            maintenance: 0,
            saturated: false,
            complete: true,
            trackers: Vec::new(),
            open: Ghost(Map::empty()),
            active_ids: Ghost(Set::empty()),
            pending_ids: Ghost(Set::empty()),
            next_id: Ghost(0),
            owned: Ghost(Seq::empty()),
        };
        proof {
            assert(r@.active =~= r@.open.dom().filter(|id: int| !(r@.open[id].kind is Copy)));
            assert(r@.pending =~= r@.active.filter(|id: int| r@.open[id].waiting));
            assert forall|kind: Kind| #[trigger] r@.balanced(kind) by {
                assert(r@.open_of(kind) =~= Set::<int>::empty());
                lemma_bins_empty(r@.counters.of(kind).io_per_request@);
            }
        }
        r
    }

    /// What holds of all metrics holds of what they stand for.
    pub proof fn lemma_model(self)
        requires
            self.wf(),
        ensures
            self@.wf(),
    {
    }

    /// Whether requests that are accepted from now on are sampled.
    pub fn enable(&mut self, enabled: bool)
        requires
            old(self).wf(),
        ensures
            final(self).wf(),
            final(self)@ == (MetricsModel { enabled, ..old(self)@ }),
    {
        self.enabled = enabled;
        proof {
            old(self)@.lemma_same_requests(self@);
        }
    }

    pub fn snapshot(&self) -> (r: Statistics)
        ensures
            r == (Statistics {
                enabled: self@.enabled,
                reads: self@.counters.reads,
                upserts: self@.counters.upserts,
                rmw: self@.counters.rmw,
                deletes: self@.counters.deletes,
                conditional_copies: self@.counters.copies,
                cache: self@.counters.cache,
                index: self@.counters.index,
                refresh_nanoseconds: self@.counters.refresh,
                maintenance_nanoseconds: self@.counters.maintenance,
                saturated: self@.counters.saturated,
                measurements_complete: self@.counters.complete,
            }),
    {
        Statistics {
            enabled: self.enabled,
            reads: self.reads.copied(),
            upserts: self.upserts.copied(),
            rmw: self.rmw.copied(),
            deletes: self.deletes.copied(),
            conditional_copies: self.copies.copied(),
            cache: self.cache,
            index: self.index,
            refresh_nanoseconds: self.refresh,
            maintenance_nanoseconds: self.maintenance,
            saturated: self.saturated,
            measurements_complete: self.complete,
        }
    }

    /// How many requests did not end, and how many of them are suspended. It is busy only where
    /// more were seen to be suspended than active, which no state of its own shows.
    pub fn activity(&self) -> (r: Result<(usize, usize), Error>)
        requires
            self.wf(),
        ensures
            r matches Ok((active, pending)) && active == self@.active.len() && pending
                == self@.pending.len() && pending <= active,
    {
        proof {
            law_activity(self@);
        }
        if self.pending <= self.active {
            Ok((self.active, self.pending))
        } else {
            Err(Error::Busy)
        }
    }

    fn statistics_mut(&mut self, kind: Kind) -> (r: &mut OperationStatistics)
        ensures
            *r == old(self)@.counters.of(kind),
            final(self).active == old(self).active,
            final(self).pending == old(self).pending,
            final(self)@ == (MetricsModel {
                counters: old(self)@.counters.with(kind, *final(r)),
                ..old(self)@
            }),
    {
        match kind {
            Kind::Read => &mut self.reads,
            Kind::Upsert => &mut self.upserts,
            Kind::Rmw => &mut self.rmw,
            Kind::Delete => &mut self.deletes,
            Kind::Copy => &mut self.copies,
        }
    }

    fn accept_for(&mut self, kind: Kind, tracker: Option<usize>) -> (r: Monitor)
        requires
            old(self).wf(),
            old(self)@.active.len() < usize::MAX,
            tracker matches Some(t) ==> t < old(self)@.trackers.len() && old(
                self,
            )@.trackers[t as int].monitors < usize::MAX,
        ensures
            final(self).wf(),
            final(self)@ == old(self)@.accepted(kind, tracker),
            r.starts(kind, tracker, old(self)@),
            r.known_to(final(self)@),
    {
        let sampled = self.enabled;
        if sampled {
            let mut saturated = self.saturated;
            let stat = self.statistics_mut(kind);
            add_to(&mut stat.accepted, 1, &mut saturated);
            self.saturated = saturated;
        }
        match kind {
            Kind::Copy => {},
            _ => {
                self.active = self.active + 1;
                self.active_ids = Ghost(self.active_ids@.insert(self.next_id@));
            },
        }
        if let Some(t) = tracker {
            let place = self.trackers[t];
            self.trackers.set(t, TrackerPlace { held: place.held, monitors: place.monitors + 1 });
            self.owned = Ghost(
                self.owned@.update(t as int, self.owned@[t as int].insert(self.next_id@)),
            );
            assert(!old(self)@.owned[t as int].contains(old(self)@.next));
        }
        let ghost id = self.next_id@;
        self.open = Ghost(
            self.open@.insert(id, OpenRequest { kind, sampled, waiting: false }),
        );
        self.next_id = Ghost(self.next_id@ + 1);
        proof {
            old(self)@.lemma_accepted(kind, tracker);
            assert(!old(self)@.active.contains(id));
            assert(self@ =~= old(self)@.accepted(kind, tracker));
            assert forall|t: int| 0 <= t < self@.trackers.len() implies {
                &&& (#[trigger] self@.owned[t]).finite()
                &&& self@.trackers[t].monitors == self@.owned[t].len()
                &&& forall|id: int| #[trigger] self@.owned[t].contains(id) ==> id < self@.next
            } by {
                assert(old(self)@.owned[t].finite());
            }
        }
        Monitor {
            kind,
            sampled,
            pending: None,
            finished: false,
            invalidations: 0,
            saturated: false,
            tracker,
            id: Ghost(id),
        }
    }

    /// Accepts a request.
    pub fn accept(&mut self, kind: Kind) -> (r: Monitor)
        requires
            old(self).wf(),
            old(self)@.active.len() < usize::MAX,
        ensures
            final(self).wf(),
            final(self)@ == old(self)@.accepted(kind, None),
            r.starts(kind, None, old(self)@),
            r.known_to(final(self)@),
    {
        self.accept_for(kind, None)
    }

    /// Counts something that the cache did.
    pub fn cache(&mut self, event: CacheEvent)
        requires
            old(self).wf(),
        ensures
            final(self).wf(),
            final(self)@ == (if old(self)@.enabled {
                MetricsModel { counters: old(self)@.counters.cache_event(event), ..old(self)@ }
            } else {
                old(self)@
            }),
    {
        if !self.enabled {
            return;
        }
        match event {
            CacheEvent::Lookup => {
                add_to(&mut self.cache.lookups, 1, &mut self.saturated);
            },
            CacheEvent::Hit => {
                add_to(&mut self.cache.hits, 1, &mut self.saturated);
            },
            CacheEvent::Insert => {
                add_to(&mut self.cache.insertions, 1, &mut self.saturated);
            },
            CacheEvent::Evict => {
                add_to(&mut self.cache.evictions, 1, &mut self.saturated);
            },
            CacheEvent::Promote => {
                add_to(&mut self.cache.promotions, 1, &mut self.saturated);
            },
        }
        proof {
            old(self)@.lemma_same_requests(self@);
        }
    }

    /// Counts something that the index did.
    pub fn index(&mut self, event: IndexEvent)
        requires
            old(self).wf(),
        ensures
            final(self).wf(),
            final(self)@ == (if old(self)@.enabled {
                MetricsModel { counters: old(self)@.counters.index_event(event), ..old(self)@ }
            } else {
                old(self)@
            }),
    {
        if !self.enabled {
            return;
        }
        match event {
            IndexEvent::Lookup => {
                add_to(&mut self.index.lookups, 1, &mut self.saturated);
            },
            IndexEvent::Publish => {
                add_to(&mut self.index.publication_attempts, 1, &mut self.saturated);
            },
            IndexEvent::Conflict => {
                add_to(&mut self.index.publication_conflicts, 1, &mut self.saturated);
            },
        }
        proof {
            old(self)@.lemma_same_requests(self@);
        }
    }

    /// Starts to measure time, if requests are sampled now.
    pub fn timer(&self, maintenance: bool) -> (r: Timer)
        ensures
            r.is_running() == self@.enabled,
            r.for_maintenance() == maintenance,
    {
        let start = if self.enabled {
            Some(now())
        } else {
            None
        };
        Timer { start, maintenance }
    }

    /// Adds a measured time.
    pub fn record_time(&mut self, maintenance: bool, elapsed: u128)
        requires
            old(self).wf(),
        ensures
            final(self).wf(),
            final(self)@ == (MetricsModel {
                counters: old(self)@.counters.timed(maintenance, elapsed),
                ..old(self)@
            }),
    {
        let duration = nanos(elapsed, &mut self.saturated);
        if maintenance {
            add_to(&mut self.maintenance, duration, &mut self.saturated);
        } else {
            add_to(&mut self.refresh, duration, &mut self.saturated);
        }
        proof {
            old(self)@.lemma_same_requests(self@);
        }
    }

    /// Registers a tracker in the first place that is free, or in a new one. `memory` says whether
    /// there is room for a new one.
    pub fn register_from(&mut self, memory: Memory) -> (r: Result<Tracker, Error>)
        requires
            old(self).wf(),
        ensures
            final(self).wf(),
            match r {
                Ok(tracker) => {
                    let t = tracker.spec_slot();
                    &&& tracker.known_to(final(self)@)
                    &&& if t < old(self)@.trackers.len() {
                        &&& old(self)@.free(t)
                        &&& forall|u: int| 0 <= u < t ==> !(#[trigger] old(self)@.free(u))
                        &&& final(self)@ == (MetricsModel {
                            trackers: old(self)@.trackers.update(
                                t,
                                TrackerPlace { held: true, monitors: 0 },
                            ),
                            ..old(self)@
                        })
                    } else {
                        &&& t == old(self)@.trackers.len()
                        &&& !(memory is Refused)
                        &&& forall|u: int| !(#[trigger] old(self)@.free(u))
                        &&& final(self)@ == (MetricsModel {
                            trackers: old(self)@.trackers.push(
                                TrackerPlace { held: true, monitors: 0 },
                            ),
                            owned: old(self)@.owned.push(Set::empty()),
                            ..old(self)@
                        })
                    }
                },
                Err(error) => {
                    &&& error == Error::OutOfMemory
                    &&& !(memory is Granted)
                    &&& forall|u: int| !(#[trigger] old(self)@.free(u))
                    &&& final(self)@ == old(self)@
                },
            },
    {
        let mut t: usize = 0;
        while t < self.trackers.len() && (self.trackers[t].held || self.trackers[t].monitors > 0)
            invariant
                t <= self.trackers@.len(),
                *self == *old(self),
                forall|u: int| 0 <= u < t ==> !(#[trigger] self@.free(u)),
            decreases self.trackers@.len() - t,
        {
            t += 1;
        }
        if t < self.trackers.len() {
            assert(self@.free(t as int));
            assert(self@.owned[t as int].len() == 0);
            self.trackers.set(t, TrackerPlace { held: true, monitors: 0 });
            proof {
                old(self)@.lemma_same_requests(self@);
            }
            return Ok(Tracker { slot: t });
        }
        if !reserve(&mut self.trackers, 1, memory) {
            return Err(Error::OutOfMemory);
        }
        self.trackers.push(TrackerPlace { held: true, monitors: 0 });
        self.owned = Ghost(self.owned@.push(Set::empty()));
        proof {
            old(self)@.lemma_same_requests(self@);
        }
        assert forall|u: int| 0 <= u < self@.trackers.len() implies {
            &&& (#[trigger] self@.owned[u]).finite()
            &&& self@.trackers[u].monitors == self@.owned[u].len()
            &&& forall|id: int| #[trigger] self@.owned[u].contains(id) ==> id < self@.next
        } by {
            if u < old(self)@.trackers.len() {
                assert(old(self)@.owned[u].finite());
            }
        }
        Ok(Tracker { slot: t })
    }

    /// Registers a tracker in the first place that is free, or in a new one, for which the
    /// allocator has to have room.
    pub fn register(&mut self) -> (r: Result<Tracker, Error>)
        requires
            old(self).wf(),
        ensures
            final(self).wf(),
            match r {
                Ok(tracker) => {
                    let t = tracker.spec_slot();
                    &&& tracker.known_to(final(self)@)
                    &&& if t < old(self)@.trackers.len() {
                        &&& old(self)@.free(t)
                        &&& forall|u: int| 0 <= u < t ==> !(#[trigger] old(self)@.free(u))
                        &&& final(self)@ == (MetricsModel {
                            trackers: old(self)@.trackers.update(
                                t,
                                TrackerPlace { held: true, monitors: 0 },
                            ),
                            ..old(self)@
                        })
                    } else {
                        &&& t == old(self)@.trackers.len()
                        &&& forall|u: int| !(#[trigger] old(self)@.free(u))
                        &&& final(self)@ == (MetricsModel {
                            trackers: old(self)@.trackers.push(
                                TrackerPlace { held: true, monitors: 0 },
                            ),
                            owned: old(self)@.owned.push(Set::empty()),
                            ..old(self)@
                        })
                    }
                },
                Err(error) => {
                    &&& error == Error::OutOfMemory
                    &&& forall|u: int| !(#[trigger] old(self)@.free(u))
                    &&& final(self)@ == old(self)@
                },
            },
    {
        self.register_from(Memory::Allocator)
    }

    /// How many places for trackers there are, free ones among them.
    pub fn tracker_places(&self) -> (r: usize)
        ensures
            r == self@.trackers.len(),
    {
        self.trackers.len()
    }

    /// Whether a tracker or one of its monitors is still there.
    pub fn is_tracked(&self, slot: usize) -> (r: bool)
        ensures
            r == (slot < self@.trackers.len() && !self@.free(slot as int)),
    {
        slot < self.trackers.len() && (self.trackers[slot].held || self.trackers[slot].monitors > 0)
    }
}

impl Tracker {
    pub closed spec fn spec_slot(self) -> int {
        self.slot as int
    }

    pub open spec fn known_to(self, metrics: MetricsModel) -> bool {
        0 <= self.spec_slot() < metrics.trackers.len() && metrics.trackers[self.spec_slot()].held
    }

    pub fn slot(&self) -> (r: usize)
        ensures
            r == self.spec_slot(),
    {
        self.slot
    }

    /// Accepts a request of this tracker.
    pub fn accept(&self, metrics: &mut Metrics, kind: Kind) -> (r: Monitor)
        requires
            old(metrics).wf(),
            self.known_to(old(metrics)@),
            old(metrics)@.active.len() < usize::MAX,
            old(metrics)@.trackers[self.spec_slot()].monitors < usize::MAX,
        ensures
            final(metrics).wf(),
            self.known_to(final(metrics)@),
            final(metrics)@ == old(metrics)@.accepted(kind, Some(self.spec_slot() as usize)),
            r.starts(kind, Some(self.spec_slot() as usize), old(metrics)@),
            r.known_to(final(metrics)@),
    {
        metrics.accept_for(kind, Some(self.slot))
    }

    /// Ends the tracker. Its place is free again when its monitors are gone too.
    pub fn release(self, metrics: &mut Metrics)
        requires
            old(metrics).wf(),
            self.known_to(old(metrics)@),
        ensures
            final(metrics).wf(),
            final(metrics)@ == (MetricsModel {
                trackers: old(metrics)@.trackers.update(
                    self.spec_slot(),
                    TrackerPlace { held: false, ..old(metrics)@.trackers[self.spec_slot()] },
                ),
                ..old(metrics)@
            }),
    {
        let place = metrics.trackers[self.slot];
        metrics.trackers.set(self.slot, TrackerPlace { held: false, monitors: place.monitors });
        proof {
            old(metrics)@.lemma_same_requests(metrics@);
        }
        assert forall|t: int| 0 <= t < metrics@.trackers.len() implies {
            &&& (#[trigger] metrics@.owned[t]).finite()
            &&& metrics@.trackers[t].monitors == metrics@.owned[t].len()
            &&& forall|id: int| #[trigger] metrics@.owned[t].contains(id) ==> id < metrics@.next
        } by {
            assert(old(metrics)@.owned[t].finite());
        }
    }
}

impl Timer {
    pub closed spec fn is_running(self) -> bool {
        self.start is Some
    }

    pub closed spec fn for_maintenance(self) -> bool {
        self.maintenance
    }

    /// Stops and adds the time that passed.
    pub fn stop(self, metrics: &mut Metrics)
        requires
            old(metrics).wf(),
        ensures
            final(metrics).wf(),
            !self.is_running() ==> final(metrics)@ == old(metrics)@,
            self.is_running() ==> exists|elapsed: u128| final(metrics)@ == (MetricsModel {
                counters: #[trigger] old(metrics)@.counters.timed(self.for_maintenance(), elapsed),
                ..old(metrics)@
            }),
    {
        if let Some(start) = &self.start {
            let elapsed = elapsed_since(start);
            metrics.record_time(self.maintenance, elapsed);
            assert(metrics@ == (MetricsModel {
                counters: old(metrics)@.counters.timed(self.for_maintenance(), elapsed),
                ..old(metrics)@
            }));
        }
    }
}

impl Monitor {
    pub closed spec fn spec_kind(self) -> Kind {
        self.kind
    }

    pub closed spec fn is_sampled(self) -> bool {
        self.sampled
    }

    pub closed spec fn is_pending(self) -> bool {
        self.pending is Some
    }

    pub closed spec fn is_finished(self) -> bool {
        self.finished
    }

    pub closed spec fn is_saturated(self) -> bool {
        self.saturated
    }

    /// How many records were taken back.
    pub closed spec fn taken_back(self) -> u64 {
        self.invalidations
    }

    pub closed spec fn spec_tracker(self) -> Option<usize> {
        self.tracker
    }

    pub closed spec fn spec_id(self) -> int {
        self.id@
    }

    /// A monitor that was just made. Whether it is sampled is fixed now.
    pub open spec fn starts(self, kind: Kind, tracker: Option<usize>, metrics: MetricsModel) -> bool {
        &&& self.spec_kind() == kind
        &&& self.is_sampled() == metrics.enabled
        &&& !self.is_pending()
        &&& !self.is_finished()
        &&& self.taken_back() == 0
        &&& !self.is_saturated()
        &&& self.spec_tracker() == tracker
        &&& self.spec_id() == metrics.next
    }

    /// The request as the metrics know it while it is open.
    pub open spec fn opened(self) -> OpenRequest {
        OpenRequest {
            kind: self.spec_kind(),
            sampled: self.is_sampled(),
            waiting: self.is_pending(),
        }
    }

    /// Whether the metrics count this monitor as it is.
    pub open spec fn known_to(self, metrics: MetricsModel) -> bool {
        &&& self.spec_id() < metrics.next
        &&& !self.is_finished() ==> {
            &&& metrics.open.dom().contains(self.spec_id())
            &&& metrics.open[self.spec_id()] == self.opened()
        }
        &&& self.spec_tracker() matches Some(t) ==> {
            &&& t < metrics.trackers.len()
            &&& metrics.owned[t as int].contains(self.spec_id())
        }
    }

    pub fn sampled(&self) -> (r: bool)
        ensures
            r == self.is_sampled(),
    {
        self.sampled
    }

    /// The metrics once the request is suspended. Only the first time counts, and a copy is not
    /// counted among the waiting requests.
    pub open spec fn suspends(self, before: MetricsModel) -> MetricsModel {
        if self.is_pending() || self.is_finished() {
            before
        } else {
            MetricsModel {
                open: before.open.insert(
                    self.spec_id(),
                    OpenRequest { waiting: true, ..self.opened() },
                ),
                pending: if self.spec_kind() is Copy {
                    before.pending
                } else {
                    before.pending.insert(self.spec_id())
                },
                ..before
            }
        }
    }

    /// The monitor of the same request, suspended unless it has ended.
    pub open spec fn suspended_as(self, after: Monitor) -> bool {
        &&& after.spec_kind() == self.spec_kind()
        &&& after.is_sampled() == self.is_sampled()
        &&& after.is_finished() == self.is_finished()
        &&& after.taken_back() == self.taken_back()
        &&& after.is_saturated() == self.is_saturated()
        &&& after.spec_tracker() == self.spec_tracker()
        &&& after.spec_id() == self.spec_id()
        &&& after.is_pending() == (self.is_pending() || !self.is_finished())
    }

    /// The request is suspended.
    pub fn pending(&mut self, metrics: &mut Metrics)
        requires
            old(metrics).wf(),
            old(self).known_to(old(metrics)@),
        ensures
            final(metrics).wf(),
            final(self).known_to(final(metrics)@),
            old(self).suspended_as(*final(self)),
            final(metrics)@ == old(self).suspends(old(metrics)@),
    {
        if self.pending.is_none() && !self.finished {
            proof {
                metrics@.lemma_suspended(*self);
            }
            self.pending = Some(now());
            metrics.open = Ghost(metrics.open@.insert(self.id@, self.opened()));
            match self.kind {
                Kind::Copy => {},
                _ => {
                    proof {
                        let more = metrics.pending_ids@.insert(self.id@);
                        vstd::set_lib::lemma_len_subset(more, metrics.active_ids@);
                    }
                    metrics.pending = metrics.pending + 1;
                    metrics.pending_ids = Ghost(metrics.pending_ids@.insert(self.id@));
                },
            }
        }
    }

    /// The monitor of the same request, of which one more record was taken back.
    pub open spec fn invalidated_as(self, after: Monitor) -> bool {
        &&& after.taken_back() == plus(self.taken_back(), 1)
        &&& after.is_saturated() == (self.is_saturated() || overflows(self.taken_back(), 1))
        &&& after.spec_kind() == self.spec_kind()
        &&& after.is_sampled() == self.is_sampled()
        &&& after.is_pending() == self.is_pending()
        &&& after.is_finished() == self.is_finished()
        &&& after.spec_tracker() == self.spec_tracker()
        &&& after.spec_id() == self.spec_id()
    }

    /// A record that the request made was taken back.
    pub fn invalidate(&mut self)
        ensures
            old(self).invalidated_as(*final(self)),
    {
        add_to(&mut self.invalidations, 1, &mut self.saturated);
    }

    /// What the end of the request makes of the metrics.
    pub open spec fn ends(
        self,
        before: MetricsModel,
        result: Completed,
        io: Option<u64>,
        elapsed: u128,
        after: MetricsModel,
    ) -> bool {
        let ended = Ended {
            result,
            waited: if self.is_pending() { Some(elapsed) } else { None },
            invalidations: self.taken_back(),
            io,
        };
        let stat = before.counters.of(self.spec_kind());
        let counted = after.counters.of(self.spec_kind());
        &&& after == (MetricsModel {
            open: before.open.remove(self.spec_id()),
            active: if self.spec_kind() is Copy {
                before.active
            } else {
                before.active.remove(self.spec_id())
            },
            pending: if self.spec_kind() is Copy {
                before.pending
            } else {
                before.pending.remove(self.spec_id())
            },
            counters: after.counters,
            ..before
        })
        &&& !self.is_sampled() ==> after.counters == before.counters
        &&& self.is_sampled() ==> {
            &&& ended.counts(stat, counted)
            &&& after.counters == (Counters {
                saturated: before.counters.saturated || self.is_saturated() || ended.saturates(stat),
                complete: before.counters.complete && io is Some,
                ..before.counters.with(self.spec_kind(), counted)
            })
        }
    }

    /// What the end of the request, some time after it was suspended if it was, makes of the
    /// metrics. Only the first end counts.
    pub open spec fn finishes(
        self,
        before: MetricsModel,
        result: Completed,
        io: Option<u64>,
        after: MetricsModel,
    ) -> bool {
        if self.is_finished() {
            after == before
        } else {
            exists|elapsed: u128| #[trigger] self.ends(before, result, io, elapsed, after)
        }
    }

    /// The monitor of the same request, ended.
    pub open spec fn finished_as(self, after: Monitor) -> bool {
        &&& after.is_finished()
        &&& after.spec_kind() == self.spec_kind()
        &&& after.is_sampled() == self.is_sampled()
        &&& after.is_pending() == self.is_pending()
        &&& after.taken_back() == self.taken_back()
        &&& after.is_saturated() == self.is_saturated()
        &&& after.spec_tracker() == self.spec_tracker()
        &&& after.spec_id() == self.spec_id()
    }

    /// Ends the request, after it was suspended for `elapsed` nanoseconds if it was. Only the first
    /// end counts. `io` is how many completions the device had for it, where that is known.
    pub fn finish_after(
        &mut self,
        metrics: &mut Metrics,
        result: Completed,
        io: Option<u64>,
        elapsed: u128,
    )
        requires
            old(metrics).wf(),
            old(self).known_to(old(metrics)@),
        ensures
            final(metrics).wf(),
            final(self).known_to(final(metrics)@),
            old(self).finished_as(*final(self)),
            if old(self).is_finished() {
                final(metrics)@ == old(metrics)@
            } else {
                old(self).ends(old(metrics)@, result, io, elapsed, final(metrics)@)
            },
    {
        if self.finished {
            return;
        }
        proof {
            metrics@.lemma_open(*self);
        }
        self.finished = true;
        metrics.open = Ghost(metrics.open@.remove(self.id@));
        match self.kind {
            Kind::Copy => {},
            _ => {
                if self.pending.is_some() {
                    proof {
                        if metrics.pending_ids@.len() == 0 {
                            assert(metrics.pending_ids@ =~= Set::<int>::empty());
                        }
                    }
                    metrics.pending = metrics.pending - 1;
                }
                proof {
                    if metrics.active_ids@.len() == 0 {
                        assert(metrics.active_ids@ =~= Set::<int>::empty());
                    }
                    if !self.is_pending() {
                        assert(metrics.pending_ids@.remove(self.id@) =~= metrics.pending_ids@);
                    }
                }
                metrics.active = metrics.active - 1;
                metrics.active_ids = Ghost(metrics.active_ids@.remove(self.id@));
                metrics.pending_ids = Ghost(metrics.pending_ids@.remove(self.id@));
            },
        }
        if !self.sampled {
            proof {
                old(metrics)@.lemma_ended(*old(self), result, io, elapsed, metrics@);
            }
            return;
        }
        let waited = if self.pending.is_some() {
            Some(elapsed)
        } else {
            None
        };
        let ended = Ended { result, waited, invalidations: self.invalidations, io };
        metrics.complete = metrics.complete && io.is_some();
        let mut saturated = metrics.saturated || self.saturated;
        let stat = metrics.statistics_mut(self.kind);
        count_end(stat, &ended, &mut saturated);
        metrics.saturated = saturated;
        proof {
            old(metrics)@.lemma_ended(*old(self), result, io, elapsed, metrics@);
        }
    }

    /// Ends the request now.
    pub fn finish(&mut self, metrics: &mut Metrics, result: Completed, io: Option<u64>)
        requires
            old(metrics).wf(),
            old(self).known_to(old(metrics)@),
        ensures
            final(metrics).wf(),
            final(self).known_to(final(metrics)@),
            old(self).finished_as(*final(self)),
            old(self).finishes(old(metrics)@, result, io, final(metrics)@),
    {
        let elapsed: u128 = match &self.pending {
            Some(start) => elapsed_since(start),
            None => 0,
        };
        self.finish_after(metrics, result, io, elapsed);
    }

    /// Gives the monitor up: a request that did not end failed with an unknown effect.
    pub fn abandon(self, metrics: &mut Metrics)
        requires
            old(metrics).wf(),
            self.known_to(old(metrics)@),
        ensures
            final(metrics).wf(),
            exists|mid: MetricsModel|
                {
                    &&& self.finishes(
                        old(metrics)@,
                        Completed::Failed(Effect::Unknown),
                        None,
                        mid,
                    )
                    &&& final(metrics)@ == #[trigger] mid.left(self.spec_tracker(), self.spec_id())
                },
    {
        let mut monitor = self;
        monitor.finish(metrics, Completed::Failed(Effect::Unknown), None);
        let ghost mid = metrics@;
        if let Some(t) = monitor.tracker {
            let place = metrics.trackers[t];
            let ghost before = metrics.owned@[t as int];
            proof {
                if before.len() == 0 {
                    assert(before =~= Set::<int>::empty());
                }
            }
            metrics.trackers.set(
                t,
                TrackerPlace { held: place.held, monitors: place.monitors - 1 },
            );
            metrics.owned = Ghost(metrics.owned@.update(t as int, before.remove(monitor.id@)));
            assert forall|u: int| 0 <= u < metrics@.trackers.len() implies {
                &&& (#[trigger] metrics@.owned[u]).finite()
                &&& metrics@.trackers[u].monitors == metrics@.owned[u].len()
                &&& forall|id: int| #[trigger] metrics@.owned[u].contains(id) ==> id < metrics@.next
            } by {
                assert(mid.owned[u].finite());
            }
        }
        proof {
            mid.lemma_same_requests(metrics@);
        }
        assert(metrics@ =~= mid.left(self.spec_tracker(), self.spec_id()));
    }
}

/// The numbers of active and of suspended requests say what was accepted and did not end, whatever
/// was sampled: the active ones are the open reads, upserts, modifications and deletes, the suspended
/// ones those of them that were suspended, and copies count among neither.
pub proof fn law_activity(metrics: MetricsModel)
    requires
        metrics.wf(),
    ensures
        metrics.active.finite(),
        metrics.pending.finite(),
        metrics.pending.len() <= metrics.active.len(),
        forall|id: int| #[trigger]
            metrics.active.contains(id) <==> metrics.open.dom().contains(id) && !(
            metrics.open[id].kind is Copy),
        forall|id: int| #[trigger]
            metrics.pending.contains(id) <==> metrics.active.contains(id)
                && metrics.open[id].waiting,
{
    vstd::set_lib::lemma_len_subset(metrics.pending, metrics.active);
}

/// What the counters of each kind say of a whole history, as long as none of them stopped: every end
/// has one outcome, a failure has at most one effect, no more requests ended than were accepted, the
/// others are open, and the measurements are complete exactly where every end of every kind is in a
/// bin.
pub proof fn law_counters_agree(metrics: MetricsModel, kind: Kind)
    requires
        metrics.wf(),
        !metrics.counters.saturated,
    ensures
        ({
            let stat = metrics.counters.of(kind);
            &&& stat.completed == stat.success + stat.not_found + stat.aborted + stat.failed
            &&& stat.failed_after_applied + stat.failed_with_unknown_effect <= stat.failed
            &&& stat.synchronous <= stat.completed <= stat.accepted
            &&& stat.accepted - stat.completed == metrics.open_of(kind).len()
            &&& bins_total(stat.io_per_request@) <= stat.completed
        }),
        metrics.counters.complete <==> forall|k: Kind|
            bins_total((#[trigger] metrics.counters.of(k)).io_per_request@)
                == metrics.counters.of(k).completed,
{
    assert(metrics.balanced(kind));
    if metrics.counters.complete {
        assert forall|k: Kind|
            bins_total((#[trigger] metrics.counters.of(k)).io_per_request@)
                == metrics.counters.of(k).completed by {
            assert(metrics.balanced(k));
        }
    } else {
        let k = choose|k: Kind| #[trigger] metrics.lacks(k);
        assert(bins_total(metrics.counters.of(k).io_per_request@) < metrics.counters.of(
            k,
        ).completed);
    }
}

/// Whether a request is sampled is fixed when it is accepted: switching the sampling on or off
/// changes neither what was counted nor which requests are active.
pub proof fn law_sampling_is_fixed(metrics: MetricsModel, monitor: Monitor, enabled: bool)
    requires
        monitor.known_to(metrics),
    ensures
        monitor.known_to(MetricsModel { enabled, ..metrics }),
        (MetricsModel { enabled, ..metrics }).counters == metrics.counters,
        (MetricsModel { enabled, ..metrics }).active == metrics.active,
        (MetricsModel { enabled, ..metrics }).pending == metrics.pending,
{
}

/// The end of a request takes it, and no other, out of the active and the suspended requests.
pub proof fn law_end_frees_only_itself(
    monitor: Monitor,
    other: Monitor,
    before: MetricsModel,
    result: Completed,
    io: Option<u64>,
    elapsed: u128,
    after: MetricsModel,
)
    requires
        monitor.ends(before, result, io, elapsed, after),
        other.known_to(before),
        other.spec_id() != monitor.spec_id(),
    ensures
        other.known_to(after),
        !(monitor.spec_kind() is Copy) ==> !after.active.contains(monitor.spec_id())
            && !after.pending.contains(monitor.spec_id()),
{
}

/// A request whose completions are not known makes the measurements incomplete for good, and enters
/// no bin.
pub proof fn law_unknown_io_is_not_zero(
    monitor: Monitor,
    before: MetricsModel,
    result: Completed,
    elapsed: u128,
    after: MetricsModel,
)
    requires
        monitor.ends(before, result, None, elapsed, after),
        monitor.is_sampled(),
    ensures
        !after.counters.complete,
        after.counters.of(monitor.spec_kind()).io_per_request@ == before.counters.of(
            monitor.spec_kind(),
        ).io_per_request@,
        after.counters.of(monitor.spec_kind()).io_completions == before.counters.of(
            monitor.spec_kind(),
        ).io_completions,
{
}

/// A counter grows by what is added to it, until it cannot: then it stays at the greatest number, and
/// that is marked. It never falls.
pub proof fn law_counters_stop_at_the_end(a: u64, b: u64, n: u128)
    ensures
        plus(a, b) >= a && plus(a, b) >= b,
        !overflows(a, b) ==> plus(a, b) == a + b,
        overflows(a, b) ==> plus(a, b) == u64::MAX,
        overflows(a, b) <==> a + b > u64::MAX,
        n <= u64::MAX ==> capped(n) == n,
        n > u64::MAX ==> capped(n) == u64::MAX,
{
}

/// What a result counts as: what it is.
pub proof fn law_result_counts_as_what_it_is<T>(result: OperationResult<T>)
    ensures
        Completed::of(result) is Success <==> result is Ok && result->Ok_0 is Success,
        Completed::of(result) is NotFound <==> result is Ok && result->Ok_0 is NotFound,
        Completed::of(result) is Aborted <==> result is Ok && result->Ok_0 is Aborted,
        result matches Err(error) ==> Completed::of(result) == Completed::Failed(error.effect),
{
}

/// The counters of one kind are those, and setting them leaves all others alone.
pub proof fn law_kinds_are_apart(c: Counters, kind: Kind, other: Kind, stat: OperationStatistics)
    ensures
        c.with(kind, stat).of(kind) == stat,
        other != kind ==> c.with(kind, stat).of(other) == c.of(other),
        c.with(kind, stat).cache == c.cache,
        c.with(kind, stat).index == c.index,
        c.with(kind, stat).refresh == c.refresh,
        c.with(kind, stat).maintenance == c.maintenance,
        c.with(kind, stat).saturated == c.saturated,
        c.with(kind, stat).complete == c.complete,
        c.of(Kind::Read) == c.reads,
        c.of(Kind::Upsert) == c.upserts,
        c.of(Kind::Rmw) == c.rmw,
        c.of(Kind::Delete) == c.deletes,
        c.of(Kind::Copy) == c.copies,
{
}

/// An accepted request is counted once, for its kind, and nothing else is.
pub proof fn law_acceptance_counts_one(c: Counters, kind: Kind, other: Kind)
    requires
        c.of(kind).accepted < u64::MAX,
    ensures
        c.accepted(kind).of(kind) == (OperationStatistics {
            accepted: (c.of(kind).accepted + 1) as u64,
            ..c.of(kind)
        }),
        other != kind ==> c.accepted(kind).of(other) == c.of(other),
        c.accepted(kind).saturated == c.saturated,
        c.accepted(kind).complete == c.complete,
        c.accepted(kind).cache == c.cache,
        c.accepted(kind).index == c.index,
{
}

/// The end of a request counts one completion and one outcome, the one that its result says; a failure
/// with an effect, and one of which it is not known, are counted as that too. What was suspended adds
/// its time and everything else is counted as synchronous, and its completions are put into their bin.
pub proof fn law_end_counts_one(ended: Ended, s: OperationStatistics, r: OperationStatistics, other: int)
    requires
        ended.counts(s, r),
        !ended.saturates(s),
        s.io_per_request@.len() == 65,
        0 <= other < 65,
    ensures
        ({
            let one = |b: bool|
                if b {
                    1int
                } else {
                    0
                };
            &&& r.accepted == s.accepted
            &&& r.completed == s.completed + 1
            &&& r.success - s.success == one(ended.result is Success)
            &&& r.not_found - s.not_found == one(ended.result is NotFound)
            &&& r.aborted - s.aborted == one(ended.result is Aborted)
            &&& r.failed - s.failed == one(ended.result is Failed)
            &&& r.failed_after_applied - s.failed_after_applied == one(
                ended.result == Completed::Failed(Effect::Applied),
            )
            &&& r.failed_with_unknown_effect - s.failed_with_unknown_effect == one(
                ended.result == Completed::Failed(Effect::Unknown),
            )
            &&& r.synchronous - s.synchronous == one(ended.waited is None)
            &&& r.pending_nanoseconds - s.pending_nanoseconds == (match ended.waited {
                Some(elapsed) => elapsed as int,
                None => 0,
            })
            &&& r.record_invalidations == s.record_invalidations + ended.invalidations
            &&& r.io_completions - s.io_completions == (match ended.io {
                Some(io) => io as int,
                None => 0,
            })
            &&& r.io_per_request@[other] - s.io_per_request@[other] == one(
                ended.io is Some && bin_low(other as nat) <= ended.io->0 && ended.io->0 <= bin_high(
                    other as nat,
                ),
            )
        }),
{
    if let Some(io) = ended.io {
        law_bin_bounds(io as nat);
        lemma_one_bin(io as nat, other as nat);
    }
}

/// No number of completions lies in two bins.
proof fn lemma_one_bin(io: nat, other: nat)
    ensures
        bin_low(other) <= io <= bin_high(other) ==> other == bin(io),
    decreases io,
{
    law_bin_bounds(io);
    let b = bin(io);
    if bin_low(other) <= io <= bin_high(other) && other != b {
        if other < b {
            lemma_bin_order(other, b);
        } else {
            lemma_bin_order(b, other);
        }
    }
}

proof fn lemma_bin_order(a: nat, b: nat)
    requires
        a < b,
    ensures
        bin_high(a) < bin_low(b),
{
    lemma2_to64();
    lemma_pow2_pos((b - 1) as nat);
    lemma_pow2_pos(a);
    if a < b - 1 {
        vstd::arithmetic::power2::lemma_pow2_strictly_increases(a, (b - 1) as nat);
    }
}

/// An event of the cache or of the index is counted once, as what it is, and nothing else is.
pub proof fn law_events_count_one(c: Counters, event: CacheEvent, seen: IndexEvent)
    requires
        c.cache.lookups < u64::MAX && c.cache.hits < u64::MAX && c.cache.insertions < u64::MAX,
        c.cache.evictions < u64::MAX && c.cache.promotions < u64::MAX,
        c.index.lookups < u64::MAX && c.index.publication_attempts < u64::MAX,
        c.index.publication_conflicts < u64::MAX,
    ensures
        ({
            let one = |b: bool|
                if b {
                    1int
                } else {
                    0
                };
            let cache = c.cache_event(event).cache;
            let index = c.index_event(seen).index;
            &&& cache.lookups - c.cache.lookups == one(event is Lookup)
            &&& cache.hits - c.cache.hits == one(event is Hit)
            &&& cache.insertions - c.cache.insertions == one(event is Insert)
            &&& cache.evictions - c.cache.evictions == one(event is Evict)
            &&& cache.promotions - c.cache.promotions == one(event is Promote)
            &&& c.cache_event(event) == (Counters { cache, ..c })
            &&& index.lookups - c.index.lookups == one(seen is Lookup)
            &&& index.publication_attempts - c.index.publication_attempts == one(seen is Publish)
            &&& index.publication_conflicts - c.index.publication_conflicts == one(seen is Conflict)
            &&& c.index_event(seen) == (Counters { index, ..c })
        }),
{
}

/// Time is added to what it was spent on, and to nothing else.
pub proof fn law_time_is_added(c: Counters, maintenance: bool, elapsed: u128)
    requires
        c.maintenance + elapsed <= u64::MAX,
        c.refresh + elapsed <= u64::MAX,
    ensures
        ({
            let after = c.timed(maintenance, elapsed);
            &&& after.maintenance == c.maintenance + if maintenance {
                elapsed as int
            } else {
                0
            }
            &&& after.refresh == c.refresh + if maintenance {
                0
            } else {
                elapsed as int
            }
            &&& after == (Counters {
                maintenance: after.maintenance,
                refresh: after.refresh,
                ..c
            })
        }),
{
}

/// A counter that stopped anywhere is never forgotten, whatever is counted.
pub proof fn law_saturation_is_marked(
    c: Counters,
    kind: Kind,
    event: CacheEvent,
    seen: IndexEvent,
    maintenance: bool,
    elapsed: u128,
)
    ensures
        c.saturated ==> c.accepted(kind).saturated && c.cache_event(event).saturated
            && c.index_event(seen).saturated && c.timed(maintenance, elapsed).saturated,
        c.of(kind).accepted == u64::MAX ==> c.accepted(kind).saturated,
        elapsed > u64::MAX ==> c.timed(maintenance, elapsed).saturated,
{
}

/// A request that is accepted is open under a new number, active unless it is a copy, not suspended,
/// and sampled exactly if sampling is on; it counts against its tracker. No other request changes.
pub proof fn law_accepted_is_open(metrics: MetricsModel, kind: Kind, tracker: Option<usize>, other: int)
    requires
        metrics.wf(),
        tracker matches Some(t) ==> t < metrics.trackers.len() && metrics.trackers[t as int].monitors
            < usize::MAX,
    ensures
        ({
            let after = metrics.accepted(kind, tracker);
            let id = metrics.next;
            &&& !metrics.open.dom().contains(id)
            &&& after.open.dom().contains(id)
            &&& after.open[id] == (OpenRequest { kind, sampled: metrics.enabled, waiting: false })
            &&& after.active.contains(id) <==> !(kind is Copy)
            &&& after.pending == metrics.pending
            &&& after.next == id + 1
            &&& after.enabled == metrics.enabled
            &&& other != id ==> after.open.dom().contains(other) == metrics.open.dom().contains(other)
            &&& other != id && metrics.open.dom().contains(other) ==> after.open[other]
                == metrics.open[other]
            &&& other != id ==> after.active.contains(other) == metrics.active.contains(other)
            &&& !metrics.enabled ==> after.counters == metrics.counters
            &&& tracker matches Some(t) ==> after.trackers[t as int].monitors
                == metrics.trackers[t as int].monitors + 1 && after.owned[t as int].contains(id)
        }),
{
    assert(!metrics.open.dom().contains(metrics.next));
}

/// A request that is suspended counts as pending until it ends, and as nothing else; a copy does not.
pub proof fn law_suspended_is_pending(monitor: Monitor, metrics: MetricsModel, other: int)
    requires
        metrics.wf(),
        monitor.known_to(metrics),
    ensures
        ({
            let after = monitor.suspends(metrics);
            let id = monitor.spec_id();
            &&& monitor.is_finished() || monitor.is_pending() ==> after == metrics
            &&& !monitor.is_finished() && !monitor.is_pending() ==> {
                &&& after.pending.contains(id) <==> !(monitor.spec_kind() is Copy)
                    || metrics.pending.contains(id)
                &&& after.open[id].waiting
                &&& after.open[id].kind == monitor.spec_kind()
                &&& after.open[id].sampled == monitor.is_sampled()
            }
            &&& other != id ==> after.pending.contains(other) == metrics.pending.contains(other)
            &&& after.active == metrics.active
            &&& after.counters == metrics.counters
        }),
{
}

/// The end of a request is counted only if it was sampled, for its own kind, with what it waited, took
/// back and completed; it is open, active and pending no more, and every other request stays.
pub proof fn law_end_is_counted_if_sampled(
    monitor: Monitor,
    before: MetricsModel,
    result: Completed,
    io: Option<u64>,
    elapsed: u128,
    after: MetricsModel,
    kind: Kind,
    other: int,
)
    requires
        monitor.ends(before, result, io, elapsed, after),
    ensures
        !after.open.dom().contains(monitor.spec_id()),
        other != monitor.spec_id() ==> after.open.dom().contains(other)
            == before.open.dom().contains(other),
        other != monitor.spec_id() ==> after.active.contains(other) == before.active.contains(other),
        other != monitor.spec_id() ==> after.pending.contains(other) == before.pending.contains(other),
        !monitor.is_sampled() ==> after.counters == before.counters,
        kind != monitor.spec_kind() ==> after.counters.of(kind) == before.counters.of(kind),
        monitor.is_sampled() ==> {
            let ended = Ended {
                result,
                waited: if monitor.is_pending() {
                    Some(elapsed)
                } else {
                    None
                },
                invalidations: monitor.taken_back(),
                io,
            };
            &&& ended.counts(
                before.counters.of(monitor.spec_kind()),
                after.counters.of(monitor.spec_kind()),
            )
            &&& after.counters.complete <==> before.counters.complete && io is Some
            &&& monitor.is_saturated() ==> after.counters.saturated
            &&& before.counters.saturated ==> after.counters.saturated
        },
        after.counters.cache == before.counters.cache,
        after.counters.index == before.counters.index,
        after.next == before.next,
        after.trackers == before.trackers,
{
}

/// A request ends once: what is finished again changes nothing.
pub proof fn law_finished_once(
    monitor: Monitor,
    before: MetricsModel,
    result: Completed,
    io: Option<u64>,
    after: MetricsModel,
)
    requires
        monitor.is_finished(),
        monitor.finishes(before, result, io, after),
    ensures
        after == before,
{
}

/// A monitor that is gone counts against its tracker no more, and no other does less.
pub proof fn law_left_frees_its_place(metrics: MetricsModel, tracker: usize, id: int, other: int)
    requires
        metrics.wf(),
        tracker < metrics.trackers.len(),
        metrics.owned[tracker as int].contains(id),
        0 <= other < metrics.trackers.len(),
    ensures
        ({
            let after = metrics.left(Some(tracker), id);
            &&& after.trackers[tracker as int].monitors + 1 == metrics.trackers[tracker as int].monitors
            &&& after.trackers[tracker as int].held == metrics.trackers[tracker as int].held
            &&& !after.owned[tracker as int].contains(id)
            &&& other != tracker ==> after.trackers[other] == metrics.trackers[other]
                && after.owned[other] == metrics.owned[other]
            &&& after.counters == metrics.counters
            &&& after.open == metrics.open
            &&& metrics.left(None, id) == metrics
            &&& metrics.free(other) <==> !metrics.trackers[other].held
                && metrics.trackers[other].monitors == 0
        }),
{
    assert(metrics.owned[tracker as int].len() > 0) by {
        if metrics.owned[tracker as int].len() == 0 {
            assert(metrics.owned[tracker as int] =~= Set::<int>::empty());
        }
    }
}

/// A monitor stays that of its request: suspending it, taking a record back and finishing it change
/// only that about it.
pub proof fn law_monitor_stays_with_its_request(before: Monitor, after: Monitor)
    requires
        before.suspended_as(after) || before.invalidated_as(after) || before.finished_as(after),
    ensures
        after.spec_kind() == before.spec_kind(),
        after.is_sampled() == before.is_sampled(),
        after.spec_tracker() == before.spec_tracker(),
        after.spec_id() == before.spec_id(),
        before.suspended_as(after) ==> {
            &&& after.is_pending() <==> before.is_pending() || !before.is_finished()
            &&& after.is_finished() == before.is_finished()
            &&& after.taken_back() == before.taken_back()
            &&& after.is_saturated() == before.is_saturated()
        },
        before.invalidated_as(after) ==> {
            &&& after.taken_back() == before.taken_back() + 1 || (before.taken_back() == u64::MAX
                && after.taken_back() == u64::MAX && after.is_saturated())
            &&& before.is_saturated() ==> after.is_saturated()
            &&& after.is_saturated() && !before.is_saturated() ==> before.taken_back() == u64::MAX
            &&& after.is_pending() == before.is_pending()
            &&& after.is_finished() == before.is_finished()
        },
        before.finished_as(after) ==> {
            &&& after.is_finished()
            &&& after.is_pending() == before.is_pending()
            &&& after.taken_back() == before.taken_back()
            &&& after.is_saturated() == before.is_saturated()
        },
{
}

/// A monitor that starts follows a request that is not suspended, not finished and has taken nothing
/// back, sampled exactly if sampling is on, under a number that no other has.
pub proof fn law_monitor_starts_fresh(
    monitor: Monitor,
    kind: Kind,
    tracker: Option<usize>,
    metrics: MetricsModel,
    other: Monitor,
)
    requires
        monitor.starts(kind, tracker, metrics),
        other.known_to(metrics),
    ensures
        monitor.spec_kind() == kind,
        monitor.spec_tracker() == tracker,
        monitor.is_sampled() == metrics.enabled,
        !monitor.is_pending(),
        !monitor.is_finished(),
        !monitor.is_saturated(),
        monitor.taken_back() == 0,
        monitor.spec_id() != other.spec_id(),
{
}

} // verus!
