//! What a compaction copies, over its whole course: which records the scan noted, which copies were
//! asked for, and how they ended.
use crate::engine::compaction::{
    first_key, After, CompactionCall, CompactionModel, CompactionReply, CompactionStage,
    CompactionState,
};
use crate::engine::conditional_copy::CopyResult;
use crate::order::{bytes_le, lemma_total, lemma_transitive};
use crate::reports::{CompactionAlgorithm, CompactionOptions, CompactionReport};
use crate::types::{Error, LogAddress, MaintenanceId};
use vstd::prelude::*;

verus! {

/// The key of a record and where it lies.
pub type Source = (Seq<u8>, LogAddress);

/// What happened to a compaction so far.
#[verifier::ext_equal]
pub struct History {
    /// The records that the scan found and that were not passed over, in the order of the scan.
    pub noted: Seq<Source>,
    /// The records whose copy was asked for.
    pub started: Seq<Source>,
    /// How the copies ended, in the same order: whether the record was copied, or was not the newest
    /// of its key. Copies that are handed to workers end out of sight.
    pub ended: Seq<bool>,
}

impl History {
    pub open spec fn empty() -> History {
        History { noted: Seq::empty(), started: Seq::empty(), ended: Seq::empty() }
    }

    /// The history after the reply to the call of a job.
    pub open spec fn told(self, job: CompactionModel, reply: Result<CompactionReply, Error>) -> History {
        match reply {
            Err(_) => self,
            Ok(reply) => match job.state.call {
                CompactionCall::Version => History {
                    noted: self.noted.push(job.next->0),
                    ..self
                },
                CompactionCall::NewCopy => History {
                    started: self.started.push(job.next->0),
                    ..self
                },
                CompactionCall::CopyStep => match reply->Copy_0 {
                    Ok(CopyResult::Copied(_)) => History { ended: self.ended.push(true), ..self },
                    Ok(CopyResult::Obsolete) => History { ended: self.ended.push(false), ..self },
                    _ => self,
                },
                _ => self,
            },
        }
    }
}

/// The last record that was noted of each key.
pub open spec fn newest(noted: Seq<Source>) -> Map<Seq<u8>, LogAddress>
    decreases noted.len(),
{
    if noted.len() == 0 {
        Map::empty()
    } else {
        newest(noted.drop_last()).insert(noted.last().0, noted.last().1)
    }
}

/// How many of the copies were made.
pub open spec fn made(ended: Seq<bool>) -> nat
    decreases ended.len(),
{
    if ended.len() == 0 {
        0
    } else {
        made(ended.drop_last()) + if ended.last() { 1nat } else { 0 }
    }
}

/// Every key occurs once, and with its newest record; the keys that are left are `rest`.
pub open spec fn taken_from(
    taken: Seq<Source>,
    rest: Map<Seq<u8>, LogAddress>,
    all: Map<Seq<u8>, LogAddress>,
) -> bool {
    &&& forall|i: int, j: int|
        0 <= i < j < taken.len() ==> (#[trigger] taken[i]).0 != (#[trigger] taken[j]).0
    &&& forall|i: int|
        0 <= i < taken.len() ==> {
            &&& all.dom().contains((#[trigger] taken[i]).0)
            &&& all[taken[i].0] == taken[i].1
            &&& !rest.dom().contains(taken[i].0)
        }
    &&& forall|k: Seq<u8>| #[trigger]
        rest.dom().contains(k) ==> all.dom().contains(k) && rest[k] == all[k]
    &&& forall|k: Seq<u8>| #[trigger]
        all.dom().contains(k) ==> rest.dom().contains(k) || exists|i: int|
            0 <= i < taken.len() && (#[trigger] taken[i]).0 == k
}

/// The record whose copy is asked for now.
pub open spec fn asked(job: CompactionModel) -> Seq<Source> {
    if job.state.call is NewCopy {
        seq![job.next->0]
    } else {
        Seq::empty()
    }
}

/// All records are scanned, and all copies handed out.
pub open spec fn handed_out(job: CompactionModel) -> bool {
    &&& job.state.scanned
    &&& !job.state.copying
    &&& job.candidates == Map::<Seq<u8>, LogAddress>::empty()
    &&& !(job.state.call is NewCopy)
}

/// Whether `h` is what happened to a job that did not fail: by lookup a copy is asked for of every
/// record that was noted, and with the duplicates left out one of the newest record of every key.
pub open spec fn happened(job: CompactionModel, h: History) -> bool {
    let s = job.state;
    &&& job.candidates.dom().finite()
    &&& s.failure is None
    &&& s.cause is None
    &&& !(s.result matches Some(Err(_)))
    &&& s.call is NewCopy || s.call is Version ==> job.next is Some
    &&& s.call is ScanStep || s.call is Version ==> !s.scanned && !s.copying
    &&& s.call is NewCopy ==> !s.copying
    &&& s.call is CopyStep ==> s.copying && !s.pooled
    &&& s.call is Submit ==> s.copying && s.pooled
    &&& !(s.call is DrainCopy) && !(s.call is DrainScan)
    &&& s.call matches CompactionCall::Workers { after, .. } ==> {
        &&& s.pooled
        &&& after == After::Step || (after == After::Close && handed_out(job))
    }
    &&& s.call is FinishPhase || s.call is Advance || s.call is FinishAction || !(s.stage is Copy)
        ==> handed_out(job)
    &&& match s.options.algorithm {
        CompactionAlgorithm::Lookup => {
            &&& job.candidates == Map::<Seq<u8>, LogAddress>::empty()
            &&& h.started + asked(job) == h.noted
        },
        CompactionAlgorithm::ScanDedup => if s.scanned {
            taken_from(h.started + asked(job), job.candidates, newest(h.noted))
        } else {
            &&& h.started.len() == 0
            &&& job.candidates == newest(h.noted)
            &&& !s.copying
            &&& !(s.call is NewCopy)
        },
    }
    &&& !s.pooled ==> {
        &&& h.ended.len() + (if s.copying {
            1nat
        } else {
            0
        }) == h.started.len()
        &&& s.copied == made(h.ended)
        &&& s.result matches Some(Ok(report)) ==> report.copied == s.copied && handed_out(job)
    }
}

/// Some key is the least.
proof fn lemma_least(keys: Set<Seq<u8>>) -> (least: Seq<u8>)
    requires
        keys.finite(),
        keys.len() > 0,
    ensures
        keys.contains(least),
        forall|k: Seq<u8>| #[trigger] keys.contains(k) ==> bytes_le(least, k),
    decreases keys.len(),
{
    let key = keys.choose();
    lemma_total(key, key);
    if keys.len() == 1 {
        assert forall|k: Seq<u8>| #[trigger] keys.contains(k) implies bytes_le(key, k) by {
            if k != key {
                assert(keys.remove(key).contains(k));
                assert(keys.remove(key) =~= Set::<Seq<u8>>::empty());
            }
        }
        key
    } else {
        let rest = keys.remove(key);
        let least = lemma_least(rest);
        lemma_total(key, least);
        let first = if bytes_le(key, least) {
            key
        } else {
            least
        };
        assert forall|k: Seq<u8>| #[trigger] keys.contains(k) implies bytes_le(first, k) by {
            if k != key {
                assert(rest.contains(k));
                if first == key {
                    lemma_transitive(key, least, k);
                }
            }
        }
        first
    }
}

proof fn lemma_first_is_there(m: Map<Seq<u8>, LogAddress>)
    requires
        m.dom().finite(),
        m != Map::<Seq<u8>, LogAddress>::empty(),
    ensures
        m.dom().contains(first_key(m)),
{
    if m.dom().len() == 0 {
        assert(m =~= Map::<Seq<u8>, LogAddress>::empty());
    }
    let least = lemma_least(m.dom());
    assert(m.dom().contains(least) && forall|other: Seq<u8>| #[trigger]
        m.dom().contains(other) ==> bytes_le(least, other));
}

/// One more key is taken from those that are left.
proof fn lemma_take(
    taken: Seq<Source>,
    rest: Map<Seq<u8>, LogAddress>,
    all: Map<Seq<u8>, LogAddress>,
    key: Seq<u8>,
)
    requires
        taken_from(taken, rest, all),
        rest.dom().contains(key),
    ensures
        taken_from(taken.push((key, rest[key])), rest.remove(key), all),
{
    let more = taken.push((key, rest[key]));
    assert forall|k: Seq<u8>| #[trigger] all.dom().contains(k) implies rest.remove(
        key,
    ).dom().contains(k) || exists|i: int|
        0 <= i < more.len() && (#[trigger] more[i]).0 == k by {
        if k == key {
            assert(more[taken.len() as int].0 == k);
        } else if !rest.dom().contains(k) {
            let i = choose|i: int| 0 <= i < taken.len() && (#[trigger] taken[i]).0 == k;
            assert(more[i].0 == k);
        }
    }
}

/// What a step does once it knows how far the workers are adds nothing to the history.
proof fn lemma_dispatched(job: CompactionModel, h: History)
    requires
        happened(job, h),
        job.state.call is Idle || job.state.call is Workers,
    ensures
        job.dispatched().1 is Ok ==> happened(job.dispatched().0, h),
{
    let s = job.state;
    let after = job.dispatched().0;
    assert(h.started + Seq::<Source>::empty() =~= h.started);
    if s.stage == CompactionStage::Copy && !s.copying && s.scanned && job.candidates != Map::<
        Seq<u8>,
        LogAddress,
    >::empty() {
        lemma_first_is_there(job.candidates);
        let key = first_key(job.candidates);
        lemma_take(h.started, job.candidates, newest(h.noted), key);
        assert(h.started + asked(after) =~= h.started.push((key, job.candidates[key])));
    }
}

proof fn lemma_copying(job: CompactionModel, h: History, reply: CompactionReply, refused: bool)
    requires
        happened(job, h),
        job.wf(),
        job.ordered(),
        job.is_copying(),
        reply.answers(job.state.call),
    ensures
        job.next_copying(reply, refused).1 is Ok ==> happened(
            job.next_copying(reply, refused).0,
            h.told(job, Ok(reply)),
        ),
{
    let s = job.state;
    let after = job.next_copying(reply, refused).0;
    let told = h.told(job, Ok(reply));
    assert(h.started + Seq::<Source>::empty() =~= h.started);
    assert(told.started + Seq::<Source>::empty() =~= told.started);
    match s.call {
        CompactionCall::NewCopy => {
            assert(h.started + seq![job.next->0] =~= told.started);
        },
        CompactionCall::Version => {
            assert(told.noted.drop_last() =~= h.noted);
            let (key, address) = job.next->0;
            assert(newest(told.noted) == newest(h.noted).insert(key, address));
            assert(told.started + asked(after) =~= (if after.state.call is NewCopy {
                h.started.push(job.next->0)
            } else {
                h.started
            }));
        },
        CompactionCall::ScanStep => {
            if reply->Scan_0 is End && s.options.algorithm == CompactionAlgorithm::ScanDedup {
                assert(h.started =~= Seq::<Source>::empty());
                assert(taken_from(h.started, job.candidates, newest(h.noted)));
            }
        },
        CompactionCall::CopyStep => {
            assert(h.ended.push(true).drop_last() =~= h.ended);
            assert(h.ended.push(false).drop_last() =~= h.ended);
        },
        _ => {},
    }
}

proof fn lemma_following(job: CompactionModel, h: History, reply: CompactionReply)
    requires
        happened(job, h),
        job.wf(),
        job.ordered(),
        job.state.call != CompactionCall::Idle,
        !job.is_copying(),
        reply.answers(job.state.call),
        job.next_following(reply).0.state.failure is None,
        !(job.next_following(reply).0.state.result matches Some(Err(_))),
    ensures
        job.next_following(reply).1 is Ok ==> happened(
            job.next_following(reply).0,
            h.told(job, Ok(reply)),
        ),
{
    let s = job.state;
    assert(h.started + Seq::<Source>::empty() =~= h.started);
    if let CompactionCall::Workers { after, .. } = s.call {
        let told = CompactionState { copied: reply->copied, ..s };
        if reply->failure is None {
            let seen = job.with(told);
            assert(happened(seen, h));
            lemma_dispatched(seen, h);
        } else {
            assert(job.with(told.failed(reply->failure->0)).state.failure is Some);
        }
    }
}

/// A job that starts has no history, and follows its options.
pub proof fn law_history_starts(
    id: MaintenanceId,
    options: CompactionOptions,
    max_keys: usize,
    max_key_bytes: usize,
    pooled: bool,
)
    ensures
        happened(
            CompactionModel::starting(id, options, max_keys, max_key_bytes, pooled),
            History::empty(),
        ),
        follows_options(
            CompactionModel::starting(id, options, max_keys, max_key_bytes, pooled),
        ),
        CompactionModel::starting(id, options, max_keys, max_key_bytes, pooled).ordered(),
{
    let job = CompactionModel::starting(id, options, max_keys, max_key_bytes, pooled);
    assert(History::empty().started + asked(job) =~= Seq::<Source>::empty());
    assert(newest(Seq::<Source>::empty()) =~= job.candidates);
}

/// Every step and every reply of a job that does not fail keeps its history: by lookup a copy is
/// asked for of every record that was noted, in the order of the scan; with the duplicates left out
/// no copy is asked for before the scan is done, and then one of the newest record of every key.
pub proof fn law_history_is_kept(
    job: CompactionModel,
    h: History,
    reply: Result<CompactionReply, Error>,
    refused: bool,
)
    requires
        happened(job, h),
        job.wf(),
        job.ordered(),
        reply matches Ok(reply) ==> reply.answers(job.state.call),
    ensures
        job.state.call is Idle && job.begun().1 is Ok ==> happened(job.begun().0, h),
        !(job.state.call is Idle) && job.next(reply, refused).1 is Ok && job.next(
            reply,
            refused,
        ).0.state.failure is None && !(job.next(reply, refused).0.state.result matches Some(
            Err(_),
        )) ==> happened(job.next(reply, refused).0, h.told(job, reply)),
{
    assert(h.started + Seq::<Source>::empty() =~= h.started);
    if job.state.call is Idle {
        lemma_dispatched(job, h);
    } else if job.next(reply, refused).1 is Ok && job.next(reply, refused).0.state.failure is None
        && !(job.next(reply, refused).0.state.result matches Some(Err(_))) {
        if let Ok(reply) = reply {
            if job.is_copying() {
                lemma_copying(job, h, reply, refused);
            } else {
                lemma_following(job, h, reply);
            }
        }
    }
}

/// Where a record lies, as a number.
pub open spec fn lies_at(source: Source) -> u64 {
    let (_, address) = source;
    address.0
}

/// The record is the one that the index leads to for its key.
pub open spec fn is_live(source: Source, live: Map<Seq<u8>, LogAddress>) -> bool {
    live.dom().contains(source.0) && live[source.0] == source.1
}

/// The keys whose newest record is among `sources`.
pub open spec fn live_keys(sources: Seq<Source>, live: Map<Seq<u8>, LogAddress>) -> Set<Seq<u8>> {
    live.dom().filter(|k: Seq<u8>| sources.contains((k, live[k])))
}

proof fn lemma_made(sources: Seq<Source>, ended: Seq<bool>, live: Map<Seq<u8>, LogAddress>)
    requires
        live.dom().finite(),
        sources.len() == ended.len(),
        forall|i: int, j: int|
            0 <= i < j < sources.len() ==> #[trigger] sources[i] != #[trigger] sources[j],
        forall|i: int|
            0 <= i < sources.len() ==> #[trigger] ended[i] == is_live(sources[i], live),
    ensures
        made(ended) == live_keys(sources, live).len(),
    decreases sources.len(),
{
    if sources.len() == 0 {
        assert(live_keys(sources, live) =~= Set::<Seq<u8>>::empty());
    } else {
        let front = sources.drop_last();
        let last = sources.last();
        lemma_made(front, ended.drop_last(), live);
        assert forall|k: Seq<u8>| live_keys(sources, live).contains(k) <==> (live_keys(
            front,
            live,
        ).contains(k) || (is_live(last, live) && k == last.0)) by {
            if live_keys(sources, live).contains(k) {
                let i = choose|i: int| 0 <= i < sources.len() && sources[i] == (k, live[k]);
                if i < front.len() {
                    assert(front[i] == (k, live[k]));
                }
            }
            if live_keys(front, live).contains(k) {
                let i = choose|i: int| 0 <= i < front.len() && front[i] == (k, live[k]);
                assert(sources[i] == (k, live[k]));
            }
            if is_live(last, live) && k == last.0 {
                assert(sources[sources.len() - 1] == (k, live[k]));
            }
        }
        if is_live(last, live) {
            assert(live_keys(sources, live) =~= live_keys(front, live).insert(last.0));
            assert(!live_keys(front, live).contains(last.0)) by {
                if front.contains(last) {
                    let i = choose|i: int| 0 <= i < front.len() && front[i] == last;
                    assert(sources[i] != sources[sources.len() - 1]);
                }
                assert(last == (last.0, live[last.0]));
            }
        } else {
            assert(live_keys(sources, live) =~= live_keys(front, live));
        }
        assert(ended[sources.len() - 1] == is_live(last, live));
    }
}

/// The last record that was noted of a key.
proof fn lemma_newest(noted: Seq<Source>, key: Seq<u8>) -> (last: int)
    requires
        newest(noted).dom().contains(key) || exists|i: int|
            0 <= i < noted.len() && (#[trigger] noted[i]).0 == key,
    ensures
        0 <= last < noted.len(),
        noted[last] == (key, newest(noted)[key]),
        newest(noted).dom().contains(key),
        forall|i: int| 0 <= i < noted.len() && (#[trigger] noted[i]).0 == key ==> i <= last,
    decreases noted.len(),
{
    let front = noted.drop_last();
    if noted.last().0 == key {
        noted.len() - 1
    } else {
        if exists|i: int| 0 <= i < noted.len() && (#[trigger] noted[i]).0 == key {
            let i = choose|i: int| 0 <= i < noted.len() && (#[trigger] noted[i]).0 == key;
            assert(front[i].0 == key);
        }
        let last = lemma_newest(front, key);
        assert(noted[last] == front[last]);
        assert forall|i: int|
            0 <= i < noted.len() && (#[trigger] noted[i]).0 == key implies i <= last by {
            if i < front.len() {
                assert(front[i].0 == key);
            }
        }
        last
    }
}

/// The copies that a compaction asks for with the duplicates left out are exactly the keys that were
/// noted, each once and with its newest record.
pub proof fn law_one_copy_for_each_key(job: CompactionModel, h: History)
    requires
        happened(job, h),
        handed_out(job),
        job.state.options.algorithm == CompactionAlgorithm::ScanDedup,
    ensures
        forall|i: int, j: int|
            0 <= i < j < h.started.len() ==> (#[trigger] h.started[i]).0 != (
            #[trigger] h.started[j]).0,
        forall|k: Seq<u8>| #[trigger]
            newest(h.noted).dom().contains(k) ==> h.started.contains((k, newest(h.noted)[k])),
        forall|source: Source| #[trigger]
            h.started.contains(source) ==> newest(h.noted).dom().contains(source.0) && newest(
                h.noted,
            )[source.0] == source.1,
        h.started.len() == newest(h.noted).dom().len(),
{
    assert(h.started + asked(job) =~= h.started);
    let all = newest(h.noted);
    assert forall|k: Seq<u8>| #[trigger] all.dom().contains(k) implies h.started.contains(
        (k, all[k]),
    ) by {
        let i = choose|i: int| 0 <= i < h.started.len() && (#[trigger] h.started[i]).0 == k;
        assert(h.started[i] == (k, all[k]));
    }
    let keys = h.started.map_values(|source: Source| source.0);
    assert(keys.no_duplicates());
    keys.unique_seq_to_set();
    assert(keys.to_set() =~= all.dom()) by {
        assert forall|k: Seq<u8>| keys.to_set().contains(k) <==> all.dom().contains(k) by {
            if keys.contains(k) {
                let i = choose|i: int| 0 <= i < keys.len() && keys[i] == k;
                assert(h.started[i].0 == k);
            }
            if all.dom().contains(k) {
                let i = choose|i: int|
                    0 <= i < h.started.len() && (#[trigger] h.started[i]).0 == k;
                assert(keys[i] == k);
            }
        }
    }
}

/// The scan goes forward, and no record of a key lies behind the one that the index leads to.
pub open spec fn in_scan_order(noted: Seq<Source>, live: Map<Seq<u8>, LogAddress>) -> bool {
    &&& forall|i: int, j: int|
        0 <= i < j < noted.len() ==> lies_at(#[trigger] noted[i]) < lies_at(#[trigger] noted[j])
    &&& forall|i: int|
        0 <= i < noted.len() && live.dom().contains((#[trigger] noted[i]).0) ==> lies_at(noted[i])
            <= live[noted[i].0].0
}

/// The copies that were asked for differ, and hold the newest records that were noted.
proof fn lemma_started(job: CompactionModel, h: History, live: Map<Seq<u8>, LogAddress>)
    requires
        happened(job, h),
        handed_out(job),
        in_scan_order(h.noted, live),
    ensures
        h.started.no_duplicates(),
        live_keys(h.started, live) =~= live_keys(h.noted, live),
{
    assert(h.started + asked(job) =~= h.started);
    if job.state.options.algorithm == CompactionAlgorithm::ScanDedup {
        law_one_copy_for_each_key(job, h);
        assert forall|k: Seq<u8>| live_keys(h.started, live).contains(k) <==> live_keys(
            h.noted,
            live,
        ).contains(k) by {
            if live_keys(h.started, live).contains(k) {
                assert(h.started.contains((k, live[k])));
                let last = lemma_newest(h.noted, k);
                assert(h.noted[last] == (k, live[k]));
            }
            if live_keys(h.noted, live).contains(k) {
                let i = choose|i: int| 0 <= i < h.noted.len() && h.noted[i] == (k, live[k]);
                assert(h.noted[i].0 == k);
                let last = lemma_newest(h.noted, k);
                assert(lies_at(h.noted[last]) <= live[k].0);
                if i < last {
                    assert(lies_at(h.noted[i]) < lies_at(h.noted[last]));
                }
                assert(newest(h.noted)[k] == live[k]);
            }
        }
    }
}

/// Both ways of compacting copy the same: one record for each key whose newest record was noted, and
/// nothing else. `live` is where the index leads for each key. The scan goes forward, no record of a
/// key lies behind its newest, and a copy is made exactly where the record is the newest.
pub proof fn law_copied_are_the_live_keys(
    job: CompactionModel,
    h: History,
    live: Map<Seq<u8>, LogAddress>,
)
    requires
        happened(job, h),
        handed_out(job),
        !job.state.pooled,
        live.dom().finite(),
        in_scan_order(h.noted, live),
        forall|i: int|
            0 <= i < h.ended.len() ==> #[trigger] h.ended[i] == is_live(h.started[i], live),
    ensures
        job.state.copied == live_keys(h.noted, live).len(),
{
    lemma_started(job, h, live);
    lemma_made(h.started, h.ended, live);
}

/// Workers copy the same. They end the copies in an order of their own, in which `done` says of each
/// record in `sources` whether it was copied, and what they count is how many were.
pub proof fn law_workers_copy_the_live_keys(
    job: CompactionModel,
    h: History,
    live: Map<Seq<u8>, LogAddress>,
    sources: Seq<Source>,
    done: Seq<bool>,
)
    requires
        happened(job, h),
        handed_out(job),
        job.state.pooled,
        live.dom().finite(),
        in_scan_order(h.noted, live),
        sources.to_multiset() == h.started.to_multiset(),
        sources.len() == done.len(),
        forall|i: int| 0 <= i < done.len() ==> #[trigger] done[i] == is_live(sources[i], live),
        job.state.copied == made(done),
    ensures
        job.state.copied == live_keys(h.noted, live).len(),
{
    lemma_started(job, h, live);
    h.started.lemma_multiset_has_no_duplicates();
    sources.lemma_multiset_has_no_duplicates_conv();
    lemma_made(sources, done, live);
    assert forall|source: Source| sources.contains(source) <==> h.started.contains(source) by {
        vstd::seq_lib::to_multiset_contains(sources, source);
        vstd::seq_lib::to_multiset_contains(h.started, source);
    }
    assert(live_keys(sources, live) =~= live_keys(h.started, live));
}

/// What follows the copies is what the options ask for, and a report tells of nothing else.
pub open spec fn follows_options(job: CompactionModel) -> bool {
    let s = job.state;
    &&& !s.options.checkpoint ==> {
        &&& !(s.stage is StartCheckpoint) && !(s.stage is Checkpoint)
        &&& s.checkpoint is None
        &&& s.result matches Some(Ok(report)) ==> report.checkpoint is None
    }
    &&& !s.options.shift_begin ==> {
        &&& !(s.stage is StartGc) && !(s.stage is Gc)
        &&& s.gc is None
        &&& s.result matches Some(Ok(report)) ==> report.gc is None
    }
    &&& s.result matches Some(Ok(report)) ==> report.until == s.options.until
}

/// What a compaction that only copies reports, by both ways alike: how far it went, and one copy for
/// each key whose newest record was noted; nothing of a checkpoint or a truncation.
pub proof fn law_report_counts_the_live_keys(
    job: CompactionModel,
    h: History,
    live: Map<Seq<u8>, LogAddress>,
    report: CompactionReport,
)
    requires
        happened(job, h),
        follows_options(job),
        !job.state.pooled,
        !job.state.options.checkpoint,
        !job.state.options.shift_begin,
        job.state.result == Some(Ok::<CompactionReport, Error>(report)),
        live.dom().finite(),
        in_scan_order(h.noted, live),
        forall|i: int|
            0 <= i < h.ended.len() ==> #[trigger] h.ended[i] == is_live(h.started[i], live),
    ensures
        report.until == job.state.options.until,
        report.copied == live_keys(h.noted, live).len(),
        report.checkpoint is None,
        report.gc is None,
{
    law_copied_are_the_live_keys(job, h, live);
}

/// One job goes over into another with the same options, which both follow.
pub open spec fn keeps_options(job: CompactionModel, after: CompactionModel) -> bool {
    after.state.options == job.state.options && follows_options(after)
}

proof fn lemma_options_dispatched(job: CompactionModel)
    requires
        follows_options(job),
    ensures
        keeps_options(job, job.dispatched().0),
{
}

proof fn lemma_options_failing(job: CompactionModel)
    requires
        follows_options(job),
    ensures
        keeps_options(job, job.failing_child().0),
        keeps_options(job, job.failing_report().0),
{
}

proof fn lemma_options_copying(job: CompactionModel, reply: CompactionReply, refused: bool)
    requires
        follows_options(job),
        job.is_copying(),
    ensures
        keeps_options(job, job.next_copying(reply, refused).0),
{
}

#[verifier::spinoff_prover]
#[verifier::rlimit(40)]
proof fn lemma_options_following(job: CompactionModel, reply: CompactionReply)
    requires
        job.ordered(),
        follows_options(job),
        job.state.call != CompactionCall::Idle,
        !job.is_copying(),
        reply.answers(job.state.call),
    ensures
        keeps_options(job, job.next_following(reply).0),
{
    if job.state.call is Workers {
        let told = CompactionState { copied: reply->copied, ..job.state };
        let seen = job.with(
            match reply->failure {
                Some(error) => told.failed(error),
                None => told,
            },
        );
        assert(follows_options(seen));
        lemma_options_dispatched(seen);
        lemma_options_failing(seen);
    } else if job.state.call is TakeCheckpoint || job.state.call is TakeGc {
        lemma_options_collected(job, reply);
    }
}

proof fn lemma_options_collected(job: CompactionModel, reply: CompactionReply)
    requires
        job.ordered(),
        follows_options(job),
        job.state.call is TakeCheckpoint || job.state.call is TakeGc,
        reply.answers(job.state.call),
    ensures
        keeps_options(job, job.next_following(reply).0),
{
}

/// Every step and every reply follows the options, which never change: where no checkpoint was asked
/// for none is started, and where the begin of the log was not to move nothing is truncated.
pub proof fn law_options_are_followed(
    job: CompactionModel,
    reply: Result<CompactionReply, Error>,
    refused: bool,
    cause: Error,
)
    requires
        job.wf(),
        job.ordered(),
        follows_options(job),
        reply matches Ok(reply) ==> reply.answers(job.state.call),
    ensures
        job.state.call is StartCheckpoint ==> job.state.options.checkpoint,
        job.state.call is StartGc ==> job.state.options.shift_begin,
        keeps_options(job, job.begun().0),
        keeps_options(job, job.failing(cause).0),
        !(job.state.call is Idle) ==> keeps_options(job, job.next(reply, refused).0),
{
    assert(keeps_options(job, job.begun().0)) by {
        lemma_options_dispatched(job);
    }
    assert(keeps_options(job, job.failing(cause).0)) by {
        lemma_options_failing(job.with(CompactionState { cause: Some(cause), ..job.state }));
    }
    if !(job.state.call is Idle) {
        if let Ok(reply) = reply {
            if job.is_copying() {
                lemma_options_copying(job, reply, refused);
            } else {
                lemma_options_following(job, reply);
            }
        }
    }
}

/// The key that is copied next is one of those that are left, and none of them comes before it in the
/// order of the bytes.
pub proof fn law_least_key_comes_first(m: Map<Seq<u8>, LogAddress>, other: Seq<u8>)
    requires
        m.dom().finite(),
        m.dom().contains(other),
    ensures
        m.dom().contains(first_key(m)),
        bytes_le(first_key(m), other),
{
    lemma_first_is_there(m);
    let least = lemma_least(m.dom());
    assert(m.dom().contains(least) && forall|k: Seq<u8>| #[trigger]
        m.dom().contains(k) ==> bytes_le(least, k));
}

} // verus!
