//! How the engine uses the read cache: entries are resolved through it where it is on, a record is
//! put into it only while no operation and no action is under way, and an image of the index holds
//! only what is in the log.
use crate::allocation::{reserve, Memory};
use crate::engine::common::{CoordinatorState, Frontiers, Gate};
use crate::engine::index::{head, log_head, EntrySnapshot, IndexHead, Resolved};
use crate::types::{Error, LogAddress};
use vstd::prelude::*;

verus! {

/// Where an entry is resolved: through the cache, where it is on.
#[derive(Clone, Copy, Debug, PartialEq, Eq, Structural)]
pub enum Resolver {
    Cache,
    Index,
}

pub fn resolver(cache_enabled: bool) -> (r: Resolver)
    ensures
        r == (if cache_enabled {
            Resolver::Cache
        } else {
            Resolver::Index
        }),
{
    if cache_enabled {
        Resolver::Cache
    } else {
        Resolver::Index
    }
}

/// An entry of the index itself, with the start of its chain. Without a cache no chain starts there.
pub fn resolve_index(entry: EntrySnapshot) -> (r: Result<Resolved, Error>)
    ensures
        r == (match log_head(entry) {
            Ok(head) => Ok::<Resolved, Error>(Resolved { entry, head }),
            Err(error) => Err::<Resolved, Error>(error),
        }),
{
    match head(entry) {
        Ok(head) => Ok(Resolved { entry, head }),
        Err(error) => Err(error),
    }
}

/// The first gate at or after `from` that is not free.
pub open spec fn first_taken(gates: Seq<Gate>, from: int) -> int
    decreases gates.len() - from,
{
    if from < 0 || from >= gates.len() {
        gates.len() as int
    } else if gates[from] != Gate::Free {
        from
    } else {
        first_taken(gates, from + 1)
    }
}

/// What the first gate that is not free is: all before it are free, and it is not; where there is none,
/// all are free.
pub proof fn lemma_first_taken(gates: Seq<Gate>, from: int)
    requires
        0 <= from <= gates.len(),
    ensures
        from <= first_taken(gates, from) <= gates.len(),
        forall|j: int| from <= j < first_taken(gates, from) ==> #[trigger] gates[j] == Gate::Free,
        first_taken(gates, from) < gates.len() ==> gates[first_taken(gates, from)] != Gate::Free,
    decreases gates.len() - from,
{
    if from < gates.len() && gates[from] == Gate::Free {
        lemma_first_taken(gates, from + 1);
    }
}

/// Finds the first gate that is not free.
pub(crate) fn find_taken(gates: &[Gate]) -> (r: Gate)
    ensures
        r == (if first_taken(gates@, 0) < gates@.len() {
            gates@[first_taken(gates@, 0)]
        } else {
            Gate::Free
        }),
        first_taken(gates@, 0) < gates@.len() ==> r != Gate::Free,
{
    let mut i: usize = 0;
    while i < gates.len()
        invariant
            i <= gates@.len(),
            first_taken(gates@, 0) == first_taken(gates@, i as int),
        decreases gates@.len() - i,
    {
        match gates[i] {
            Gate::Free => {},
            taken => {
                return taken;
            },
        }
        i += 1;
    }
    Gate::Free
}

/// The call that putting a record into the cache waits for.
#[derive(Clone, Copy, Debug, PartialEq, Eq, Structural)]
pub enum PopulateCall {
    /// Nothing is under way.
    Idle,
    /// Ask the coordinator for its state.
    State,
    /// Ask the lookup for the record that it found, if it may be cached.
    Record,
    Frontiers,
    /// Put the record into the cache, if the entry is still what it was.
    Insert,
}

/// The reply to a call that did not fail.
#[derive(Clone, Copy, Debug, PartialEq, Eq, Structural)]
pub enum PopulateReply {
    Done,
    State(CoordinatorState),
    /// Where the record is in the log.
    Record(Option<LogAddress>),
    Frontiers(Frontiers),
}

impl PopulateReply {
    pub open spec fn answers(self, call: PopulateCall) -> bool {
        match call {
            PopulateCall::Idle => false,
            PopulateCall::State => self is State,
            PopulateCall::Record => self is Record,
            PopulateCall::Frontiers => self is Frontiers,
            PopulateCall::Insert => self is Done,
        }
    }
}

#[derive(Debug, PartialEq, Eq)]
pub enum PopulateFlow {
    More,
    Ended(Result<(), Error>),
}

/// A record on its way into the cache.
#[derive(Clone, Copy, Debug, PartialEq, Eq, Structural)]
pub struct Population {
    pub call: PopulateCall,
    pub source: LogAddress,
}

impl Population {
    pub open spec fn more(self, call: PopulateCall) -> (Population, PopulateFlow) {
        (Population { call, ..self }, PopulateFlow::More)
    }

    pub open spec fn ended(self, r: Result<(), Error>) -> (Population, PopulateFlow) {
        (Population { call: PopulateCall::Idle, ..self }, PopulateFlow::Ended(r))
    }

    /// A cache that has no room is no error.
    pub open spec fn next_failed(self, error: Error) -> (Population, PopulateFlow) {
        if self.call != PopulateCall::State && (error == Error::OutOfMemory || error
            == Error::CapacityExceeded) {
            self.ended(Ok(()))
        } else {
            self.ended(Err(error))
        }
    }

    pub open spec fn next_ok(self, reply: PopulateReply) -> (Population, PopulateFlow) {
        match self.call {
            PopulateCall::State => if reply->State_0.id is Some {
                self.ended(Ok(()))
            } else {
                self.more(PopulateCall::Record)
            },
            PopulateCall::Record => match reply->Record_0 {
                None => self.ended(Ok(())),
                Some(source) => Population { source, ..self }.more(PopulateCall::Frontiers),
            },
            PopulateCall::Frontiers => if self.source.0 < reply->Frontiers_0.begin.0 {
                self.ended(Ok(()))
            } else {
                self.more(PopulateCall::Insert)
            },
            _ => self.ended(Ok(())),
        }
    }

    pub open spec fn next(self, reply: Result<PopulateReply, Error>) -> (Population, PopulateFlow) {
        match reply {
            Ok(reply) => self.next_ok(reply),
            Err(error) => self.next_failed(error),
        }
    }

    /// How a population begins that found the locks of all keys as `gates` says: it takes them all,
    /// or waits for another time.
    pub open spec fn begun(gates: Seq<Gate>) -> Result<Option<Population>, Error> {
        let taken = first_taken(gates, 0);
        if taken >= gates.len() {
            Ok(Some(Population { call: PopulateCall::State, source: LogAddress(0) }))
        } else if gates[taken] == Gate::Held {
            Ok(None)
        } else {
            Err(
                Error::InvalidState(
                    "Cache installation encounters business arbitration lock poisoning",
                ),
            )
        }
    }

    /// Whether an attempt is made: the cache is on, there is room for the guards, and all operations
    /// stand still. The guards are held until the attempt ends.
    pub fn begin(cache_enabled: bool, operations: &[Gate], memory: Memory) -> (r: Result<
        Option<Population>,
        Error,
    >)
        ensures
            !cache_enabled ==> r == Ok::<Option<Population>, Error>(None),
            cache_enabled && (memory is Granted || operations@.len() == 0) ==> r == Self::begun(
                operations@,
            ),
            memory is Refused && operations@.len() > 0 ==> r == Ok::<Option<Population>, Error>(
                None,
            ),
            cache_enabled && memory is Allocator ==> r == Self::begun(operations@) || r == Ok::<
                Option<Population>,
                Error,
            >(None),
    {
        if !cache_enabled {
            return Ok(None);
        }
        let mut guards: Vec<Gate> = Vec::new();
        if !reserve(&mut guards, operations.len(), memory) {
            return Ok(None);
        }
        match find_taken(operations) {
            Gate::Held => Ok(None),
            Gate::Poisoned => Err(
                Error::InvalidState(
                    "Cache installation encounters business arbitration lock poisoning",
                ),
            ),
            Gate::Free => Ok(
                Some(Population { call: PopulateCall::State, source: LogAddress(0) }),
            ),
        }
    }

    /// Takes the reply to the call of the attempt.
    pub fn accept(&mut self, reply: Result<PopulateReply, Error>) -> (r: PopulateFlow)
        requires
            old(self).call != PopulateCall::Idle,
            reply matches Ok(reply) ==> reply.answers(old(self).call),
        ensures
            (*final(self), r) == old(self).next(reply),
    {
        let call = self.call;
        self.call = PopulateCall::Idle;
        let reply = match reply {
            Ok(reply) => reply,
            Err(error) => {
                if call == PopulateCall::State {
                    return PopulateFlow::Ended(Err(error));
                }
                return match error {
                    Error::OutOfMemory | Error::CapacityExceeded => PopulateFlow::Ended(Ok(())),
                    error => PopulateFlow::Ended(Err(error)),
                };
            },
        };
        match (call, reply) {
            (PopulateCall::State, PopulateReply::State(state)) => {
                if state.id.is_some() {
                    PopulateFlow::Ended(Ok(()))
                } else {
                    self.call = PopulateCall::Record;
                    PopulateFlow::More
                }
            },
            (PopulateCall::Record, PopulateReply::Record(Some(source))) => {
                self.source = source;
                self.call = PopulateCall::Frontiers;
                PopulateFlow::More
            },
            (PopulateCall::Frontiers, PopulateReply::Frontiers(frontiers)) => {
                if self.source.0 < frontiers.begin.0 {
                    PopulateFlow::Ended(Ok(()))
                } else {
                    self.call = PopulateCall::Insert;
                    PopulateFlow::More
                }
            },
            _ => PopulateFlow::Ended(Ok(())),
        }
    }
}

/// Nothing is cached while a global action is under way, and nothing that was truncated is.
pub proof fn law_only_current_is_cached(population: Population, reply: PopulateReply)
    requires
        reply.answers(population.call),
    ensures
        population.next(Ok(reply)).0.call == PopulateCall::Record ==> reply->State_0.id is None,
        population.next(Ok(reply)).0.call == PopulateCall::Insert ==> population.source.0
            >= reply->Frontiers_0.begin.0,
{
}

/// An entry of an image of the index.
#[derive(Clone, Copy, Debug, PartialEq, Eq, Structural)]
pub struct ImageEntry {
    pub tag: u64,
    pub head: IndexHead,
}

/// The chain of the entry starts in the log.
pub open spec fn in_log(entry: ImageEntry, begin: LogAddress) -> bool {
    entry.head matches IndexHead::Log(address) && address.0 >= begin.0
}

/// Whether all the locks of keys can be taken for a snapshot.
pub open spec fn gates_taken(gates: Seq<Gate>) -> Result<(), Error> {
    let taken = first_taken(gates, 0);
    if taken >= gates.len() {
        Ok(())
    } else if gates[taken] == Gate::Held {
        Err(Error::Busy)
    } else {
        Err(
            Error::InvalidState("Index snapshot encounters business arbitration lock poisoning"),
        )
    }
}

/// Whether an image of the index may be made now: all operations have to stand still.
pub fn snapshot_gates(operations: &[Gate], memory: Memory) -> (r: Result<(), Error>)
    ensures
        memory is Refused && operations@.len() > 0 ==> r == Err::<(), Error>(Error::OutOfMemory),
        memory is Granted || operations@.len() == 0 ==> r == gates_taken(operations@),
        memory is Allocator ==> r == gates_taken(operations@) || r == Err::<(), Error>(
            Error::OutOfMemory,
        ),
{
    let mut guards: Vec<Gate> = Vec::new();
    if !reserve(&mut guards, operations.len(), memory) {
        return Err(Error::OutOfMemory);
    }
    match find_taken(operations) {
        Gate::Held => Err(Error::Busy),
        Gate::Poisoned => Err(
            Error::InvalidState("Index snapshot encounters business arbitration lock poisoning"),
        ),
        Gate::Free => Ok(()),
    }
}

/// What an image of the index holds: the entries whose chains start in the log. What a truncation
/// that failed has left behind is not part of it.
pub fn snapshot_index(entries: Vec<ImageEntry>, begin: LogAddress) -> (r: Vec<ImageEntry>)
    ensures
        r@ == entries@.filter(|entry: ImageEntry| in_log(entry, begin)),
{
    let mut kept: Vec<ImageEntry> = Vec::new();
    let mut i: usize = 0;
    let ghost keep = |entry: ImageEntry| in_log(entry, begin);
    proof {
        assert(entries@.take(0) =~= Seq::<ImageEntry>::empty());
        assert(Seq::<ImageEntry>::empty().filter(keep) =~= Seq::<ImageEntry>::empty()) by {
            reveal(Seq::filter);
        }
    }
    while i < entries.len()
        invariant
            i <= entries@.len(),
            keep == (|entry: ImageEntry| in_log(entry, begin)),
            kept@ == entries@.take(i as int).filter(keep),
        decreases entries@.len() - i,
    {
        let entry = entries[i];
        let current = match entry.head {
            IndexHead::Log(address) => address.0 >= begin.0,
            _ => false,
        };
        proof {
            let next = entries@.take(i + 1);
            assert(next.drop_last() =~= entries@.take(i as int));
            assert(next.last() == entry);
            reveal(Seq::filter);
        }
        if current {
            kept.push(entry);
        }
        i += 1;
    }
    assert(entries@.take(i as int) =~= entries@);
    kept
}

/// A record is put into the cache only after no action was found under way, the lookup named a record
/// that may be cached and the log was found to still hold it; whatever is not so ends the attempt
/// without an error.
pub proof fn law_record_is_cached_in_order(population: Population, reply: PopulateReply)
    requires
        reply.answers(population.call),
    ensures
        ({
            let (next, flow) = population.next(Ok(reply));
            let idle = match population.call {
                PopulateCall::State => reply->State_0.id is None,
                PopulateCall::Record => reply->Record_0 is Some,
                PopulateCall::Frontiers => population.source.0 >= reply->Frontiers_0.begin.0,
                _ => false,
            };
            &&& idle <==> flow is More
            &&& !idle ==> flow == PopulateFlow::Ended(Ok(())) && next.call is Idle
            &&& idle && population.call is State ==> next.call is Record
            &&& idle && population.call is Record ==> next.call is Frontiers
            &&& idle && population.call is Frontiers ==> next.call is Insert
            &&& next.source == (if population.call is Record && reply->Record_0 is Some {
                reply->Record_0->0
            } else {
                population.source
            })
        }),
{
}

/// A call that failed ends the attempt. A cache without room is no error of it; every other error is,
/// and so is any error of the coordinator.
pub proof fn law_full_cache_is_no_error(population: Population, error: Error)
    requires
        population.call != PopulateCall::Idle,
    ensures
        ({
            let (next, flow) = population.next(Err(error));
            let full = error == Error::OutOfMemory || error == Error::CapacityExceeded;
            &&& next.call is Idle
            &&& flow == PopulateFlow::Ended(Ok(())) <==> full && !(population.call is State)
            &&& !(full && !(population.call is State)) ==> flow == PopulateFlow::Ended(Err(error))
        }),
{
}

/// An attempt begins, and an image of the index is made, exactly when the lock of every key is free.
/// Otherwise the first lock that is not free decides: behind a held one the attempt waits and the
/// image is busy, and a broken one is an error of both.
pub proof fn law_all_keys_stand_still(gates: Seq<Gate>, k: int)
    requires
        0 <= k < gates.len(),
        forall|j: int| 0 <= j < k ==> #[trigger] gates[j] == Gate::Free,
    ensures
        gates[k] == Gate::Held ==> Population::begun(gates) == Ok::<Option<Population>, Error>(None)
            && gates_taken(gates) == Err::<(), Error>(Error::Busy),
        gates[k] == Gate::Poisoned ==> Population::begun(gates) == Err::<Option<Population>, Error>(
            Error::InvalidState(
                "Cache installation encounters business arbitration lock poisoning",
            ),
        ) && gates_taken(gates) == Err::<(), Error>(
            Error::InvalidState("Index snapshot encounters business arbitration lock poisoning"),
        ),
        gates[k] == Gate::Free && k == gates.len() - 1 ==> gates_taken(gates) == Ok::<(), Error>(())
            && Population::begun(gates) == Ok::<Option<Population>, Error>(
            Some(Population { call: PopulateCall::State, source: LogAddress(0) }),
        ),
{
    lemma_first_taken(gates, 0);
    let taken = first_taken(gates, 0);
    if taken < k {
        assert(gates[taken] == Gate::Free);
    }
}

/// An image of the index holds an entry exactly when its chain starts in the log at or after the
/// begin: nothing that was truncated, nothing of the cache, and no free entry.
pub proof fn law_image_holds_the_log(entries: Vec<ImageEntry>, begin: LogAddress, image: Vec<ImageEntry>)
    requires
        call_ensures(snapshot_index, (entries, begin), image),
    ensures
        forall|k: int|
            0 <= k < image@.len() ==> (#[trigger] image@[k]).head is Log && image@[k].head->Log_0.0
                >= begin.0 && entries@.contains(image@[k]),
        forall|i: int|
            0 <= i < entries@.len() && (#[trigger] entries@[i]).head is Log
                && entries@[i].head->Log_0.0 >= begin.0 ==> image@.contains(entries@[i]),
{
    let keep = |entry: ImageEntry| in_log(entry, begin);
    assert forall|k: int| 0 <= k < image@.len() implies (#[trigger] image@[k]).head is Log
        && image@[k].head->Log_0.0 >= begin.0 && entries@.contains(image@[k]) by {
        entries@.lemma_filter_pred(keep, k);
        assert(image@.contains(image@[k]));
        entries@.lemma_filter_contains_rev(keep, image@[k]);
    }
    assert forall|i: int|
        0 <= i < entries@.len() && (#[trigger] entries@[i]).head is Log && entries@[i].head->Log_0.0
            >= begin.0 implies image@.contains(entries@[i]) by {
        entries@.lemma_filter_contains(keep, i);
    }
}

} // verus!
