//! Directory listings, charged against a budget of entries and a budget of name bytes. A listing
//! that exceeds either is refused as a whole.
use crate::allocation::{reserve, Memory};
use crate::device::{DirectoryEntry, DirectoryEntryKind, IoOutcome};
use crate::order::{bytes_at_most, bytes_le, lemma_total, lemma_transitive};
use crate::types::Error;
use vstd::prelude::*;

verus! {

/// The names and kinds of a list of entries.
pub open spec fn listing(entries: Seq<DirectoryEntry>) -> Seq<(Seq<u8>, DirectoryEntryKind)> {
    entries.map_values(|e: DirectoryEntry| (e.name@, e.kind))
}

pub open spec fn sorted(entries: Seq<DirectoryEntry>) -> bool {
    forall|i: int, j: int|
        0 <= i < j < entries.len() ==> bytes_le(#[trigger] entries[i].name@, #[trigger] entries[j].name@)
}

pub open spec fn name_bytes(entries: Seq<DirectoryEntry>) -> nat
    decreases entries.len(),
{
    if entries.len() == 0 {
        0
    } else {
        name_bytes(entries.drop_last()) + entries.last().name@.len()
    }
}

/// A listing in the making.
pub struct DirectorySnapshot {
    entries: Vec<DirectoryEntry>,
    names: usize,
    max_entries: usize,
    max_names: usize,
}

impl DirectorySnapshot {
    pub closed spec fn view(self) -> Seq<DirectoryEntry> {
        self.entries@
    }

    pub closed spec fn entry_budget(self) -> nat {
        self.max_entries as nat
    }

    pub closed spec fn name_budget(self) -> nat {
        self.max_names as nat
    }

    /// The listing is within both budgets.
    pub closed spec fn wf(self) -> bool {
        &&& self.names == name_bytes(self.entries@)
        &&& self.names <= self.max_names
        &&& self.entries@.len() <= self.max_entries
    }

    /// Whether `entry` fits into what is left of both budgets.
    pub open spec fn fits(self, entry: DirectoryEntry) -> bool {
        &&& self@.len() < self.entry_budget()
        &&& name_bytes(self@) + entry.name@.len() <= self.name_budget()
    }

    pub fn new(max_entries: usize, max_names: usize) -> (r: DirectorySnapshot)
        ensures
            r.wf(),
            r@ == Seq::<DirectoryEntry>::empty(),
            r.entry_budget() == max_entries,
            r.name_budget() == max_names,
    {
        DirectorySnapshot { entries: Vec::new(), names: 0, max_entries, max_names }
    }

    /// Adds an entry. The allocator decides whether there is room for one that fits.
    pub fn push(&mut self, entry: DirectoryEntry) -> (r: Result<(), Error>)
        requires
            old(self).wf(),
        ensures
            final(self).wf(),
            final(self).entry_budget() == old(self).entry_budget(),
            final(self).name_budget() == old(self).name_budget(),
            !old(self).fits(entry) ==> r == Err::<(), Error>(Error::CapacityExceeded),
            old(self).fits(entry) ==> r is Ok || r == Err::<(), Error>(Error::OutOfMemory),
            final(self)@ == (if r is Ok {
                old(self)@.push(entry)
            } else {
                old(self)@
            }),
    {
        self.push_from(entry, Memory::Allocator)
    }

    /// Adds an entry, where `memory` says whether there is room for one that fits.
    pub fn push_from(&mut self, entry: DirectoryEntry, memory: Memory) -> (r: Result<(), Error>)
        requires
            old(self).wf(),
        ensures
            final(self).wf(),
            final(self).entry_budget() == old(self).entry_budget(),
            final(self).name_budget() == old(self).name_budget(),
            !old(self).fits(entry) ==> r == Err::<(), Error>(Error::CapacityExceeded),
            old(self).fits(entry) ==> match memory {
                Memory::Granted => r is Ok,
                Memory::Refused => r == Err::<(), Error>(Error::OutOfMemory),
                Memory::Allocator => r is Ok || r == Err::<(), Error>(Error::OutOfMemory),
            },
            final(self)@ == (if r is Ok {
                old(self)@.push(entry)
            } else {
                old(self)@
            }),
    {
        let names = match self.names.checked_add(entry.name.len()) {
            Some(names) => names,
            None => {
                return Err(Error::CapacityExceeded);
            },
        };
        if self.entries.len() >= self.max_entries || names > self.max_names {
            return Err(Error::CapacityExceeded);
        }
        if !reserve(&mut self.entries, 1, memory) {
            return Err(Error::OutOfMemory);
        }
        self.entries.push(entry);
        self.names = names;
        assert(self.entries@.drop_last() =~= old(self).entries@);
        Ok(())
    }

    /// The listing, in the order of its names.
    pub fn finish(self) -> (r: IoOutcome)
        requires
            self.wf(),
        ensures
            self@.len() <= self.entry_budget(),
            name_bytes(self@) <= self.name_budget(),
            r matches IoOutcome::Directory(entries) && sorted(entries@) && entries@.to_multiset()
                == self@.to_multiset() && listing(entries@).to_multiset() == listing(
                self@,
            ).to_multiset(),
    {
        let DirectorySnapshot { entries, .. } = self;
        let mut rest = entries;
        let mut out: Vec<DirectoryEntry> = Vec::new();
        let ghost all = rest@;
        proof {
            broadcast use vstd::seq_lib::group_to_multiset_ensures;

            assert(listing(out@) =~= Seq::<(Seq<u8>, DirectoryEntryKind)>::empty());
            assert(rest@.to_multiset().add(out@.to_multiset()) =~= all.to_multiset());
            assert(listing(rest@).to_multiset().add(listing(out@).to_multiset()) =~= listing(
                all,
            ).to_multiset());
        }
        while rest.len() > 0
            invariant
                sorted(out@),
                rest@.to_multiset().add(out@.to_multiset()) == all.to_multiset(),
                listing(rest@).to_multiset().add(listing(out@).to_multiset()) == listing(
                    all,
                ).to_multiset(),
            decreases rest@.len(),
        {
            let ghost before = rest@;
            let ghost sorted_before = out@;
            let entry = match rest.pop() {
                Some(entry) => entry,
                None => {
                    return IoOutcome::Directory(out);
                },
            };
            insert_sorted(&mut out, entry);
            proof {
                broadcast use vstd::seq_lib::group_to_multiset_ensures;

                assert(before =~= rest@.push(entry));
                assert(listing(before) =~= listing(rest@).push((entry.name@, entry.kind)));
                assert(rest@.to_multiset().add(out@.to_multiset()) =~= all.to_multiset());
                assert(listing(rest@).to_multiset().add(listing(out@).to_multiset()) =~= listing(
                    all,
                ).to_multiset());
            }
        }
        proof {
            broadcast use vstd::seq_lib::group_to_multiset_ensures;

            assert(rest@ =~= Seq::<DirectoryEntry>::empty());
            assert(listing(rest@) =~= Seq::<(Seq<u8>, DirectoryEntryKind)>::empty());
            assert(out@.to_multiset() =~= all.to_multiset());
            assert(listing(out@).to_multiset() =~= listing(all).to_multiset());
        }
        IoOutcome::Directory(out)
    }
}

/// Puts an entry where it belongs in a sorted list.
fn insert_sorted(out: &mut Vec<DirectoryEntry>, entry: DirectoryEntry)
    requires
        sorted(old(out)@),
    ensures
        sorted(final(out)@),
        final(out)@.to_multiset() == old(out)@.to_multiset().insert(entry),
        listing(final(out)@).to_multiset() == listing(old(out)@).to_multiset().insert(
            (entry.name@, entry.kind),
        ),
{
    let mut at: usize = 0;
    while at < out.len() && bytes_at_most(out[at].name.as_slice(), entry.name.as_slice())
        invariant
            at <= out@.len(),
            out@ == old(out)@,
            sorted(out@),
            forall|i: int| 0 <= i < at ==> bytes_le(#[trigger] out@[i].name@, entry.name@),
        decreases out@.len() - at,
    {
        at += 1;
    }
    let ghost before = out@;
    out.insert(at, entry);
    proof {
        broadcast use vstd::seq_lib::group_to_multiset_ensures;

        assert(before.insert(at as int, entry) == out@);
        assert(listing(out@) =~= listing(before).insert(at as int, (entry.name@, entry.kind)));
        assert forall|j: int| at <= j < before.len() implies bytes_le(
            entry.name@,
            #[trigger] before[j].name@,
        ) by {
            lemma_total(before[at as int].name@, entry.name@);
            if j > at {
                lemma_transitive(entry.name@, before[at as int].name@, before[j].name@);
            }
        }
        assert forall|i: int, j: int| 0 <= i < j < out@.len() implies bytes_le(
            #[trigger] out@[i].name@,
            #[trigger] out@[j].name@,
        ) by {
            let a = if i < at { i } else { i - 1 };
            let b = if j < at { j } else { j - 1 };
            if i != at {
                assert(out@[i] == before[a]);
            }
            if j != at {
                assert(out@[j] == before[b]);
            }
        }
    }
}

/// The bytes of the names of a listing are those of each of its entries.
pub proof fn law_names_add_up(entries: Seq<DirectoryEntry>, entry: DirectoryEntry)
    ensures
        name_bytes(Seq::empty()) == 0,
        name_bytes(entries.push(entry)) == name_bytes(entries) + entry.name@.len(),
{
    assert(entries.push(entry).drop_last() =~= entries);
}

/// An entry fits exactly while neither budget is exceeded with it.
pub proof fn law_both_budgets_count(snapshot: DirectorySnapshot, entry: DirectoryEntry)
    ensures
        snapshot.fits(entry) <==> {
            let more = snapshot@.push(entry);
            &&& more.len() <= snapshot.entry_budget()
            &&& name_bytes(more) <= snapshot.name_budget()
        },
{
    law_names_add_up(snapshot@, entry);
}

/// A sorted listing has each name before those that are greater.
pub proof fn law_sorted_is_in_order(entries: Seq<DirectoryEntry>, i: int, j: int)
    requires
        sorted(entries),
        0 <= i < entries.len(),
        0 <= j < entries.len(),
        !bytes_le(entries[j].name@, entries[i].name@),
    ensures
        i < j,
        listing(entries)[i] == (entries[i].name@, entries[i].kind),
{
    if j < i {
        assert(bytes_le(entries[j].name@, entries[i].name@));
    }
    if i == j {
        lemma_total(entries[i].name@, entries[i].name@);
    }
}

} // verus!
