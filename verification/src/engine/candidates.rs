//! The keys that a compaction has to copy, each with the address of its newest record in the range.
//! They are taken out in the order of their bytes.
use crate::order::{bytes_at_most, bytes_le, lemma_total, lemma_transitive};
use crate::device::path::same_bytes;
use crate::totals::{lemma_total_insert, lemma_total_remove, total};
use crate::types::{Error, LogAddress};
use vstd::prelude::*;

verus! {

/// How many bytes the keys of a map have together.
pub open spec fn key_bytes(m: Map<Seq<u8>, LogAddress>) -> nat {
    total(key_lengths(m))
}

pub open spec fn key_lengths(m: Map<Seq<u8>, LogAddress>) -> Map<Seq<u8>, nat> {
    Map::new(|k: Seq<u8>| m.dom().contains(k), |k: Seq<u8>| k.len())
}

spec fn before(a: Seq<u8>, b: Seq<u8>) -> bool {
    bytes_le(a, b) && a != b
}

proof fn lemma_before(a: Seq<u8>, b: Seq<u8>, c: Seq<u8>)
    ensures
        !(before(a, b) && before(b, a)),
        before(a, b) && before(b, c) ==> before(a, c),
{
    lemma_total(a, b);
    if before(a, b) && before(b, c) {
        lemma_transitive(a, b, c);
        lemma_total(b, c);
        lemma_total(a, c);
    }
}

/// The entries, from the greatest key to the least.
pub struct Candidates {
    entries: Vec<(Vec<u8>, LogAddress)>,
    bytes: usize,
}

impl Candidates {
    pub closed spec fn holds(self, k: Seq<u8>) -> bool {
        exists|i: int| 0 <= i < self.entries@.len() && #[trigger] self.entries@[i].0@ == k
    }

    pub closed spec fn address(self, k: Seq<u8>) -> LogAddress {
        self.entries@[choose|i: int|
            0 <= i < self.entries@.len() && #[trigger] self.entries@[i].0@ == k].1
    }

    pub closed spec fn view(self) -> Map<Seq<u8>, LogAddress> {
        Map::new(|k: Seq<u8>| self.holds(k), |k: Seq<u8>| self.address(k))
    }

    spec fn descending(self) -> bool {
        forall|i: int, j: int|
            0 <= i < j < self.entries@.len() ==> before(
                #[trigger] self.entries@[j].0@,
                #[trigger] self.entries@[i].0@,
            )
    }

    /// No key occurs twice, and the bytes of all keys are counted.
    pub closed spec fn wf(self) -> bool {
        &&& self.descending()
        &&& self@.dom().finite()
        &&& self@.dom().len() == self.entries@.len()
        &&& self.bytes == key_bytes(self@)
    }

    proof fn lemma_entry(self, i: int)
        requires
            self.descending(),
            0 <= i < self.entries@.len(),
        ensures
            self@.dom().contains(self.entries@[i].0@),
            self@[self.entries@[i].0@] == self.entries@[i].1,
    {
        let k = self.entries@[i].0@;
        assert(self.holds(k));
        let p = choose|p: int| 0 <= p < self.entries@.len() && #[trigger] self.entries@[p].0@ == k;
        if p < i {
            assert(before(self.entries@[i].0@, self.entries@[p].0@));
        }
        if i < p {
            assert(before(self.entries@[p].0@, self.entries@[i].0@));
        }
    }

    pub fn new() -> (r: Candidates)
        ensures
            r.wf(),
            r@ == Map::<Seq<u8>, LogAddress>::empty(),
    {
        let r = Candidates { entries: Vec::new(), bytes: 0 };
        assert(r@ =~= Map::<Seq<u8>, LogAddress>::empty());
        assert(r@.dom() =~= Set::<Seq<u8>>::empty());
        assert(key_lengths(r@).dom() =~= Set::<Seq<u8>>::empty());
        r
    }

    pub fn len(&self) -> (r: usize)
        requires
            self.wf(),
        ensures
            r == self@.dom().len(),
    {
        self.entries.len()
    }

    pub fn bytes(&self) -> (r: usize)
        requires
            self.wf(),
        ensures
            r == key_bytes(self@),
    {
        self.bytes
    }

    /// Where `key` is, or where it would have to be put.
    fn find(&self, key: &[u8]) -> (r: Result<usize, usize>)
        requires
            self.wf(),
        ensures
            match r {
                Ok(i) => i < self.entries@.len() && self.entries@[i as int].0@ == key@,
                Err(at) => {
                    &&& at <= self.entries@.len()
                    &&& forall|i: int|
                        0 <= i < at ==> before(key@, #[trigger] self.entries@[i].0@)
                    &&& forall|i: int|
                        at <= i < self.entries@.len() ==> before(
                            #[trigger] self.entries@[i].0@,
                            key@,
                        )
                },
            },
    {
        let mut low: usize = 0;
        let mut high: usize = self.entries.len();
        while low < high
            invariant
                self.descending(),
                low <= high <= self.entries@.len(),
                forall|i: int| 0 <= i < low ==> before(key@, #[trigger] self.entries@[i].0@),
                forall|i: int|
                    high <= i < self.entries@.len() ==> before(
                        #[trigger] self.entries@[i].0@,
                        key@,
                    ),
            decreases high - low,
        {
            let middle: usize = low + (high - low) / 2;
            let here = &self.entries[middle].0;
            if same_bytes(here.as_slice(), key) {
                return Ok(middle);
            }
            if bytes_at_most(here.as_slice(), key) {
                assert forall|i: int| middle <= i < self.entries@.len() implies before(
                    #[trigger] self.entries@[i].0@,
                    key@,
                ) by {
                    if i > middle {
                        lemma_before(self.entries@[i].0@, here@, key@);
                    }
                }
                high = middle;
            } else {
                proof {
                    lemma_total(here@, key@);
                }
                assert forall|i: int| 0 <= i <= middle implies before(
                    key@,
                    #[trigger] self.entries@[i].0@,
                ) by {
                    if i < middle {
                        lemma_before(key@, here@, self.entries@[i].0@);
                    }
                }
                low = middle + 1;
            }
        }
        Err(low)
    }

    /// Notes that the newest record of `key` is at `address`. A key that is not there yet has to
    /// fit into the budget of keys and into that of key bytes.
    pub fn note(&mut self, key: Vec<u8>, address: LogAddress, max_keys: usize, max_bytes: usize) -> (r:
        Result<(), Error>)
        requires
            old(self).wf(),
        ensures
            final(self).wf(),
            ({
                let fits = old(self)@.dom().contains(key@) || (old(self)@.dom().len() < max_keys
                    && key_bytes(old(self)@) + key@.len() <= max_bytes);
                &&& r == (if fits {
                    Ok::<(), Error>(())
                } else {
                    Err::<(), Error>(Error::CapacityExceeded)
                })
                &&& final(self)@ == (if fits {
                    old(self)@.insert(key@, address)
                } else {
                    old(self)@
                })
            }),
    {
        let ghost m = self@;
        let ghost k = key@;
        match self.find(key.as_slice()) {
            Ok(i) => {
                proof {
                    self.lemma_entry(i as int);
                }
                self.entries[i].1 = address;
                proof {
                    self.lemma_replaced(*old(self), i as int, address);
                }
                Ok(())
            },
            Err(at) => {
                proof {
                    assert(!self.holds(k)) by {
                        if self.holds(k) {
                            let p = choose|p: int|
                                0 <= p < self.entries@.len() && #[trigger] self.entries@[p].0@ == k;
                            assert(before(k, self.entries@[p].0@) || before(self.entries@[p].0@, k));
                        }
                    }
                }
                let bytes = match self.bytes.checked_add(key.len()) {
                    Some(bytes) => bytes,
                    None => {
                        return Err(Error::CapacityExceeded);
                    },
                };
                if self.entries.len() >= max_keys || bytes > max_bytes {
                    return Err(Error::CapacityExceeded);
                }
                self.entries.insert(at, (key, address));
                self.bytes = bytes;
                proof {
                    self.lemma_inserted(*old(self), at as int, k, address);
                }
                Ok(())
            },
        }
    }

    proof fn lemma_replaced(self, was: Candidates, i: int, address: LogAddress)
        requires
            was.wf(),
            0 <= i < was.entries@.len(),
            self.entries@.len() == was.entries@.len(),
            self.entries@[i].0@ == was.entries@[i].0@,
            self.entries@[i].1 == address,
            forall|j: int|
                0 <= j < was.entries@.len() && j != i ==> self.entries@[j] == was.entries@[j],
            self.bytes == was.bytes,
        ensures
            self.wf(),
            self@ == was@.insert(was.entries@[i].0@, address),
    {
        let k = was.entries@[i].0@;
        assert(self.descending()) by {
            assert forall|a: int, b: int| 0 <= a < b < self.entries@.len() implies before(
                #[trigger] self.entries@[b].0@,
                #[trigger] self.entries@[a].0@,
            ) by {
                assert(before(was.entries@[b].0@, was.entries@[a].0@));
            }
        }
        assert forall|x: Seq<u8>| self.holds(x) <==> was.holds(x) by {
            if self.holds(x) {
                let p = choose|p: int|
                    0 <= p < self.entries@.len() && #[trigger] self.entries@[p].0@ == x;
                assert(was.entries@[p].0@ == x);
            }
            if was.holds(x) {
                let p = choose|p: int|
                    0 <= p < was.entries@.len() && #[trigger] was.entries@[p].0@ == x;
                assert(self.entries@[p].0@ == x);
            }
        }
        assert(was.holds(k));
        assert(self@.dom() =~= was@.dom());
        assert forall|x: Seq<u8>| self.holds(x) implies #[trigger] self@[x] == was@.insert(
            k,
            address,
        )[x] by {
            let p = choose|p: int|
                0 <= p < self.entries@.len() && #[trigger] self.entries@[p].0@ == x;
            self.lemma_entry(p);
            was.lemma_entry(p);
            if p == i {
                assert(x == k);
            }
            if x == k {
                self.lemma_entry(i);
            }
        }
        assert(self@ =~= was@.insert(k, address));
        assert(key_lengths(self@) =~= key_lengths(was@));
    }

    proof fn lemma_inserted(self, was: Candidates, at: int, k: Seq<u8>, address: LogAddress)
        requires
            was.wf(),
            !was.holds(k),
            0 <= at <= was.entries@.len(),
            self.entries@.len() == was.entries@.len() + 1,
            forall|j: int| 0 <= j < at ==> self.entries@[j] == was.entries@[j],
            forall|j: int|
                at < j < self.entries@.len() ==> self.entries@[j] == was.entries@[j - 1],
            self.entries@[at].0@ == k,
            self.entries@[at].1 == address,
            self.bytes == was.bytes + k.len(),
            forall|i: int| 0 <= i < at ==> before(k, #[trigger] was.entries@[i].0@),
            forall|i: int|
                at <= i < was.entries@.len() ==> before(#[trigger] was.entries@[i].0@, k),
        ensures
            self.wf(),
            self@ == was@.insert(k, address),
    {
        assert(self.descending()) by {
            assert forall|a: int, b: int| 0 <= a < b < self.entries@.len() implies before(
                #[trigger] self.entries@[b].0@,
                #[trigger] self.entries@[a].0@,
            ) by {
                let wa = if a < at { a } else { a - 1 };
                let wb = if b < at { b } else { b - 1 };
                if a != at && b != at {
                    assert(before(was.entries@[wb].0@, was.entries@[wa].0@));
                } else if a == at {
                    assert(before(was.entries@[wb].0@, k));
                } else {
                    assert(before(k, was.entries@[wa].0@));
                }
            }
        }
        assert forall|x: Seq<u8>| self.holds(x) <==> (was.holds(x) || x == k) by {
            if self.holds(x) {
                let p = choose|p: int|
                    0 <= p < self.entries@.len() && #[trigger] self.entries@[p].0@ == x;
                if p < at {
                    assert(was.entries@[p].0@ == x);
                } else if p > at {
                    assert(was.entries@[p - 1].0@ == x);
                }
            }
            if was.holds(x) {
                let p = choose|p: int|
                    0 <= p < was.entries@.len() && #[trigger] was.entries@[p].0@ == x;
                let q = if p < at { p } else { p + 1 };
                assert(self.entries@[q].0@ == x);
            }
            assert(self.entries@[at].0@ == k);
        }
        assert(self@.dom() =~= was@.dom().insert(k));
        assert forall|x: Seq<u8>| self.holds(x) implies #[trigger] self@[x] == was@.insert(
            k,
            address,
        )[x] by {
            let p = choose|p: int|
                0 <= p < self.entries@.len() && #[trigger] self.entries@[p].0@ == x;
            self.lemma_entry(p);
            if p < at {
                was.lemma_entry(p);
            } else if p > at {
                was.lemma_entry(p - 1);
            }
        }
        assert(self@ =~= was@.insert(k, address));
        assert(key_lengths(was@).dom() =~= was@.dom());
        assert(key_lengths(self@) =~= key_lengths(was@).insert(k, k.len()));
        lemma_total_insert(key_lengths(was@), k, k.len());
    }

    /// Takes out the least key.
    pub fn pop_first(&mut self) -> (r: Option<(Vec<u8>, LogAddress)>)
        requires
            old(self).wf(),
        ensures
            final(self).wf(),
            match r {
                Some((key, address)) => {
                    &&& old(self)@.dom().contains(key@)
                    &&& old(self)@[key@] == address
                    &&& forall|k: Seq<u8>| #[trigger]
                        old(self)@.dom().contains(k) ==> bytes_le(key@, k)
                    &&& final(self)@ == old(self)@.remove(key@)
                },
                None => old(self)@ == Map::<Seq<u8>, LogAddress>::empty() && final(self)@ == old(
                    self,
                )@,
            },
    {
        let ghost was = *self;
        match self.entries.pop() {
            None => {
                assert(was@ =~= Map::<Seq<u8>, LogAddress>::empty());
                assert(self@ =~= was@);
                None
            },
            Some((key, address)) => {
                let ghost k = key@;
                let ghost last = was.entries@.len() - 1;
                proof {
                    was.lemma_entry(last);
                    assert(key_lengths(was@).dom() =~= was@.dom());
                    lemma_total_remove(key_lengths(was@), k);
                }
                self.bytes = self.bytes - key.len();
                proof {
                    assert(self.descending()) by {
                        assert forall|a: int, b: int| 0 <= a < b < self.entries@.len() implies before(
                            #[trigger] self.entries@[b].0@,
                            #[trigger] self.entries@[a].0@,
                        ) by {
                            assert(before(was.entries@[b].0@, was.entries@[a].0@));
                        }
                    }
                    assert forall|x: Seq<u8>| self.holds(x) <==> (was.holds(x) && x != k) by {
                        if self.holds(x) {
                            let p = choose|p: int|
                                0 <= p < self.entries@.len() && #[trigger] self.entries@[p].0@ == x;
                            assert(was.entries@[p].0@ == x);
                            assert(before(was.entries@[last].0@, was.entries@[p].0@));
                        }
                        if was.holds(x) && x != k {
                            let p = choose|p: int|
                                0 <= p < was.entries@.len() && #[trigger] was.entries@[p].0@ == x;
                            assert(self.entries@[p].0@ == x);
                        }
                    }
                    assert(self@.dom() =~= was@.dom().remove(k));
                    assert forall|x: Seq<u8>| self.holds(x) implies #[trigger] self@[x] == was@[x] by {
                        let p = choose|p: int|
                            0 <= p < self.entries@.len() && #[trigger] self.entries@[p].0@ == x;
                        self.lemma_entry(p);
                        was.lemma_entry(p);
                    }
                    assert(self@ =~= was@.remove(k));
                    assert(key_lengths(self@) =~= key_lengths(was@).remove(k));
                    assert forall|x: Seq<u8>| #[trigger] was@.dom().contains(x) implies bytes_le(
                        k,
                        x,
                    ) by {
                        let p = choose|p: int|
                            0 <= p < was.entries@.len() && #[trigger] was.entries@[p].0@ == x;
                        if p == last {
                            lemma_total(k, k);
                        } else {
                            assert(before(was.entries@[last].0@, was.entries@[p].0@));
                        }
                    }
                }
                Some((key, address))
            },
        }
    }
}

/// The bytes of all keys are those of each of them.
pub proof fn law_key_bytes_add_up(m: Map<Seq<u8>, LogAddress>, k: Seq<u8>, address: LogAddress)
    requires
        m.dom().finite(),
    ensures
        key_bytes(Map::empty()) == 0,
        !m.dom().contains(k) ==> key_bytes(m.insert(k, address)) == key_bytes(m) + k.len(),
        m.dom().contains(k) ==> key_bytes(m.insert(k, address)) == key_bytes(m),
        m.dom().contains(k) ==> key_bytes(m) == key_bytes(m.remove(k)) + k.len(),
{
    assert(key_lengths(Map::empty()).dom() =~= Set::<Seq<u8>>::empty());
    assert(key_lengths(m).dom() =~= m.dom());
    if m.dom().contains(k) {
        assert(key_lengths(m.insert(k, address)) =~= key_lengths(m));
        crate::totals::lemma_total_remove(key_lengths(m), k);
        assert(key_lengths(m).remove(k) =~= key_lengths(m.remove(k)));
    } else {
        crate::totals::lemma_total_insert(key_lengths(m), k, k.len());
        assert(key_lengths(m.insert(k, address)) =~= key_lengths(m).insert(k, k.len()));
    }
}

} // verus!
