//! A map kept as a list of entries, no two of which have the same key.
use vstd::prelude::*;

verus! {

/// What a key stands for, and how two keys are compared.
pub trait Key: Sized {
    type Model;

    spec fn model(&self) -> Self::Model;

    fn same(&self, other: &Self) -> (r: bool)
        ensures
            r == (self.model() == other.model()),
    ;
}

impl Key for u64 {
    type Model = u64;

    open spec fn model(&self) -> u64 {
        *self
    }

    fn same(&self, other: &u64) -> (r: bool) {
        *self == *other
    }
}

pub struct Table<K, V> {
    entries: Vec<(K, V)>,
}

impl<K: Key, V> Table<K, V> {
    /// The entries in the order in which they are kept.
    pub closed spec fn items(self) -> Seq<(K, V)> {
        self.entries@
    }

    pub open spec fn holds(self, k: K::Model) -> bool {
        exists|i: int| 0 <= i < self.items().len() && #[trigger] self.items()[i].0.model() == k
    }

    pub open spec fn place(self, k: K::Model) -> int {
        choose|i: int| 0 <= i < self.items().len() && #[trigger] self.items()[i].0.model() == k
    }

    pub open spec fn view(self) -> Map<K::Model, V> {
        Map::new(|k: K::Model| self.holds(k), |k: K::Model| self.items()[self.place(k)].1)
    }

    /// No two entries have the same key.
    pub open spec fn wf(self) -> bool {
        &&& forall|i: int, j: int|
            0 <= i < j < self.items().len() ==> #[trigger] self.items()[i].0.model()
                != #[trigger] self.items()[j].0.model()
        &&& self@.dom().finite()
        &&& self@.dom().len() == self.items().len()
    }

    /// Every entry is what the map holds under its key.
    pub proof fn lemma_item(self, i: int)
        requires
            self.wf(),
            0 <= i < self.items().len(),
        ensures
            self@.dom().contains(self.items()[i].0.model()),
            self@[self.items()[i].0.model()] == self.items()[i].1,
            self.place(self.items()[i].0.model()) == i,
    {
        let k = self.items()[i].0.model();
        assert(self.holds(k));
        let p = self.place(k);
        assert(0 <= p < self.items().len() && self.items()[p].0.model() == k);
        if p < i {
            assert(self.items()[p].0.model() != self.items()[i].0.model());
        }
        if i < p {
            assert(self.items()[i].0.model() != self.items()[p].0.model());
        }
    }

    /// Every key of the map is the key of some entry.
    pub proof fn lemma_key(self, k: K::Model)
        requires
            self@.dom().contains(k),
        ensures
            0 <= self.place(k) < self.items().len(),
            self.items()[self.place(k)].0.model() == k,
            self@[k] == self.items()[self.place(k)].1,
    {
        assert(self.holds(k));
    }

    proof fn lemma_update(before: Table<K, V>, after: Table<K, V>, p: int, v: V)
        requires
            before.wf(),
            0 <= p < before.items().len(),
            after.items() == before.items().update(p, (before.items()[p].0, v)),
        ensures
            after.wf(),
            after@ == before@.insert(before.items()[p].0.model(), v),
    {
        let m = before.items()[p].0.model();
        before.lemma_item(p);
        assert forall|i: int| 0 <= i < after.items().len() implies
            #[trigger] after.items()[i].0.model() == before.items()[i].0.model() by {}
        assert forall|x: K::Model| after.holds(x) <==> before.holds(x) by {
            if after.holds(x) {
                let i = after.place(x);
                assert(before.items()[i].0.model() == x);
            }
            if before.holds(x) {
                let i = before.place(x);
                assert(after.items()[i].0.model() == x);
            }
        }
        assert(after@.dom() =~= before@.dom());
        assert forall|x: K::Model| after.holds(x) implies #[trigger] after@[x] == before@.insert(
            m,
            v,
        )[x] by {
            let i = after.place(x);
            assert(before.items()[i].0.model() == x);
            before.lemma_item(i);
        }
        assert(after@ =~= before@.insert(m, v));
    }

    pub fn new() -> (r: Table<K, V>)
        ensures
            r.wf(),
            r@ == Map::<K::Model, V>::empty(),
            r.items().len() == 0,
    {
        let r = Table { entries: Vec::new() };
        assert(r@ =~= Map::<K::Model, V>::empty());
        assert(r@.dom() =~= Set::<K::Model>::empty());
        r
    }

    pub fn len(&self) -> (r: usize)
        requires
            self.wf(),
        ensures
            r == self@.dom().len(),
            r == self.items().len(),
    {
        self.entries.len()
    }

    /// The key and the value of the entry at `i`.
    pub fn at(&self, i: usize) -> (r: (&K, &V))
        requires
            i < self.items().len(),
        ensures
            *r.0 == self.items()[i as int].0,
            *r.1 == self.items()[i as int].1,
    {
        let entry = &self.entries[i];
        (&entry.0, &entry.1)
    }

    /// Lends the value of the entry at `i` for writing.
    pub fn at_mut(&mut self, i: usize) -> (r: &mut V)
        requires
            old(self).wf(),
            i < old(self).items().len(),
        ensures
            *r == old(self).items()[i as int].1,
            final(self).wf(),
            final(self).items() == old(self).items().update(
                i as int,
                (old(self).items()[i as int].0, *final(r)),
            ),
            final(self)@ == old(self)@.insert(old(self).items()[i as int].0.model(), *final(r)),
    {
        let entry = &mut self.entries[i];
        let v = &mut entry.1;
        proof {
            Self::lemma_update(*old(self), after_borrow(*self), i as int, *final(v));
        }
        v
    }

    fn find(&self, k: &K) -> (r: Option<usize>)
        requires
            self.wf(),
        ensures
            r is None <==> !self@.dom().contains(k.model()),
            r matches Some(i) ==> {
                &&& i < self.items().len()
                &&& self.items()[i as int].0.model() == k.model()
                &&& self@.dom().contains(k.model())
                &&& self@[k.model()] == self.items()[i as int].1
                &&& self.place(k.model()) == i
            },
    {
        let mut i: usize = 0;
        while i < self.entries.len()
            invariant
                self.wf(),
                i <= self.entries@.len(),
                forall|j: int| 0 <= j < i ==> #[trigger] self.items()[j].0.model() != k.model(),
            decreases self.entries@.len() - i,
        {
            if self.entries[i].0.same(k) {
                proof {
                    self.lemma_item(i as int);
                }
                return Some(i);
            }
            i += 1;
        }
        assert(!self.holds(k.model()));
        None
    }

    pub fn get(&self, k: &K) -> (r: Option<&V>)
        requires
            self.wf(),
        ensures
            r == (if self@.dom().contains(k.model()) {
                Some(&self@[k.model()])
            } else {
                None
            }),
    {
        match self.find(k) {
            Some(i) => Some(&self.entries[i].1),
            None => None,
        }
    }

    pub fn contains(&self, k: &K) -> (r: bool)
        requires
            self.wf(),
        ensures
            r == self@.dom().contains(k.model()),
    {
        self.find(k).is_some()
    }

    /// Puts `v` under `k`, in place of what was there.
    pub fn insert(&mut self, k: K, v: V) -> (r: Option<V>)
        requires
            old(self).wf(),
        ensures
            final(self).wf(),
            final(self)@ == old(self)@.insert(k.model(), v),
            r == (if old(self)@.dom().contains(k.model()) {
                Some(old(self)@[k.model()])
            } else {
                None
            }),
    {
        let removed = self.remove(&k);
        let ghost mid = *self;
        self.entries.push((k, v));
        proof {
            let m = k.model();
            assert(!mid.holds(m));
            assert forall|i: int, j: int| 0 <= i < j < self.items().len() implies
                #[trigger] self.items()[i].0.model() != #[trigger] self.items()[j].0.model() by {
                assert(self.items()[i] == mid.items()[i]);
                if j < mid.items().len() {
                    assert(self.items()[j] == mid.items()[j]);
                }
            }
            assert forall|x: K::Model| self.holds(x) <==> (mid.holds(x) || x == m) by {
                if self.holds(x) {
                    let i = self.place(x);
                    if i < mid.items().len() {
                        assert(mid.items()[i].0.model() == x);
                    }
                }
                if mid.holds(x) {
                    let i = mid.place(x);
                    assert(self.items()[i].0.model() == x);
                }
                assert(self.items()[mid.items().len() as int].0.model() == m);
            }
            assert(self@.dom() =~= mid@.dom().insert(m));
            assert forall|x: K::Model| self.holds(x) implies #[trigger] self@[x] == mid@.insert(
                m,
                v,
            )[x] by {
                let i = self.place(x);
                if i < mid.items().len() {
                    assert(mid.items()[i].0.model() == x);
                    mid.lemma_item(i);
                }
            }
            assert(self@ =~= mid@.insert(m, v));
            assert(mid@.insert(m, v) =~= old(self)@.insert(m, v));
        }
        removed
    }

    /// Takes out what is under `k`.
    pub fn remove(&mut self, k: &K) -> (r: Option<V>)
        requires
            old(self).wf(),
        ensures
            final(self).wf(),
            final(self)@ == old(self)@.remove(k.model()),
            r == (if old(self)@.dom().contains(k.model()) {
                Some(old(self)@[k.model()])
            } else {
                None
            }),
            r is None ==> final(self).items() == old(self).items(),
    {
        match self.find(k) {
            None => {
                assert(self@ =~= old(self)@.remove(k.model()));
                None
            },
            Some(p) => {
                let (_, v) = self.entries.remove(p);
                proof {
                    let before = *old(self);
                    let m = k.model();
                    assert(self.items() =~= before.items().remove(p as int));
                    assert forall|i: int, j: int| 0 <= i < j < self.items().len() implies
                        #[trigger] self.items()[i].0.model() != #[trigger] self.items()[j].0.model() by {
                        let a = if i < p { i } else { i + 1 };
                        let b = if j < p { j } else { j + 1 };
                        assert(self.items()[i] == before.items()[a]);
                        assert(self.items()[j] == before.items()[b]);
                    }
                    assert forall|x: K::Model| self.holds(x) <==> (before.holds(x) && x != m) by {
                        if self.holds(x) {
                            let i = self.place(x);
                            let a = if i < p { i } else { i + 1 };
                            assert(before.items()[a].0.model() == x);
                            before.lemma_item(a);
                            before.lemma_item(p as int);
                        }
                        if before.holds(x) && x != m {
                            let a = before.place(x);
                            let i = if a < p { a } else { a - 1 };
                            assert(self.items()[i].0.model() == x);
                        }
                    }
                    assert(self@.dom() =~= before@.dom().remove(m));
                    assert forall|x: K::Model| self.holds(x) implies #[trigger] self@[x]
                        == before@[x] by {
                        let i = self.place(x);
                        let a = if i < p { i } else { i + 1 };
                        assert(before.items()[a].0.model() == x);
                        before.lemma_item(a);
                    }
                    assert(self@ =~= before@.remove(m));
                }
                Some(v)
            },
        }
    }

    /// Lends the value under `k` for writing.
    pub fn get_mut(&mut self, k: &K) -> (r: Option<&mut V>)
        requires
            old(self).wf(),
        ensures
            match r {
                Some(v) => {
                    &&& old(self)@.dom().contains(k.model())
                    &&& *v == old(self)@[k.model()]
                    &&& final(self).wf()
                    &&& final(self)@ == old(self)@.insert(k.model(), *final(v))
                },
                None => !old(self)@.dom().contains(k.model()) && *final(self) == *old(self),
            },
    {
        match self.find(k) {
            None => None,
            Some(p) => {
                let entry = &mut self.entries[p];
                let v = &mut entry.1;
                proof {
                    Self::lemma_update(*old(self), after_borrow(*self), p as int, *final(v));
                }
                Some(v)
            },
        }
    }
}

} // verus!
