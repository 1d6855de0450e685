//! Paths below the root of a device: names separated by slashes.
use crate::table::Key;
use vstd::prelude::*;

verus! {

/// What stands between the slashes of `p`, from the first to the last.
pub open spec fn pieces(p: Seq<u8>) -> Seq<Seq<u8>>
    decreases p.len(),
{
    if p.len() == 0 {
        seq![Seq::<u8>::empty()]
    } else {
        let before = pieces(p.drop_last());
        if p.last() == 0x2f {
            before.push(Seq::empty())
        } else {
            before.drop_last().push(before.last().push(p.last()))
        }
    }
}

/// A piece that names something. Nothing between two slashes, and a single dot, name nothing.
pub open spec fn names_something(piece: Seq<u8>) -> bool {
    piece.len() > 0 && piece != seq![0x2eu8]
}

/// The names that lead to `p`.
pub open spec fn names(p: Seq<u8>) -> Seq<Seq<u8>> {
    pieces(p).filter(|piece: Seq<u8>| names_something(piece))
}

/// Whether `p` is relative to the root, does not start at a single dot and never goes up.
pub open spec fn canonical(p: Seq<u8>) -> bool {
    &&& p.len() > 0
    &&& p[0] != 0x2f
    &&& pieces(p)[0] != seq![0x2eu8]
    &&& forall|i: int| 0 <= i < pieces(p).len() ==> #[trigger] pieces(p)[i] != seq![0x2eu8, 0x2eu8]
}

pub open spec fn bytes_of(v: Seq<Vec<u8>>) -> Seq<Seq<u8>> {
    Seq::new(v.len(), |i: int| v[i]@)
}

/// Compares two byte strings.
pub fn same_bytes(a: &[u8], b: &[u8]) -> (r: bool)
    ensures
        r == (a@ == b@),
{
    if a.len() != b.len() {
        return false;
    }
    let mut i: usize = 0;
    while i < a.len()
        invariant
            i <= a@.len(),
            a@.len() == b@.len(),
            forall|j: int| 0 <= j < i ==> a@[j] == b@[j],
        decreases a@.len() - i,
    {
        if a[i] != b[i] {
            assert(a@[i as int] != b@[i as int]);
            return false;
        }
        i += 1;
    }
    assert(a@ =~= b@);
    true
}

/// A copy of a byte string.
pub fn copy_bytes(a: &[u8]) -> (r: Vec<u8>)
    ensures
        r@ == a@,
{
    let mut r: Vec<u8> = Vec::new();
    let mut i: usize = 0;
    while i < a.len()
        invariant
            i <= a@.len(),
            r@ == a@.take(i as int),
        decreases a@.len() - i,
    {
        r.push(a[i]);
        assert(a@.take(i as int).push(a@[i as int]) =~= a@.take(i + 1));
        i += 1;
    }
    assert(a@.take(i as int) =~= a@);
    r
}

/// The names that lead from the root of a device to a file or a directory. The root has none.
#[derive(Debug)]
pub struct DevicePath {
    names: Vec<Vec<u8>>,
}

impl View for DevicePath {
    type V = Seq<Seq<u8>>;

    closed spec fn view(&self) -> Seq<Seq<u8>> {
        bytes_of(self.names@)
    }
}

impl Key for DevicePath {
    type Model = Seq<Seq<u8>>;

    open spec fn model(&self) -> Seq<Seq<u8>> {
        self@
    }

    fn same(&self, other: &DevicePath) -> (r: bool) {
        let n = self.names.len();
        assert(self@.take(n as int) =~= self@);
        assert(other@.len() == n ==> other@.take(n as int) =~= other@);
        n == other.names.len() && self.same_prefix(other, n)
    }
}

proof fn lemma_filter_push(s: Seq<Seq<u8>>, x: Seq<u8>)
    ensures
        s.push(x).filter(|piece: Seq<u8>| names_something(piece)) == (if names_something(x) {
            s.filter(|piece: Seq<u8>| names_something(piece)).push(x)
        } else {
            s.filter(|piece: Seq<u8>| names_something(piece))
        }),
{
    reveal(Seq::filter);
    assert(s.push(x).drop_last() =~= s);
}

proof fn lemma_pieces_take(p: Seq<u8>, i: int)
    requires
        0 <= i < p.len(),
    ensures
        pieces(p.take(i)).len() > 0,
        pieces(p.take(i + 1)) == (if p[i] == 0x2f {
            pieces(p.take(i)).push(Seq::empty())
        } else {
            pieces(p.take(i)).drop_last().push(pieces(p.take(i)).last().push(p[i]))
        }),
{
    assert(p.take(i + 1).drop_last() =~= p.take(i));
    lemma_pieces_some(p.take(i));
}

proof fn lemma_pieces_some(p: Seq<u8>)
    ensures
        pieces(p).len() > 0,
    decreases p.len(),
{
    if p.len() > 0 {
        lemma_pieces_some(p.drop_last());
    }
}

/// A canonical path names something.
pub proof fn lemma_canonical_names(p: Seq<u8>)
    requires
        canonical(p),
    ensures
        names(p).len() > 0,
{
    lemma_first_piece(p);
    let pred = |piece: Seq<u8>| names_something(piece);
    broadcast use vstd::seq_lib::group_filter_ensures;

    assert(pred(pieces(p)[0]));
    assert(pieces(p).contains(pieces(p)[0]));
    assert(names(p).contains(pieces(p)[0]));
}

proof fn lemma_first_piece(p: Seq<u8>)
    requires
        p.len() > 0,
        p[0] != 0x2f,
    ensures
        pieces(p).len() > 0,
        pieces(p)[0].len() > 0,
    decreases p.len(),
{
    lemma_pieces_some(p);
    lemma_pieces_some(p.drop_last());
    if p.len() == 1 {
        assert(p.drop_last() =~= Seq::<u8>::empty());
    } else {
        lemma_first_piece(p.drop_last());
    }
}

impl DevicePath {
    /// The root of the device.
    pub fn root() -> (r: DevicePath)
        ensures
            r@.len() == 0,
    {
        DevicePath { names: Vec::new() }
    }

    /// Reads a path. Only a canonical path is one.
    pub fn parse(path: &[u8]) -> (r: Option<DevicePath>)
        ensures
            r is Some <==> canonical(path@),
            r matches Some(parsed) ==> parsed@ == names(path@) && parsed@.len() > 0,
    {
        if path.len() == 0 || path[0] == 0x2f {
            return None;
        }
        let mut done: Vec<Vec<u8>> = Vec::new();
        let mut piece: Vec<u8> = Vec::new();
        let mut first: bool = true;
        let mut i: usize = 0;
        let ghost mut seen: Seq<Seq<u8>> = Seq::empty();
        proof {
            reveal(Seq::filter);
            assert(path@.take(0) =~= Seq::<u8>::empty());
            assert(pieces(path@.take(0)) =~= seen.push(piece@));
            assert(bytes_of(done@) =~= seen.filter(|piece: Seq<u8>| names_something(piece)));
        }
        while i < path.len()
            invariant
                i <= path@.len(),
                path@.len() > 0,
                path@[0] != 0x2f,
                pieces(path@.take(i as int)) == seen.push(piece@),
                bytes_of(done@) == seen.filter(|piece: Seq<u8>| names_something(piece)),
                first == (seen.len() == 0),
                seen.len() > 0 ==> seen[0] != seq![0x2eu8],
                forall|j: int| 0 <= j < seen.len() ==> #[trigger] seen[j] != seq![0x2eu8, 0x2eu8],
                i <= path@.len(),
            decreases path@.len() - i,
        {
            proof {
                lemma_pieces_take(path@, i as int);
            }
            if path[i] == 0x2f {
                let ghost closed = seen.push(piece@);
                proof {
                    assert(closed.push(Seq::<u8>::empty()).take(closed.len() as int) =~= closed);
                    lemma_prefix(path@, i + 1, path@.len() as int, closed);
                    assert(closed[seen.len() as int] == piece@);
                    lemma_filter_push(seen, piece@);
                }
                match Self::close(&mut done, piece, first) {
                    false => {
                        return None;
                    },
                    true => {},
                }
                proof {
                    seen = closed;
                }
                piece = Vec::new();
                first = false;
                assert(pieces(path@.take(i + 1)) =~= seen.push(piece@));
            } else {
                let ghost before = piece@;
                piece.push(path[i]);
                assert(seen.push(before).drop_last() =~= seen);
            }
            i += 1;
        }
        assert(path@.take(i as int) =~= path@);
        proof {
            lemma_filter_push(seen, piece@);
        }
        let ghost all = seen.push(piece@);
        if Self::close(&mut done, piece, first) {
            assert forall|j: int| 0 <= j < pieces(path@).len() implies #[trigger] pieces(path@)[j]
                != seq![0x2eu8, 0x2eu8] by {
                if j < seen.len() {
                    assert(pieces(path@)[j] == seen[j]);
                }
            }
            proof {
                lemma_canonical_names(path@);
            }
            Some(DevicePath { names: done })
        } else {
            assert(pieces(path@)[seen.len() as int] == all.last());
            None
        }
    }

    /// Closes one piece of a path: keeps it where it names something, refuses it where it would
    /// make the path no longer canonical.
    fn close(done: &mut Vec<Vec<u8>>, piece: Vec<u8>, first: bool) -> (r: bool)
        ensures
            r == !(piece@ == seq![0x2eu8, 0x2eu8] || (first && piece@ == seq![0x2eu8])),
            r ==> bytes_of(final(done)@) == (if names_something(piece@) {
                bytes_of(old(done)@).push(piece@)
            } else {
                bytes_of(old(done)@)
            }),
    {
        if piece.len() == 2 && piece[0] == 0x2e && piece[1] == 0x2e {
            assert(piece@ =~= seq![0x2eu8, 0x2eu8]);
            return false;
        }
        if piece.len() == 0 {
            return true;
        }
        if piece.len() == 1 && piece[0] == 0x2e {
            assert(piece@ =~= seq![0x2eu8]);
            return !first;
        }
        done.push(piece);
        assert(bytes_of(done@) =~= bytes_of(old(done)@).push(piece@));
        true
    }

    pub fn is_root(&self) -> (r: bool)
        ensures
            r == (self@.len() == 0),
    {
        self.names.len() == 0
    }

    fn same_prefix(&self, other: &DevicePath, n: usize) -> (r: bool)
        requires
            n <= self@.len(),
        ensures
            r == (n <= other@.len() && self@.take(n as int) == other@.take(n as int)),
    {
        if n > other.names.len() {
            return false;
        }
        let mut i: usize = 0;
        while i < n
            invariant
                i <= n,
                n <= self@.len(),
                n <= other@.len(),
                forall|j: int| 0 <= j < i ==> self@[j] == other@[j],
            decreases n - i,
        {
            if !same_bytes(self.names[i].as_slice(), other.names[i].as_slice()) {
                assert(self@[i as int] != other@[i as int]);
                assert(self@.take(n as int)[i as int] != other@.take(n as int)[i as int]);
                return false;
            }
            assert(self@[i as int] == other@[i as int]);
            i += 1;
        }
        assert(self@.take(n as int) =~= other@.take(n as int));
        true
    }

    /// Whether this path lies directly below `parent`.
    pub fn is_child_of(&self, parent: &DevicePath) -> (r: bool)
        ensures
            r == (self@.len() > 0 && self@.drop_last() == parent@),
    {
        if self.names.len() == 0 {
            return false;
        }
        let n = self.names.len() - 1;
        let r = parent.names.len() == n && self.same_prefix(parent, n);
        assert(self@.take(n as int) =~= self@.drop_last());
        assert(parent@.len() == n ==> parent@.take(n as int) =~= parent@);
        r
    }

    /// The path above this one.
    pub fn parent(&self) -> (r: DevicePath)
        requires
            self@.len() > 0,
        ensures
            r@ == self@.drop_last(),
    {
        let mut names: Vec<Vec<u8>> = Vec::new();
        let mut i: usize = 0;
        while i < self.names.len() - 1
            invariant
                self@.len() > 0,
                i <= self@.len() - 1,
                bytes_of(names@) == self@.take(i as int),
            decreases self@.len() - i,
        {
            let name = copy_bytes(self.names[i].as_slice());
            let ghost before = names@;
            names.push(name);
            assert(bytes_of(names@) =~= bytes_of(before).push(self@[i as int]));
            assert(self@.take(i as int).push(self@[i as int]) =~= self@.take(i + 1));
            i += 1;
        }
        assert(self@.take(i as int) =~= self@.drop_last());
        DevicePath { names }
    }

    /// The same path once more.
    pub fn copy(&self) -> (r: DevicePath)
        ensures
            r@ == self@,
    {
        let mut names: Vec<Vec<u8>> = Vec::new();
        let mut i: usize = 0;
        while i < self.names.len()
            invariant
                i <= self@.len(),
                bytes_of(names@) == self@.take(i as int),
            decreases self@.len() - i,
        {
            let name = copy_bytes(self.names[i].as_slice());
            let ghost before = names@;
            names.push(name);
            assert(bytes_of(names@) =~= bytes_of(before).push(self@[i as int]));
            assert(self@.take(i as int).push(self@[i as int]) =~= self@.take(i + 1));
            i += 1;
        }
        assert(self@.take(i as int) =~= self@);
        DevicePath { names }
    }

    /// How many names the path has.
    pub fn len(&self) -> (r: usize)
        ensures
            r == self@.len(),
    {
        self.names.len()
    }

    /// The name at `i`.
    pub fn at(&self, i: usize) -> (r: &Vec<u8>)
        requires
            i < self@.len(),
        ensures
            r@ == self@[i as int],
    {
        &self.names[i]
    }

    /// The last name.
    pub fn name(&self) -> (r: Vec<u8>)
        requires
            self@.len() > 0,
        ensures
            r@ == self@.last(),
    {
        copy_bytes(self.names[self.names.len() - 1].as_slice())
    }
}

/// Pieces that are closed stay what they are.
proof fn lemma_prefix(p: Seq<u8>, i: int, j: int, closed: Seq<Seq<u8>>)
    requires
        0 <= i <= j <= p.len(),
        closed.len() < pieces(p.take(i)).len(),
        pieces(p.take(i)).take(closed.len() as int) == closed,
    ensures
        closed.len() < pieces(p.take(j)).len(),
        pieces(p.take(j)).take(closed.len() as int) == closed,
        j == p.len() ==> pieces(p).take(closed.len() as int) == closed,
        j == p.len() ==> closed.len() < pieces(p).len(),
        j == p.len() ==> forall|k: int|
            0 <= k < closed.len() ==> #[trigger] pieces(p)[k] == closed[k],
    decreases j - i,
{
    if i < j {
        lemma_pieces_take(p, i);
        let a = pieces(p.take(i));
        let b = pieces(p.take(i + 1));
        assert(b.take(closed.len() as int) =~= a.take(closed.len() as int));
        lemma_prefix(p, i + 1, j, closed);
    }
    if j == p.len() {
        assert(p.take(j) =~= p);
        assert forall|k: int| 0 <= k < closed.len() implies #[trigger] pieces(p)[k] == closed[k] by {
            assert(pieces(p).take(closed.len() as int)[k] == pieces(p)[k]);
        }
    }
}

/// The pieces of a path with a slash between each two.
pub open spec fn joined(pieces: Seq<Seq<u8>>) -> Seq<u8>
    decreases pieces.len(),
{
    if pieces.len() == 0 {
        Seq::empty()
    } else if pieces.len() == 1 {
        pieces[0]
    } else {
        joined(pieces.drop_last()) + seq![0x2fu8] + pieces.last()
    }
}

/// A path is cut at its slashes and nowhere else: joined again its pieces are the path, and none of them
/// holds a slash.
pub proof fn law_cut_at_slashes(p: Seq<u8>)
    ensures
        joined(pieces(p)) == p,
        pieces(p).len() > 0,
        forall|i: int| 0 <= i < pieces(p).len() ==> !(#[trigger] pieces(p)[i]).contains(0x2f),
    decreases p.len(),
{
    if p.len() == 0 {
        assert(joined(pieces(p)) =~= p);
    } else {
        let before = pieces(p.drop_last());
        law_cut_at_slashes(p.drop_last());
        let now = pieces(p);
        if p.last() == 0x2f {
            assert(now.drop_last() =~= before);
            assert(joined(now) =~= joined(before) + seq![0x2fu8] + Seq::<u8>::empty());
            assert(joined(now) =~= p);
        } else {
            assert(now.drop_last() =~= before.drop_last());
            let last = before.last();
            assert(!last.contains(0x2f));
            assert forall|i: int| 0 <= i < now.len() implies !(#[trigger] now[i]).contains(0x2f) by {
                if i < now.len() - 1 {
                    assert(now[i] == before[i]);
                } else if now[i].contains(0x2f) {
                    let k = choose|k: int| 0 <= k < now[i].len() && now[i][k] == 0x2f;
                    assert(k < last.len());
                    assert(last[k] == 0x2f);
                }
            }
            if now.len() == 1 {
                assert(joined(now) =~= p);
            } else {
                assert(joined(now) =~= joined(before.drop_last()) + seq![0x2fu8] + last.push(
                    p.last(),
                ));
                assert(joined(now) =~= joined(before).push(p.last()));
                assert(joined(now) =~= p);
            }
        }
    }
}

/// Names are the pieces that name something, in their order: none is empty, a single dot, or holds a
/// slash, and no other piece is left out.
pub proof fn law_names_are_pieces(p: Seq<u8>, i: int, k: int)
    requires
        0 <= i < names(p).len(),
        0 <= k < pieces(p).len(),
    ensures
        names(p)[i].len() > 0,
        names(p)[i] != seq![0x2eu8],
        !names(p)[i].contains(0x2f),
        pieces(p).contains(names(p)[i]),
        pieces(p)[k].len() > 0 && pieces(p)[k] != seq![0x2eu8] ==> names(p).contains(pieces(p)[k]),
{
    let keep = |piece: Seq<u8>| names_something(piece);
    law_cut_at_slashes(p);
    pieces(p).lemma_filter_pred(keep, i);
    assert(names(p).contains(names(p)[i]));
    pieces(p).lemma_filter_contains_rev(keep, names(p)[i]);
    let at = choose|at: int| 0 <= at < pieces(p).len() && pieces(p)[at] == names(p)[i];
    assert(!pieces(p)[at].contains(0x2f));
    if names_something(pieces(p)[k]) {
        pieces(p).lemma_filter_contains(keep, k);
    }
}

/// A canonical path never leaves the root: it does not start there again, and no name of it goes up.
pub proof fn law_canonical_stays_below(p: Seq<u8>)
    ensures
        canonical(p) ==> p.len() > 0 && p[0] != 0x2f && !pieces(p).contains(seq![0x2eu8, 0x2eu8])
            && !names(p).contains(seq![0x2eu8, 0x2eu8]) && pieces(p)[0] != seq![0x2eu8],
        p.len() > 0 && p[0] != 0x2f && pieces(p)[0] != seq![0x2eu8] && !pieces(p).contains(
            seq![0x2eu8, 0x2eu8],
        ) ==> canonical(p),
{
    let up = seq![0x2eu8, 0x2eu8];
    let keep = |piece: Seq<u8>| names_something(piece);
    if names(p).contains(up) {
        pieces(p).lemma_filter_contains_rev(keep, up);
    }
}

} // verus!
