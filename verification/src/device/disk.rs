//! A disk in memory: files, directories, open handles and the bytes behind them.
use crate::allocation::{reserve, Memory};
use crate::device::buffer::AlignedBuffer;
use crate::device::contents::{overwritten, resized, Answer, Contents, Limits};
use crate::device::metadata::{listing, name_bytes, sorted, DirectorySnapshot};
use crate::device::path::{canonical, names, DevicePath};
use crate::device::{DirectoryEntry, DirectoryEntryKind, FileId, IoOperation, IoOutcome};
use crate::table::{Key, Table};
use crate::totals::{lemma_total_remove, total};
use crate::types::{Error, Generation, IoErrorKind};
use vstd::prelude::*;

verus! {

/// Whether a list of entries is `names`, in the order of the names.
pub open spec fn lists(
    entries: Seq<DirectoryEntry>,
    names: Map<Seq<u8>, DirectoryEntryKind>,
) -> bool {
    &&& sorted(entries)
    &&& entries.len() == names.dom().len()
    &&& forall|i: int|
        0 <= i < entries.len() ==> names.dom().contains(#[trigger] entries[i].name@)
            && names[entries[i].name@] == entries[i].kind
    &&& forall|i: int, j: int|
        0 <= i < j < entries.len() ==> #[trigger] entries[i].name@ != #[trigger] entries[j].name@
}

/// Whether a result is what an operation is answered.
pub open spec fn answers(result: Result<IoOutcome, Error>, answer: Answer) -> bool {
    match answer {
        Answer::Fails(error) => result == Err::<IoOutcome, Error>(error),
        Answer::Opened(file) => result == Ok::<IoOutcome, Error>(IoOutcome::Opened(file)),
        Answer::Listing(names) => result matches Ok(IoOutcome::Directory(entries)) && lists(
            entries@,
            names,
        ),
        Answer::Moved(n) => result == Ok::<IoOutcome, Error>(IoOutcome::Transferred(n)),
        Answer::Done => result == Ok::<IoOutcome, Error>(IoOutcome::Done),
    }
}

/// How an operation ends that may need room. Where there is none, the disk stays as it is.
pub open spec fn settled(
    memory: Memory,
    needs_room: bool,
    before: Contents,
    after: Contents,
    result: Result<IoOutcome, Error>,
    effect: (Contents, Answer),
) -> bool {
    ||| {
        &&& after == effect.0
        &&& answers(result, effect.1)
        &&& needs_room ==> !(memory is Refused)
    }
    ||| {
        &&& needs_room
        &&& !(memory is Granted)
        &&& after == before
        &&& result == Err::<IoOutcome, Error>(Error::OutOfMemory)
    }
}

/// Whether the effect of an operation makes some object longer.
pub open spec fn grows(before: Contents, after: Contents) -> bool {
    after.used() > before.used()
}

/// Writes `patch` over `bytes` from `at` on. What lies between becomes zero.
fn patch_bytes(bytes: &mut Vec<u8>, at: usize, patch: &[u8], n: usize)
    requires
        n <= patch@.len(),
        at + n <= usize::MAX,
    ensures
        final(bytes)@ == overwritten(old(bytes)@, at as int, patch@.take(n as int)),
{
    if at + n > bytes.len() {
        bytes.resize(at + n, 0);
    }
    let ghost wide = bytes@;
    let mut i: usize = 0;
    while i < n
        invariant
            i <= n <= patch@.len(),
            at + n <= bytes@.len() <= usize::MAX,
            bytes@.len() == wide.len(),
            forall|j: int|
                0 <= j < wide.len() ==> #[trigger] bytes@[j] == (if at <= j < at + i {
                    patch@[j - at]
                } else {
                    wide[j]
                }),
        decreases n - i,
    {
        bytes.set(at + i, patch[i]);
        i += 1;
    }
    assert(bytes@ =~= overwritten(old(bytes)@, at as int, patch@.take(n as int)));
}

/// How a listing ends, which needs room for every name.
pub open spec fn listed(
    memory: Memory,
    some: bool,
    result: Result<IoOutcome, Error>,
    answer: Answer,
) -> bool {
    let refused = result == Err::<IoOutcome, Error>(Error::OutOfMemory) && some && !(
    memory is Granted);
    match answer {
        Answer::Listing(_) => refused || (answers(result, answer) && !(some && memory is Refused)),
        _ => answers(result, answer) || (refused && answer == Answer::Fails(
            Error::CapacityExceeded,
        )),
    }
}

/// How an operation on a disk ends: what becomes of the disk, and what the operation returns.
pub open spec fn performed(
    memory: Memory,
    limits: Limits,
    before: Contents,
    operation: IoOperation,
    limit: usize,
    after: Contents,
    result: Result<IoOutcome, Error>,
) -> bool {
    let effect = before.perform(limits, operation, limit);
    match operation {
        IoOperation::ReadDirectory { path, .. } => {
            &&& after == before
            &&& listed(
                memory,
                before.children(before.directory_at(path@)).dom().len() > 0,
                result,
                effect.1,
            )
        },
        IoOperation::Write { .. } => settled(
            memory,
            grows(before, effect.0),
            before,
            after,
            result,
            effect,
        ),
        IoOperation::SetLen { .. } => settled(
            memory,
            grows(before, effect.0),
            before,
            after,
            result,
            effect,
        ),
        _ => after == effect.0 && answers(result, effect.1),
    }
}

/// Whether `returned` is the buffer that an operation gives back: its own, filled by a read.
pub open spec fn gives_back(
    before: Contents,
    operation: IoOperation,
    limit: usize,
    returned: Option<AlignedBuffer>,
) -> bool {
    match operation {
        IoOperation::Read { file, offset, buffer } => {
            &&& returned matches Some(filled)
            &&& filled.wf()
            &&& filled.aligned_to() == buffer.aligned_to()
            &&& filled@ == before.after_read(file, offset, buffer@, limit)
        },
        _ => returned == operation.owned(),
    }
}

/// Whether `entries` are names in directory `d`, and `rest` are the others, each with its length.
spec fn gathered(
    c: Contents,
    d: Seq<Seq<u8>>,
    entries: Seq<DirectoryEntry>,
    rest: Map<Seq<u8>, nat>,
) -> bool {
    &&& rest.dom().finite()
    &&& c.children(d).dom().finite()
    &&& forall|n: Seq<u8>| #[trigger]
        rest.dom().contains(n) ==> c.children(d).dom().contains(n) && rest[n] == n.len()
    &&& forall|k: int|
        0 <= k < entries.len() ==> {
            &&& c.children(d).dom().contains(#[trigger] entries[k].name@)
            &&& c.children(d)[entries[k].name@] == entries[k].kind
            &&& !rest.dom().contains(entries[k].name@)
        }
    &&& forall|k: int, l: int|
        0 <= k < l < entries.len() ==> #[trigger] entries[k].name@ != #[trigger] entries[l].name@
    &&& entries.len() + rest.dom().len() == c.children(d).dom().len()
    &&& name_bytes(entries) + total(rest) == total(c.child_bytes(d))
}

proof fn lemma_gathered(
    c: Contents,
    d: Seq<Seq<u8>>,
    entries: Seq<DirectoryEntry>,
    rest: Map<Seq<u8>, nat>,
    entry: DirectoryEntry,
)
    requires
        gathered(c, d, entries, rest),
        rest.dom().contains(entry.name@),
        c.children(d)[entry.name@] == entry.kind,
    ensures
        gathered(c, d, entries.push(entry), rest.remove(entry.name@)),
        entries.len() < c.children(d).dom().len(),
        name_bytes(entries) + entry.name@.len() <= total(c.child_bytes(d)),
{
    let more = entries.push(entry);
    let less = rest.remove(entry.name@);
    lemma_total_remove(rest, entry.name@);
    assert(more.drop_last() =~= entries);
    assert forall|k: int| 0 <= k < more.len() implies {
        &&& c.children(d).dom().contains(#[trigger] more[k].name@)
        &&& c.children(d)[more[k].name@] == more[k].kind
        &&& !less.dom().contains(more[k].name@)
    } by {
        if k < entries.len() {
            assert(more[k] == entries[k]);
        }
    }
    assert forall|k: int, l: int| 0 <= k < l < more.len() implies #[trigger] more[k].name@
        != #[trigger] more[l].name@ by {
        assert(more[k] == entries[k]);
        if l < entries.len() {
            assert(more[l] == entries[l]);
        }
    }
}

proof fn lemma_listed(
    c: Contents,
    d: Seq<Seq<u8>>,
    entries: Seq<DirectoryEntry>,
    out: Seq<DirectoryEntry>,
)
    requires
        gathered(c, d, entries, Map::empty()),
        sorted(out),
        listing(out).to_multiset() == listing(entries).to_multiset(),
    ensures
        lists(out, c.children(d)),
{
    broadcast use vstd::seq_lib::group_to_multiset_ensures;

    let m = c.children(d);
    assert(listing(out).to_multiset().len() == listing(out).len());
    assert(listing(entries).to_multiset().len() == listing(entries).len());
    assert(Map::<Seq<u8>, nat>::empty().dom() =~= Set::<Seq<u8>>::empty());
    assert forall|i: int| 0 <= i < out.len() implies m.dom().contains(#[trigger] out[i].name@)
        && m[out[i].name@] == out[i].kind by {
        let pair = listing(out)[i];
        assert(listing(out).contains(pair));
        assert(listing(out).to_multiset().count(pair) > 0);
        assert(listing(entries).to_multiset().count(pair) > 0);
        assert(listing(entries).contains(pair));
        let k = choose|k: int| 0 <= k < listing(entries).len() && listing(entries)[k] == pair;
        assert(entries[k].name@ == out[i].name@);
    }
    assert(listing(entries).no_duplicates()) by {
        assert forall|k: int, l: int|
            0 <= k < listing(entries).len() && 0 <= l < listing(entries).len() && k
                != l implies listing(entries)[k] != listing(entries)[l] by {
            if k < l {
                assert(entries[k].name@ != entries[l].name@);
            } else {
                assert(entries[l].name@ != entries[k].name@);
            }
        }
    }
    listing(entries).lemma_multiset_has_no_duplicates();
    listing(out).lemma_multiset_has_no_duplicates_conv();
    assert forall|i: int, j: int| 0 <= i < j < out.len() implies #[trigger] out[i].name@
        != #[trigger] out[j].name@ by {
        assert(listing(out)[i] != listing(out)[j]);
    }
}

pub struct Disk {
    limits: Limits,
    next: u64,
    files: Table<DevicePath, u64>,
    objects: Table<u64, Vec<u8>>,
    directories: Table<DevicePath, ()>,
    handles: Table<u64, u64>,
}

impl Disk {
    pub closed spec fn view(self) -> Contents {
        Contents {
            next: self.next,
            files: self.files@,
            objects: self.objects@.map_values(|bytes: Vec<u8>| bytes@),
            directories: self.directories@.dom(),
            handles: self.handles@,
        }
    }

    pub closed spec fn limits(self) -> Limits {
        self.limits
    }

    pub closed spec fn wf(self) -> bool {
        &&& self.sound()
        &&& self@.consistent(self.limits)
    }

    /// What a valid disk holds is consistent.
    pub proof fn lemma_consistent(self)
        requires
            self.wf(),
        ensures
            self@.consistent(self.limits()),
    {
    }

    pub closed spec fn sound(self) -> bool {
        &&& self.files.wf()
        &&& self.objects.wf()
        &&& self.directories.wf()
        &&& self.handles.wf()
    }

    pub fn new(capacity: usize, max_bytes: usize) -> (r: Disk)
        ensures
            r.wf(),
            r@ == Contents::empty(),
            r.limits() == (Limits { capacity, max_bytes }),
    {
        let disk = Disk {
            limits: Limits { capacity, max_bytes },
            next: 0,
            files: Table::new(),
            objects: Table::new(),
            directories: Table::new(),
            handles: Table::new(),
        };
        proof {
            assert(disk@.objects =~= Map::<u64, Seq<u8>>::empty());
            assert(disk@.directories =~= Set::<Seq<Seq<u8>>>::empty());
            assert(disk@ =~= Contents::empty());
            Contents::law_empty(disk.limits);
        }
        disk
    }

    proof fn lemma_objects(self)
        ensures
            self@.objects.dom() =~= self.objects@.dom(),
            forall|o: u64| #[trigger]
                self.objects@.dom().contains(o) ==> self@.objects[o] == self.objects@[o]@,
    {
    }

    /// The object behind a handle.
    fn handle(&self, file: FileId) -> (r: Result<u64, Error>)
        requires
            self.wf(),
        ensures
            r == (if self@.opened(file) {
                Ok::<u64, Error>(self@.handles[file.slot])
            } else {
                Err::<u64, Error>(Error::RangeTruncated)
            }),
            r matches Ok(object) ==> self.objects@.dom().contains(object),
    {
        if file.generation.0 != 0 {
            return Err(Error::RangeTruncated);
        }
        match self.handles.get(&file.slot) {
            Some(object) => {
                assert(self@.objects.dom().contains(self@.handles[file.slot]));
                Ok(*object)
            },
            None => Err(Error::RangeTruncated),
        }
    }

    /// Whether the objects may grow by `growth` bytes together.
    fn budget(&self, growth: usize) -> (r: Result<(), Error>)
        requires
            self.wf(),
        ensures
            r == (if self@.used() + growth > self.limits.max_bytes {
                Err::<(), Error>(Error::CapacityExceeded)
            } else {
                Ok::<(), Error>(())
            }),
    {
        let mut used: usize = 0;
        let mut i: usize = 0;
        let ghost mut rest = self@.sizes();
        proof {
            self.lemma_objects();
            assert(rest.dom() =~= self.objects@.dom());
            assert forall|j: int| 0 <= j < self.objects.items().len() implies #[trigger] rest.dom().contains(
                self.objects.items()[j].0,
            ) && rest[self.objects.items()[j].0] == self.objects.items()[j].1@.len() by {
                self.objects.lemma_item(j);
            }
        }
        while i < self.objects.len()
            invariant
                self.wf(),
                i <= self.objects.items().len(),
                rest.dom().finite(),
                rest.dom().len() == self.objects.items().len() - i,
                used + total(rest) == self@.used(),
                forall|j: int|
                    i <= j < self.objects.items().len() ==> #[trigger] rest.dom().contains(
                        self.objects.items()[j].0,
                    ) && rest[self.objects.items()[j].0] == self.objects.items()[j].1@.len(),
            decreases self.objects.items().len() - i,
        {
            let (_, bytes) = self.objects.at(i);
            proof {
                let key = self.objects.items()[i as int].0;
                assert(rest.dom().contains(key));
                lemma_total_remove(rest, key);
                let before = rest;
                rest = rest.remove(key);
                assert forall|j: int| i < j < self.objects.items().len() implies #[trigger] rest.dom().contains(
                    self.objects.items()[j].0,
                ) && rest[self.objects.items()[j].0] == self.objects.items()[j].1@.len() by {
                    assert(before.dom().contains(self.objects.items()[j].0));
                    assert(self.objects.items()[i as int].0.model() == key);
                    assert(self.objects.items()[j].0.model() != key);
                }
            }
            used = match used.checked_add(bytes.len()) {
                Some(used) => used,
                None => {
                    return Err(Error::CapacityExceeded);
                },
            };
            i += 1;
        }
        match used.checked_add(growth) {
            Some(wanted) if wanted <= self.limits.max_bytes => Ok(()),
            _ => Err(Error::CapacityExceeded),
        }
    }

    fn parent_exists(&self, path: &DevicePath) -> (r: bool)
        requires
            self.wf(),
            path@.len() > 0,
        ensures
            r == self@.has_parent(path@),
    {
        let parent = path.parent();
        parent.is_root() || self.directories.contains(&parent)
    }

    /// Whether a path or a handle leads to `object`.
    fn is_referenced(&self, object: u64) -> (r: bool)
        requires
            self.sound(),
        ensures
            r == self@.referenced(object),
    {
        let mut i: usize = 0;
        while i < self.files.len()
            invariant
                self.files.wf(),
                i <= self.files.items().len(),
                forall|j: int| 0 <= j < i ==> (#[trigger] self.files.items()[j]).1 != object,
            decreases self.files.items().len() - i,
        {
            if *self.files.at(i).1 == object {
                proof {
                    self.files.lemma_item(i as int);
                    let key = self.files.items()[i as int].0.model();
                    assert(self@.files.dom().contains(key) && self@.files[key] == object);
                }
                return true;
            }
            i += 1;
        }
        let mut i: usize = 0;
        while i < self.handles.len()
            invariant
                self.handles.wf(),
                i <= self.handles.items().len(),
                forall|j: int| 0 <= j < i ==> (#[trigger] self.handles.items()[j]).1 != object,
            decreases self.handles.items().len() - i,
        {
            if *self.handles.at(i).1 == object {
                proof {
                    self.handles.lemma_item(i as int);
                    let key = self.handles.items()[i as int].0.model();
                    assert(self@.handles.dom().contains(key) && self@.handles[key] == object);
                }
                return true;
            }
            i += 1;
        }
        proof {
            if self@.files.contains_value(object) {
                let key = choose|key: Seq<Seq<u8>>| #[trigger]
                    self@.files.dom().contains(key) && self@.files[key] == object;
                self.files.lemma_key(key);
            }
            if self@.handles.contains_value(object) {
                let key = choose|key: u64| #[trigger]
                    self@.handles.dom().contains(key) && self@.handles[key] == object;
                self.handles.lemma_key(key);
            }
        }
        false
    }

    /// Drops `object` where nothing leads to it any more.
    fn collect_object(&mut self, object: u64)
        requires
            old(self).sound(),
        ensures
            final(self).sound(),
            final(self)@ == old(self)@.collect(object),
            final(self).limits == old(self).limits,
    {
        if !self.is_referenced(object) {
            self.objects.remove(&object);
            assert(self@.objects =~= old(self)@.objects.remove(object));
        }
        assert(self@ =~= old(self)@.collect(object));
    }

    fn open_file(&mut self, path: &[u8], create_new: bool) -> (r: Result<IoOutcome, Error>)
        requires
            old(self).wf(),
        ensures
            final(self).sound(),
            final(self).limits == old(self).limits,
            final(self)@ == old(self)@.open_file(old(self).limits, path@, create_new).0,
            answers(r, old(self)@.open_file(old(self).limits, path@, create_new).1),
    {
        let ghost path_bytes = path@;
        let path = match DevicePath::parse(path) {
            Some(path) => path,
            None => {
                return Err(
                    Error::InvalidFormat("The memory path must be a canonical relative path"),
                );
            },
        };
        proof {
            self.lemma_objects();
        }
        if !self.parent_exists(&path) {
            return Err(Error::Io(IoErrorKind::NotFound));
        }
        if self.directories.contains(&path) {
            return Err(Error::InvalidFormat("path is directory"));
        }
        let known = match self.files.get(&path) {
            Some(object) => Some(*object),
            None => None,
        };
        if create_new && known.is_some() {
            return Err(Error::Io(IoErrorKind::AlreadyExists));
        }
        if !create_new && known.is_none() {
            return Err(Error::Io(IoErrorKind::NotFound));
        }
        if self.handles.len() >= self.limits.capacity || (known.is_none() && self.objects.len()
            >= self.limits.capacity) {
            return Err(Error::CapacityExceeded);
        }
        let id = self.next;
        let next = match id.checked_add(1) {
            Some(next) => next,
            None => {
                return Err(Error::CapacityExceeded);
            },
        };
        let object = match known {
            Some(object) => object,
            None => {
                self.objects.insert(id, Vec::new());
                self.files.insert(path, id);
                assert(self@.objects =~= old(self)@.objects.insert(id, Seq::empty()));
                id
            },
        };
        self.handles.insert(id, object);
        self.next = next;
        assert(self@ =~= old(self)@.open_file(old(self).limits, path_bytes, create_new).0);
        Ok(IoOutcome::Opened(FileId { slot: id, generation: Generation(0) }))
    }

    fn read(&self, file: FileId, offset: u64, buffer: &mut AlignedBuffer, limit: usize) -> (r: Result<
        IoOutcome,
        Error,
    >)
        requires
            self.wf(),
            old(buffer).wf(),
        ensures
            final(buffer).wf(),
            final(buffer).aligned_to() == old(buffer).aligned_to(),
            final(buffer)@ == self@.after_read(file, offset, old(buffer)@, limit),
            answers(r, self@.read(file, offset, old(buffer)@.len() as int, limit)),
    {
        let object = match self.handle(file) {
            Ok(object) => object,
            Err(error) => {
                return Err(error);
            },
        };
        proof {
            self.lemma_objects();
        }
        let bytes = match self.objects.get(&object) {
            Some(bytes) => bytes,
            None => {
                return Err(Error::RangeTruncated);
            },
        };
        if offset > usize::MAX as u64 {
            return Err(Error::CapacityExceeded);
        }
        let offset = offset as usize;
        let left = if offset < bytes.len() {
            bytes.len() - offset
        } else {
            0
        };
        let mut n = buffer.len();
        if limit < n {
            n = limit;
        }
        if left < n {
            n = left;
        }
        if n > 0 {
            buffer.fill(vstd::slice::slice_subrange(bytes.as_slice(), offset, offset + n));
        }
        Ok(IoOutcome::Transferred(n))
    }

    fn write(
        &mut self,
        file: FileId,
        offset: u64,
        buffer: &AlignedBuffer,
        limit: usize,
        memory: Memory,
    ) -> (r: Result<IoOutcome, Error>)
        requires
            old(self).wf(),
            buffer.wf(),
        ensures
            final(self).sound(),
            final(self).limits == old(self).limits,
            ({
                let effect = old(self)@.write(old(self).limits, file, offset, buffer@, limit);
                settled(memory, grows(old(self)@, effect.0), old(self)@, final(self)@, r, effect)
            }),
    {
        let object = match self.handle(file) {
            Ok(object) => object,
            Err(error) => {
                return Err(error);
            },
        };
        proof {
            self.lemma_objects();
        }
        if offset > usize::MAX as u64 {
            return Err(Error::CapacityExceeded);
        }
        let offset = offset as usize;
        let n = if buffer.len() <= limit {
            buffer.len()
        } else {
            limit
        };
        if n == 0 {
            return Ok(IoOutcome::Transferred(0));
        }
        let end = match offset.checked_add(n) {
            Some(end) => end,
            None => {
                return Err(Error::CapacityExceeded);
            },
        };
        let before = match self.objects.get(&object) {
            Some(bytes) => bytes.len(),
            None => {
                return Err(Error::RangeTruncated);
            },
        };
        let growth = end.saturating_sub(before);
        match self.budget(growth) {
            Ok(()) => {},
            Err(error) => {
                return Err(error);
            },
        }
        let ghost effect = old(self)@.write(old(self).limits, file, offset as u64, buffer@, limit);
        proof {
            old(self)@.lemma_growth(object, effect.0.objects[object]);
        }
        let room = match self.objects.get_mut(&object) {
            Some(bytes) => if end > before && !reserve(bytes, end - before, memory) {
                false
            } else {
                patch_bytes(bytes, offset, buffer.as_slice(), n);
                true
            },
            None => false,
        };
        if !room {
            assert(self@.objects =~= old(self)@.objects);
            assert(self@ =~= old(self)@);
            return Err(Error::OutOfMemory);
        }
        assert(self@.objects =~= effect.0.objects);
        assert(self@ =~= effect.0);
        Ok(IoOutcome::Transferred(n))
    }

    fn set_len(&mut self, file: FileId, length: u64, memory: Memory) -> (r: Result<IoOutcome, Error>)
        requires
            old(self).wf(),
        ensures
            final(self).sound(),
            final(self).limits == old(self).limits,
            ({
                let effect = old(self)@.set_len(old(self).limits, file, length);
                settled(memory, grows(old(self)@, effect.0), old(self)@, final(self)@, r, effect)
            }),
    {
        let object = match self.handle(file) {
            Ok(object) => object,
            Err(error) => {
                return Err(error);
            },
        };
        proof {
            self.lemma_objects();
        }
        if length > usize::MAX as u64 {
            return Err(Error::CapacityExceeded);
        }
        let length = length as usize;
        let before = match self.objects.get(&object) {
            Some(bytes) => bytes.len(),
            None => {
                return Err(Error::RangeTruncated);
            },
        };
        match self.budget(length.saturating_sub(before)) {
            Ok(()) => {},
            Err(error) => {
                return Err(error);
            },
        }
        let ghost effect = old(self)@.set_len(old(self).limits, file, length as u64);
        proof {
            old(self)@.lemma_growth(object, effect.0.objects[object]);
        }
        let room = match self.objects.get_mut(&object) {
            Some(bytes) => if length > before && !reserve(bytes, length - before, memory) {
                false
            } else {
                let ghost bytes_before = bytes@;
                bytes.resize(length, 0);
                assert(bytes@ =~= resized(bytes_before, length as nat));
                true
            },
            None => false,
        };
        if !room {
            assert(self@.objects =~= old(self)@.objects);
            assert(self@ =~= old(self)@);
            return Err(Error::OutOfMemory);
        }
        assert(self@.objects =~= effect.0.objects);
        assert(self@ =~= effect.0);
        Ok(IoOutcome::Done)
    }

    fn close(&mut self, file: FileId) -> (r: Result<IoOutcome, Error>)
        requires
            old(self).wf(),
        ensures
            final(self).sound(),
            final(self).limits == old(self).limits,
            final(self)@ == old(self)@.close(file).0,
            answers(r, old(self)@.close(file).1),
    {
        let object = match self.handle(file) {
            Ok(object) => object,
            Err(error) => {
                return Err(error);
            },
        };
        self.handles.remove(&file.slot);
        assert(self@ =~= (Contents { handles: old(self)@.handles.remove(file.slot), ..old(self)@ }));
        self.collect_object(object);
        Ok(IoOutcome::Done)
    }

    fn sync_file(&self, file: FileId) -> (r: Result<IoOutcome, Error>)
        requires
            self.wf(),
        ensures
            answers(r, self@.sync_file(file)),
    {
        match self.handle(file) {
            Ok(_) => Err(Error::UnsupportedDurability),
            Err(error) => Err(error),
        }
    }

    fn create_directory(&mut self, path: &[u8]) -> (r: Result<IoOutcome, Error>)
        requires
            old(self).wf(),
        ensures
            final(self).sound(),
            final(self).limits == old(self).limits,
            final(self)@ == old(self)@.create_directory(old(self).limits, path@).0,
            answers(r, old(self)@.create_directory(old(self).limits, path@).1),
    {
        let ghost path_bytes = path@;
        let path = match DevicePath::parse(path) {
            Some(path) => path,
            None => {
                return Err(
                    Error::InvalidFormat("The memory path must be a canonical relative path"),
                );
            },
        };
        if !self.parent_exists(&path) {
            return Err(Error::Io(IoErrorKind::NotFound));
        }
        if self.files.contains(&path) {
            return Err(Error::InvalidFormat("Directory path is occupied by a file"));
        }
        if !self.directories.contains(&path) && self.directories.len() >= self.limits.capacity {
            return Err(Error::CapacityExceeded);
        }
        self.directories.insert(path, ());
        assert(self@.directories =~= old(self)@.directories.insert(names(path_bytes)));
        assert(self@ =~= old(self)@.create_directory(old(self).limits, path_bytes).0);
        Ok(IoOutcome::Done)
    }

    /// The directory that a path names, where there is one.
    fn directory(&self, path: &[u8]) -> (r: Result<DevicePath, Error>)
        requires
            self.wf(),
        ensures
            match self@.no_directory(path@) {
                Some(answer) => r is Err && answer == Answer::Fails(r->Err_0),
                None => r matches Ok(found) && found@ == self@.directory_at(path@),
            },
    {
        if path.len() == 0 {
            let root = DevicePath::root();
            assert(root@ =~= Seq::<Seq<u8>>::empty());
            return Ok(root);
        }
        match DevicePath::parse(path) {
            None => Err(Error::InvalidFormat("The memory path must be a canonical relative path")),
            Some(path) => if self.directories.contains(&path) {
                Ok(path)
            } else {
                Err(Error::Io(IoErrorKind::NotFound))
            },
        }
    }

    fn sync_directory(&self, path: &[u8]) -> (r: Result<IoOutcome, Error>)
        requires
            self.wf(),
        ensures
            answers(r, self@.sync_directory(path@)),
    {
        match self.directory(path) {
            Ok(_) => Err(Error::UnsupportedDurability),
            Err(error) => Err(error),
        }
    }

    fn rename(&mut self, source: &[u8], destination: &[u8]) -> (r: Result<IoOutcome, Error>)
        requires
            old(self).wf(),
        ensures
            final(self).sound(),
            final(self).limits == old(self).limits,
            final(self)@ == old(self)@.rename(source@, destination@).0,
            answers(r, old(self)@.rename(source@, destination@).1),
    {
        let from = match DevicePath::parse(source) {
            Some(path) => path,
            None => {
                return Err(
                    Error::InvalidFormat("The memory path must be a canonical relative path"),
                );
            },
        };
        let to = match DevicePath::parse(destination) {
            Some(path) => path,
            None => {
                return Err(
                    Error::InvalidFormat("The memory path must be a canonical relative path"),
                );
            },
        };
        if !self.parent_exists(&to) {
            return Err(Error::Io(IoErrorKind::NotFound));
        }
        if self.directories.contains(&to) {
            return Err(Error::InvalidFormat("The target path is a directory"));
        }
        let object = match self.files.get(&from) {
            Some(object) => *object,
            None => {
                return Err(Error::Io(IoErrorKind::NotFound));
            },
        };
        if !from.same(&to) {
            self.files.remove(&from);
            let ghost to_names = to@;
            let replaced = self.files.insert(to, object);
            assert(self@ =~= (Contents {
                files: old(self)@.files.remove(from@).insert(to_names, object),
                ..old(self)@
            }));
            if let Some(replaced) = replaced {
                self.collect_object(replaced);
            }
        }
        Ok(IoOutcome::Done)
    }

    fn remove_file(&mut self, path: &[u8]) -> (r: Result<IoOutcome, Error>)
        requires
            old(self).wf(),
        ensures
            final(self).sound(),
            final(self).limits == old(self).limits,
            final(self)@ == old(self)@.remove_file(path@).0,
            answers(r, old(self)@.remove_file(path@).1),
    {
        let ghost path_bytes = path@;
        let path = match DevicePath::parse(path) {
            Some(path) => path,
            None => {
                return Err(
                    Error::InvalidFormat("The memory path must be a canonical relative path"),
                );
            },
        };
        match self.files.remove(&path) {
            Some(object) => {
                assert(self@ =~= (Contents { files: old(self)@.files.remove(path@), ..old(self)@ }));
                self.collect_object(object);
                Ok(IoOutcome::Done)
            },
            None => {
                assert(self@.files =~= old(self)@.files);
                assert(self@ =~= old(self)@);
                Err(Error::Io(IoErrorKind::NotFound))
            },
        }
    }

    /// Whether the name `n` in directory `d` is still to be found among the files from `i` on or
    /// the directories from `j` on.
    spec fn ahead(self, d: Seq<Seq<u8>>, n: Seq<u8>, i: int, j: int) -> bool {
        let p = d.push(n);
        ||| self.files@.dom().contains(p) && self.files.place(p) >= i
        ||| self.directories@.dom().contains(p) && self.directories.place(p) >= j
    }

    proof fn lemma_ahead_file(self, d: Seq<Seq<u8>>, i: int)
        requires
            self.wf(),
            0 <= i < self.files.items().len(),
        ensures
            ({
                let p = self.files.items()[i].0@;
                let child = p.len() > 0 && p.drop_last() == d;
                &&& child ==> {
                    &&& p == d.push(p.last())
                    &&& self.ahead(d, p.last(), i, 0)
                    &&& self@.children(d).dom().contains(p.last())
                    &&& self@.children(d)[p.last()] == DirectoryEntryKind::File
                }
                &&& forall|n: Seq<u8>| #[trigger]
                    self.ahead(d, n, i + 1, 0) <==> self.ahead(d, n, i, 0) && !(child && n
                        == p.last())
            }),
    {
        let p = self.files.items()[i].0@;
        let child = p.len() > 0 && p.drop_last() == d;
        self.files.lemma_item(i);
        if child {
            assert(p =~= d.push(p.last()));
            assert(self@.files.dom().contains(p));
            assert(!self@.directories.contains(p));
        }
        assert forall|n: Seq<u8>| #[trigger]
            self.ahead(d, n, i + 1, 0) <==> self.ahead(d, n, i, 0) && !(child && n == p.last()) by {
            let q = d.push(n);
            assert(q.drop_last() =~= d);
            assert(q.last() == n);
            if self.files@.dom().contains(q) {
                self.files.lemma_key(q);
            }
        }
    }

    proof fn lemma_ahead_directory(self, d: Seq<Seq<u8>>, j: int)
        requires
            self.wf(),
            0 <= j < self.directories.items().len(),
        ensures
            ({
                let p = self.directories.items()[j].0@;
                let child = p.len() > 0 && p.drop_last() == d;
                let i = self.files.items().len() as int;
                &&& child ==> {
                    &&& p == d.push(p.last())
                    &&& self.ahead(d, p.last(), i, j)
                    &&& self@.children(d).dom().contains(p.last())
                    &&& self@.children(d)[p.last()] == DirectoryEntryKind::Directory
                }
                &&& forall|n: Seq<u8>| #[trigger]
                    self.ahead(d, n, i, j + 1) <==> self.ahead(d, n, i, j) && !(child && n
                        == p.last())
            }),
    {
        let p = self.directories.items()[j].0@;
        let i = self.files.items().len() as int;
        let child = p.len() > 0 && p.drop_last() == d;
        self.directories.lemma_item(j);
        if child {
            assert(p =~= d.push(p.last()));
            assert(self@.directories.contains(p));
            assert(!self@.files.dom().contains(p));
        }
        assert forall|n: Seq<u8>| #[trigger]
            self.ahead(d, n, i, j + 1) <==> self.ahead(d, n, i, j) && !(child && n == p.last()) by {
            let q = d.push(n);
            assert(q.drop_last() =~= d);
            assert(q.last() == n);
            if self.directories@.dom().contains(q) {
                self.directories.lemma_key(q);
            }
            if self.files@.dom().contains(q) {
                self.files.lemma_key(q);
            }
        }
    }

    fn read_directory(
        &self,
        path: &[u8],
        max_entries: usize,
        max_name_bytes: usize,
        memory: Memory,
    ) -> (r: Result<IoOutcome, Error>)
        requires
            self.wf(),
        ensures
            listed(
                memory,
                self@.children(self@.directory_at(path@)).dom().len() > 0,
                r,
                self@.read_directory(path@, max_entries, max_name_bytes),
            ),
    {
        let directory = match self.directory(path) {
            Ok(directory) => directory,
            Err(error) => {
                return Err(error);
            },
        };
        let ghost d = directory@;
        let mut snapshot = DirectorySnapshot::new(max_entries, max_name_bytes);
        let ghost mut rest = self@.child_bytes(d);
        proof {
            self@.lemma_children(d);
            assert forall|n: Seq<u8>| #[trigger] rest.dom().contains(n) <==> self.ahead(
                d,
                n,
                0,
                0,
            ) by {
                if self.files@.dom().contains(d.push(n)) {
                    self.files.lemma_key(d.push(n));
                }
                if self.directories@.dom().contains(d.push(n)) {
                    self.directories.lemma_key(d.push(n));
                }
            }
        }
        let mut i: usize = 0;
        while i < self.files.len()
            invariant
                self.wf(),
                i <= self.files.items().len(),
                d == directory@,
                snapshot.wf(),
                snapshot.entry_budget() == max_entries,
                snapshot.name_budget() == max_name_bytes,
                gathered(self@, d, snapshot@, rest),
                memory is Refused ==> snapshot@.len() == 0,
                forall|n: Seq<u8>| #[trigger]
                    rest.dom().contains(n) <==> self.ahead(d, n, i as int, 0),
                self@.no_directory(path@) is None,
                d == self@.directory_at(path@),
            decreases self.files.items().len() - i,
        {
            let (name, _) = self.files.at(i);
            proof {
                self.lemma_ahead_file(d, i as int);
            }
            if name.is_child_of(&directory) {
                let entry = DirectoryEntry { name: name.name(), kind: DirectoryEntryKind::File };
                proof {
                    lemma_gathered(self@, d, snapshot@, rest, entry);
                    rest = rest.remove(entry.name@);
                }
                match snapshot.push_from(entry, memory) {
                    Ok(()) => {},
                    Err(error) => {
                        return Err(error);
                    },
                }
            }
            i += 1;
        }
        let mut j: usize = 0;
        while j < self.directories.len()
            invariant
                self.wf(),
                j <= self.directories.items().len(),
                d == directory@,
                snapshot.wf(),
                snapshot.entry_budget() == max_entries,
                snapshot.name_budget() == max_name_bytes,
                gathered(self@, d, snapshot@, rest),
                memory is Refused ==> snapshot@.len() == 0,
                forall|n: Seq<u8>| #[trigger]
                    rest.dom().contains(n) <==> self.ahead(
                        d,
                        n,
                        self.files.items().len() as int,
                        j as int,
                    ),
                self@.no_directory(path@) is None,
                d == self@.directory_at(path@),
            decreases self.directories.items().len() - j,
        {
            let (name, _) = self.directories.at(j);
            proof {
                self.lemma_ahead_directory(d, j as int);
            }
            if name.is_child_of(&directory) {
                let entry = DirectoryEntry {
                    name: name.name(),
                    kind: DirectoryEntryKind::Directory,
                };
                proof {
                    lemma_gathered(self@, d, snapshot@, rest, entry);
                    rest = rest.remove(entry.name@);
                }
                match snapshot.push_from(entry, memory) {
                    Ok(()) => {},
                    Err(error) => {
                        return Err(error);
                    },
                }
            }
            j += 1;
        }
        let ghost entries = snapshot@;
        proof {
            assert forall|n: Seq<u8>| !rest.dom().contains(n) by {
                if self.files@.dom().contains(d.push(n)) {
                    self.files.lemma_key(d.push(n));
                }
                if self.directories@.dom().contains(d.push(n)) {
                    self.directories.lemma_key(d.push(n));
                }
            }
            assert(rest =~= Map::<Seq<u8>, nat>::empty());
            assert(rest.dom() =~= Set::<Seq<u8>>::empty());
        }
        let outcome = snapshot.finish();
        proof {
            lemma_listed(self@, d, entries, outcome->Directory_0@);
        }
        Ok(outcome)
    }

    /// Performs an operation. A transfer moves at most `limit` bytes, and `memory` says whether
    /// there is room for what grows.
    pub fn execute(&mut self, operation: IoOperation, limit: usize, memory: Memory) -> (r: (
        Result<IoOutcome, Error>,
        Option<AlignedBuffer>,
    ))
        requires
            old(self).wf(),
            operation.wf(),
        ensures
            final(self).wf(),
            final(self).limits() == old(self).limits(),
            performed(
                memory,
                old(self).limits(),
                old(self)@,
                operation,
                limit,
                final(self)@,
                r.0,
            ),
            gives_back(old(self)@, operation, limit, r.1),
    {
        proof {
            old(self)@.law_consistent(old(self).limits, operation, limit);
        }
        match operation {
            IoOperation::Open { path, create_new } => (
                self.open_file(path.as_slice(), create_new),
                None,
            ),
            IoOperation::Read { file, offset, buffer } => {
                let mut buffer = buffer;
                let result = self.read(file, offset, &mut buffer, limit);
                (result, Some(buffer))
            },
            IoOperation::Write { file, offset, buffer } => {
                let result = self.write(file, offset, &buffer, limit, memory);
                (result, Some(buffer))
            },
            IoOperation::SyncFile { file, .. } => (self.sync_file(file), None),
            IoOperation::SetLen { file, length } => (self.set_len(file, length, memory), None),
            IoOperation::CreateDirectory(path) => (self.create_directory(path.as_slice()), None),
            IoOperation::SyncDirectory(path) => (self.sync_directory(path.as_slice()), None),
            IoOperation::Rename { source, destination } => (
                self.rename(source.as_slice(), destination.as_slice()),
                None,
            ),
            IoOperation::RemoveFile(path) => (self.remove_file(path.as_slice()), None),
            IoOperation::ReadDirectory { path, max_entries, max_name_bytes } => (
                self.read_directory(path.as_slice(), max_entries, max_name_bytes, memory),
                None,
            ),
            IoOperation::TryLock { .. } => (Err(Error::UnsupportedDurability), None),
            IoOperation::Close(file) => (self.close(file), None),
            IoOperation::Cancel(_) => (Ok(IoOutcome::Done), None),
        }
    }
}

/// An operation that gets its room does what the disk does with it, and returns that. Only one that
/// makes a file longer, or lists names, can fail for want of room, and then the disk stays as it was.
pub proof fn law_only_growth_needs_room(
    memory: Memory,
    limits: Limits,
    before: Contents,
    operation: IoOperation,
    limit: usize,
    after: Contents,
    result: Result<IoOutcome, Error>,
)
    requires
        performed(memory, limits, before, operation, limit, after, result),
    ensures
        ({
            let (disk, answer) = before.perform(limits, operation, limit);
            let longer = disk.used() > before.used();
            &&& memory is Granted ==> answers(result, answer)
            &&& memory is Granted && !(operation is ReadDirectory) ==> after == disk
            &&& (operation is Write || operation is SetLen) && !longer ==> answers(result, answer)
                && after == disk
            &&& (operation is Write || operation is SetLen) && longer && memory is Refused ==> after
                == before && result == Err::<IoOutcome, Error>(Error::OutOfMemory)
            &&& !(operation is Write || operation is SetLen || operation is ReadDirectory) ==> after
                == disk && answers(result, answer)
            &&& operation is ReadDirectory ==> after == before
            &&& !answers(result, answer) ==> result == Err::<IoOutcome, Error>(Error::OutOfMemory)
                && after == before
        }),
{
}

/// What an operation returns says what the disk answered, of the same kind and with the same value.
pub proof fn law_result_is_the_answer(result: Result<IoOutcome, Error>, answer: Answer)
    requires
        answers(result, answer),
    ensures
        answer is Fails <==> result is Err,
        answer matches Answer::Fails(error) ==> result == Err::<IoOutcome, Error>(error),
        answer matches Answer::Opened(file) ==> result == Ok::<IoOutcome, Error>(
            IoOutcome::Opened(file),
        ),
        answer matches Answer::Moved(n) ==> result == Ok::<IoOutcome, Error>(
            IoOutcome::Transferred(n),
        ),
        answer is Done ==> result == Ok::<IoOutcome, Error>(IoOutcome::Done),
        answer is Listing ==> result is Ok && result->Ok_0 is Directory,
{
}

/// A listing that is returned holds every name once, with its kind, in the order of the bytes.
pub proof fn law_listing_holds_every_name(
    entries: Seq<DirectoryEntry>,
    names: Map<Seq<u8>, DirectoryEntryKind>,
    i: int,
    j: int,
)
    requires
        lists(entries, names),
        0 <= i < j < entries.len(),
    ensures
        entries.len() == names.dom().len(),
        names.dom().contains(entries[i].name@),
        names[entries[i].name@] == entries[i].kind,
        entries[i].name@ != entries[j].name@,
        crate::order::bytes_le(entries[i].name@, entries[j].name@),
{
}

/// A read gives its own buffer back, filled with what it read; every other operation gives back what it
/// was given.
pub proof fn law_buffer_is_given_back(
    before: Contents,
    operation: IoOperation,
    limit: usize,
    returned: Option<AlignedBuffer>,
)
    requires
        gives_back(before, operation, limit, returned),
    ensures
        operation is Read || operation is Write <==> returned is Some,
        operation matches IoOperation::Write { buffer, .. } ==> returned == Some(buffer),
        operation matches IoOperation::Read { file, offset, buffer } ==> {
            &&& returned->0.aligned_to() == buffer.aligned_to()
            &&& returned->0@ == before.after_read(file, offset, buffer@, limit)
        },
{
}

/// A listing fails for want of room only where there are names to list, and only in place of the names or
/// of the failure that they are too many; every other failure comes first.
pub proof fn law_listing_may_lack_room(
    memory: Memory,
    some: bool,
    result: Result<IoOutcome, Error>,
    answer: Answer,
)
    requires
        !answers(result, answer),
    ensures
        listed(memory, some, result, answer) <==> {
            &&& result == Err::<IoOutcome, Error>(Error::OutOfMemory)
            &&& some
            &&& !(memory is Granted)
            &&& answer is Listing || answer == Answer::Fails(Error::CapacityExceeded)
        },
{
}

} // verus!
