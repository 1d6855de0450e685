//! What a disk in memory holds, and what each operation makes of it.
use crate::device::path::{canonical, lemma_canonical_names, names};
use crate::device::{DirectoryEntryKind, FileId, IoOperation};
use crate::totals::{lemma_total_insert, lemma_total_remove, total};
use crate::types::{Error, Generation, IoErrorKind};
use vstd::prelude::*;

verus! {

/// The contents of a disk. Paths lead to numbered objects, and so do open handles: an object lives
/// as long as one of the two leads to it.
#[verifier::ext_equal]
pub struct Contents {
    /// The number that the next handle or object gets.
    pub next: u64,
    pub files: Map<Seq<Seq<u8>>, u64>,
    pub objects: Map<u64, Seq<u8>>,
    pub directories: Set<Seq<Seq<u8>>>,
    pub handles: Map<u64, u64>,
}

/// How much a disk may hold: so many objects, handles and directories, and so many bytes.
#[derive(Clone, Copy, Debug, PartialEq, Eq, Structural)]
pub struct Limits {
    pub capacity: usize,
    pub max_bytes: usize,
}

/// What an operation is answered.
pub enum Answer {
    Fails(Error),
    Opened(FileId),
    /// The names in a directory.
    Listing(Map<Seq<u8>, DirectoryEntryKind>),
    Moved(usize),
    Done,
}

pub open spec fn not_canonical() -> Answer {
    Answer::Fails(Error::InvalidFormat("The memory path must be a canonical relative path"))
}

pub open spec fn fails_with(kind: IoErrorKind) -> Answer {
    Answer::Fails(Error::Io(kind))
}

pub open spec fn least(a: int, b: int) -> int {
    if a <= b {
        a
    } else {
        b
    }
}

impl Contents {
    pub open spec fn empty() -> Contents {
        Contents {
            next: 0,
            files: Map::empty(),
            objects: Map::empty(),
            directories: Set::empty(),
            handles: Map::empty(),
        }
    }

    /// How many bytes all objects hold together.
    pub open spec fn used(self) -> nat {
        total(self.sizes())
    }

    pub open spec fn sizes(self) -> Map<u64, nat> {
        self.objects.map_values(|bytes: Seq<u8>| bytes.len())
    }

    /// Whether something may be put at `path`: the directory above it exists.
    pub open spec fn has_parent(self, path: Seq<Seq<u8>>) -> bool {
        path.len() <= 1 || self.directories.contains(path.drop_last())
    }

    pub open spec fn referenced(self, object: u64) -> bool {
        self.files.contains_value(object) || self.handles.contains_value(object)
    }

    /// What holds of every disk: each object that is led to exists, no object is left behind, no two
    /// paths lead to the same object, no path is both a file and a directory, everything lies in
    /// a directory that exists, and the limits are kept.
    pub open spec fn consistent(self, limits: Limits) -> bool {
        &&& self.files.dom().finite()
        &&& self.objects.dom().finite()
        &&& self.handles.dom().finite()
        &&& self.directories.finite()
        &&& forall|p: Seq<Seq<u8>>| #[trigger] self.files.dom().contains(p) ==> {
            &&& p.len() > 0
            &&& !self.directories.contains(p)
            &&& self.has_parent(p)
            &&& self.objects.dom().contains(self.files[p])
        }
        &&& forall|p: Seq<Seq<u8>>| #[trigger]
            self.directories.contains(p) ==> p.len() > 0 && self.has_parent(p)
        &&& forall|h: u64| #[trigger]
            self.handles.dom().contains(h) ==> h < self.next && self.objects.dom().contains(
                self.handles[h],
            )
        &&& forall|o: u64| #[trigger]
            self.objects.dom().contains(o) ==> o < self.next && self.referenced(o)
        &&& forall|p: Seq<Seq<u8>>, q: Seq<Seq<u8>>|
            self.files.dom().contains(p) && self.files.dom().contains(q) && p != q
                ==> #[trigger] self.files[p] != #[trigger] self.files[q]
        &&& self.objects.dom().len() <= limits.capacity
        &&& self.handles.dom().len() <= limits.capacity
        &&& self.directories.len() <= limits.capacity
        &&& self.used() <= limits.max_bytes
    }

    pub open spec fn opened(self, file: FileId) -> bool {
        file.generation == Generation(0) && self.handles.dom().contains(file.slot)
    }

    /// The bytes behind an open handle.
    pub open spec fn behind(self, file: FileId) -> Seq<u8> {
        self.objects[self.handles[file.slot]]
    }

    /// Drops `object` where nothing leads to it any more.
    pub open spec fn collect(self, object: u64) -> Contents {
        if self.referenced(object) {
            self
        } else {
            Contents { objects: self.objects.remove(object), ..self }
        }
    }

    pub open spec fn open_file(self, limits: Limits, path: Seq<u8>, create_new: bool) -> (
        Contents,
        Answer,
    ) {
        let p = names(path);
        let exists_already = self.files.dom().contains(p);
        if !canonical(path) {
            (self, not_canonical())
        } else if !self.has_parent(p) {
            (self, fails_with(IoErrorKind::NotFound))
        } else if self.directories.contains(p) {
            (self, Answer::Fails(Error::InvalidFormat("path is directory")))
        } else if create_new && exists_already {
            (self, fails_with(IoErrorKind::AlreadyExists))
        } else if !create_new && !exists_already {
            (self, fails_with(IoErrorKind::NotFound))
        } else if self.handles.dom().len() >= limits.capacity || (!exists_already
            && self.objects.dom().len() >= limits.capacity) || self.next == u64::MAX {
            (self, Answer::Fails(Error::CapacityExceeded))
        } else {
            let id = self.next;
            let answer = Answer::Opened(FileId { slot: id, generation: Generation(0) });
            let next = (id + 1) as u64;
            if exists_already {
                (Contents { next, handles: self.handles.insert(id, self.files[p]), ..self }, answer)
            } else {
                (
                    Contents {
                        next,
                        handles: self.handles.insert(id, id),
                        files: self.files.insert(p, id),
                        objects: self.objects.insert(id, Seq::empty()),
                        ..self
                    },
                    answer,
                )
            }
        }
    }

    /// How many bytes a read of `room` bytes at `offset` gets.
    pub open spec fn readable(self, file: FileId, offset: u64, room: int, limit: usize) -> int {
        let left = self.behind(file).len() - offset;
        least(least(room, limit as int), if left < 0 { 0 } else { left })
    }

    pub open spec fn read(self, file: FileId, offset: u64, room: int, limit: usize) -> Answer {
        if !self.opened(file) {
            Answer::Fails(Error::RangeTruncated)
        } else if offset > usize::MAX {
            Answer::Fails(Error::CapacityExceeded)
        } else {
            Answer::Moved(self.readable(file, offset, room, limit) as usize)
        }
    }

    /// What a buffer holds after a read into it.
    pub open spec fn after_read(
        self,
        file: FileId,
        offset: u64,
        buffer: Seq<u8>,
        limit: usize,
    ) -> Seq<u8> {
        let n = self.readable(file, offset, buffer.len() as int, limit);
        if !self.opened(file) || offset > usize::MAX || n == 0 {
            buffer
        } else {
            self.behind(file).subrange(offset as int, offset + n) + buffer.skip(n)
        }
    }

    pub open spec fn write(
        self,
        limits: Limits,
        file: FileId,
        offset: u64,
        bytes: Seq<u8>,
        limit: usize,
    ) -> (Contents, Answer) {
        let n = least(bytes.len() as int, limit as int);
        let end = offset + n;
        let before = self.behind(file);
        let growth = if end > before.len() { end - before.len() } else { 0 };
        if !self.opened(file) {
            (self, Answer::Fails(Error::RangeTruncated))
        } else if offset > usize::MAX {
            (self, Answer::Fails(Error::CapacityExceeded))
        } else if n == 0 {
            (self, Answer::Moved(0))
        } else if end > usize::MAX || self.used() + growth > limits.max_bytes {
            (self, Answer::Fails(Error::CapacityExceeded))
        } else {
            (
                Contents {
                    objects: self.objects.insert(
                        self.handles[file.slot],
                        overwritten(before, offset as int, bytes.take(n)),
                    ),
                    ..self
                },
                Answer::Moved(n as usize),
            )
        }
    }

    pub open spec fn set_len(self, limits: Limits, file: FileId, length: u64) -> (Contents, Answer) {
        let before = self.behind(file);
        let growth = if length > before.len() { length - before.len() } else { 0 };
        if !self.opened(file) {
            (self, Answer::Fails(Error::RangeTruncated))
        } else if length > usize::MAX || self.used() + growth > limits.max_bytes {
            (self, Answer::Fails(Error::CapacityExceeded))
        } else {
            (
                Contents {
                    objects: self.objects.insert(
                        self.handles[file.slot],
                        resized(before, length as nat),
                    ),
                    ..self
                },
                Answer::Done,
            )
        }
    }

    pub open spec fn close(self, file: FileId) -> (Contents, Answer) {
        if !self.opened(file) {
            (self, Answer::Fails(Error::RangeTruncated))
        } else {
            (
                Contents { handles: self.handles.remove(file.slot), ..self }.collect(
                    self.handles[file.slot],
                ),
                Answer::Done,
            )
        }
    }

    pub open spec fn sync_file(self, file: FileId) -> Answer {
        if !self.opened(file) {
            Answer::Fails(Error::RangeTruncated)
        } else {
            Answer::Fails(Error::UnsupportedDurability)
        }
    }

    pub open spec fn create_directory(self, limits: Limits, path: Seq<u8>) -> (Contents, Answer) {
        let p = names(path);
        if !canonical(path) {
            (self, not_canonical())
        } else if !self.has_parent(p) {
            (self, fails_with(IoErrorKind::NotFound))
        } else if self.files.dom().contains(p) {
            (self, Answer::Fails(Error::InvalidFormat("Directory path is occupied by a file")))
        } else if !self.directories.contains(p) && self.directories.len() >= limits.capacity {
            (self, Answer::Fails(Error::CapacityExceeded))
        } else {
            (Contents { directories: self.directories.insert(p), ..self }, Answer::Done)
        }
    }

    /// Why `path` is no directory: the empty path is the root.
    pub open spec fn no_directory(self, path: Seq<u8>) -> Option<Answer> {
        if path.len() == 0 {
            None
        } else if !canonical(path) {
            Some(not_canonical())
        } else if !self.directories.contains(names(path)) {
            Some(fails_with(IoErrorKind::NotFound))
        } else {
            None
        }
    }

    pub open spec fn sync_directory(self, path: Seq<u8>) -> Answer {
        match self.no_directory(path) {
            Some(answer) => answer,
            None => Answer::Fails(Error::UnsupportedDurability),
        }
    }

    pub open spec fn rename(self, source: Seq<u8>, destination: Seq<u8>) -> (Contents, Answer) {
        let from = names(source);
        let to = names(destination);
        if !canonical(source) || !canonical(destination) {
            (self, not_canonical())
        } else if !self.has_parent(to) {
            (self, fails_with(IoErrorKind::NotFound))
        } else if self.directories.contains(to) {
            (self, Answer::Fails(Error::InvalidFormat("The target path is a directory")))
        } else if !self.files.dom().contains(from) {
            (self, fails_with(IoErrorKind::NotFound))
        } else if from == to {
            (self, Answer::Done)
        } else {
            let moved = Contents {
                files: self.files.remove(from).insert(to, self.files[from]),
                ..self
            };
            (
                if self.files.dom().contains(to) {
                    moved.collect(self.files[to])
                } else {
                    moved
                },
                Answer::Done,
            )
        }
    }

    pub open spec fn remove_file(self, path: Seq<u8>) -> (Contents, Answer) {
        let p = names(path);
        if !canonical(path) {
            (self, not_canonical())
        } else if !self.files.dom().contains(p) {
            (self, fails_with(IoErrorKind::NotFound))
        } else {
            (
                Contents { files: self.files.remove(p), ..self }.collect(self.files[p]),
                Answer::Done,
            )
        }
    }

    pub open spec fn holds_name(self, directory: Seq<Seq<u8>>, name: Seq<u8>) -> bool {
        self.files.dom().contains(directory.push(name)) || self.directories.contains(
            directory.push(name),
        )
    }

    /// The names directly below `directory`, each with its kind.
    pub open spec fn children(self, directory: Seq<Seq<u8>>) -> Map<Seq<u8>, DirectoryEntryKind> {
        Map::new(
            |name: Seq<u8>| self.holds_name(directory, name),
            |name: Seq<u8>|
                if self.files.dom().contains(directory.push(name)) {
                    DirectoryEntryKind::File
                } else {
                    DirectoryEntryKind::Directory
                },
        )
    }

    pub open spec fn child_bytes(self, directory: Seq<Seq<u8>>) -> Map<Seq<u8>, nat> {
        Map::new(|name: Seq<u8>| self.holds_name(directory, name), |name: Seq<u8>| name.len())
    }

    /// The path of the directory that `path` names.
    pub open spec fn directory_at(self, path: Seq<u8>) -> Seq<Seq<u8>> {
        if path.len() == 0 {
            Seq::empty()
        } else {
            names(path)
        }
    }

    pub open spec fn read_directory(
        self,
        path: Seq<u8>,
        max_entries: usize,
        max_name_bytes: usize,
    ) -> Answer {
        let d = self.directory_at(path);
        match self.no_directory(path) {
            Some(answer) => answer,
            None => if self.children(d).dom().len() > max_entries || total(self.child_bytes(d))
                > max_name_bytes {
                Answer::Fails(Error::CapacityExceeded)
            } else {
                Answer::Listing(self.children(d))
            },
        }
    }

    /// What every operation other than a cancellation does to the disk, and what it is answered. A
    /// transfer moves at most `limit` bytes.
    pub open spec fn perform(self, limits: Limits, operation: IoOperation, limit: usize) -> (
        Contents,
        Answer,
    ) {
        match operation {
            IoOperation::Open { path, create_new } => self.open_file(limits, path@, create_new),
            IoOperation::Read { file, offset, buffer } => (
                self,
                self.read(file, offset, buffer@.len() as int, limit),
            ),
            IoOperation::Write { file, offset, buffer } => self.write(
                limits,
                file,
                offset,
                buffer@,
                limit,
            ),
            IoOperation::SyncFile { file, .. } => (self, self.sync_file(file)),
            IoOperation::SetLen { file, length } => self.set_len(limits, file, length),
            IoOperation::CreateDirectory(path) => self.create_directory(limits, path@),
            IoOperation::SyncDirectory(path) => (self, self.sync_directory(path@)),
            IoOperation::Rename { source, destination } => self.rename(source@, destination@),
            IoOperation::RemoveFile(path) => self.remove_file(path@),
            IoOperation::ReadDirectory { path, max_entries, max_name_bytes } => (
                self,
                self.read_directory(path@, max_entries, max_name_bytes),
            ),
            IoOperation::TryLock { .. } => (self, Answer::Fails(Error::UnsupportedDurability)),
            IoOperation::Close(file) => self.close(file),
            IoOperation::Cancel(_) => (self, Answer::Done),
        }
    }
}

impl Contents {
    /// What holds of a disk from which the last path or handle to `gone` may just have been taken.
    spec fn consistent_but(self, limits: Limits, gone: u64) -> bool {
        &&& self.files.dom().finite()
        &&& self.objects.dom().finite()
        &&& self.handles.dom().finite()
        &&& self.directories.finite()
        &&& forall|p: Seq<Seq<u8>>| #[trigger] self.files.dom().contains(p) ==> {
            &&& p.len() > 0
            &&& !self.directories.contains(p)
            &&& self.has_parent(p)
            &&& self.objects.dom().contains(self.files[p])
        }
        &&& forall|p: Seq<Seq<u8>>| #[trigger]
            self.directories.contains(p) ==> p.len() > 0 && self.has_parent(p)
        &&& forall|h: u64| #[trigger]
            self.handles.dom().contains(h) ==> h < self.next && self.objects.dom().contains(
                self.handles[h],
            )
        &&& forall|o: u64| #[trigger]
            self.objects.dom().contains(o) ==> o < self.next && (o == gone || self.referenced(o))
        &&& forall|p: Seq<Seq<u8>>, q: Seq<Seq<u8>>|
            self.files.dom().contains(p) && self.files.dom().contains(q) && p != q
                ==> #[trigger] self.files[p] != #[trigger] self.files[q]
        &&& self.objects.dom().len() <= limits.capacity
        &&& self.handles.dom().len() <= limits.capacity
        &&& self.directories.len() <= limits.capacity
        &&& self.used() <= limits.max_bytes
    }

    proof fn lemma_collect(self, limits: Limits, gone: u64)
        requires
            self.consistent_but(limits, gone),
        ensures
            self.collect(gone).consistent(limits),
    {
        let after = self.collect(gone);
        if !self.referenced(gone) {
            assert(after.objects.dom() =~= self.objects.dom().remove(gone));
            assert forall|p: Seq<Seq<u8>>| #[trigger] after.files.dom().contains(p) implies {
                &&& after.objects.dom().contains(after.files[p])
                &&& after.has_parent(p)
            } by {
                assert(self.files.contains_value(self.files[p]));
                assert(self.has_parent(p));
            }
            assert forall|p: Seq<Seq<u8>>| #[trigger] after.directories.contains(p) implies p.len()
                > 0 && after.has_parent(p) by {
                assert(self.has_parent(p));
            }
            assert forall|h: u64| #[trigger] after.handles.dom().contains(
                h,
            ) implies after.objects.dom().contains(after.handles[h]) by {
                assert(self.handles.contains_value(self.handles[h]));
            }
            assert forall|o: u64| #[trigger] after.objects.dom().contains(
                o,
            ) implies after.referenced(o) by {
                assert(self.objects.dom().contains(o));
                assert(self.referenced(o));
            }
            if self.objects.dom().contains(gone) {
                assert(self.sizes().dom() =~= self.objects.dom());
                lemma_total_remove(self.sizes(), gone);
            }
            assert(after.sizes() =~= self.sizes().remove(gone));
            assert(!self.objects.dom().contains(gone) ==> after.sizes() =~= self.sizes());
        } else {
            assert forall|o: u64| #[trigger] after.objects.dom().contains(
                o,
            ) implies after.referenced(o) by {}
        }
    }

    proof fn lemma_open(self, limits: Limits, path: Seq<u8>, create_new: bool)
        requires
            self.consistent(limits),
        ensures
            self.open_file(limits, path, create_new).0.consistent(limits),
    {
        let after = self.open_file(limits, path, create_new).0;
        let p = names(path);
        let id = self.next;
        if after.next != id {
            lemma_canonical_names(path);
            let object = if self.files.dom().contains(p) { self.files[p] } else { id };
            assert(after.handles.dom() =~= self.handles.dom().insert(id));
            assert forall|o: u64| self.referenced(o) implies #[trigger] after.referenced(o) by {
                if self.files.contains_value(o) {
                    let q = choose|q: Seq<Seq<u8>>| #[trigger]
                        self.files.dom().contains(q) && self.files[q] == o;
                    assert(after.files.dom().contains(q) && after.files[q] == o);
                } else {
                    let h = choose|h: u64| #[trigger]
                        self.handles.dom().contains(h) && self.handles[h] == o;
                    assert(h != id);
                    assert(after.handles.dom().contains(h) && after.handles[h] == o);
                }
            }
            assert(after.referenced(object)) by {
                assert(after.handles.dom().contains(id) && after.handles[id] == object);
            }
            assert forall|q: Seq<Seq<u8>>| #[trigger] self.has_parent(q) implies after.has_parent(
                q,
            ) by {}
            assert(self.has_parent(p));
            if !self.files.dom().contains(p) {
                assert(after.files.dom() =~= self.files.dom().insert(p));
                assert(after.objects.dom() =~= self.objects.dom().insert(id));
                assert(self.sizes().dom() =~= self.objects.dom());
                lemma_total_insert(self.sizes(), id, 0);
                assert(after.sizes() =~= self.sizes().insert(id, 0));
                assert forall|q: Seq<Seq<u8>>, r: Seq<Seq<u8>>|
                    after.files.dom().contains(q) && after.files.dom().contains(r) && q != r implies
                    #[trigger] after.files[q] != #[trigger] after.files[r] by {
                    if q == p {
                        assert(self.objects.dom().contains(self.files[r]));
                    }
                    if r == p {
                        assert(self.objects.dom().contains(self.files[q]));
                    }
                }
            } else {
                assert(after.sizes() =~= self.sizes());
            }
        }
    }

    /// What one object becomes changes nothing about who leads to it.
    proof fn lemma_store(self, limits: Limits, object: u64, bytes: Seq<u8>)
        requires
            self.consistent(limits),
            self.objects.dom().contains(object),
            self.used() + bytes.len() <= limits.max_bytes + self.objects[object].len(),
        ensures
            (Contents { objects: self.objects.insert(object, bytes), ..self }).consistent(limits),
    {
        let after = Contents { objects: self.objects.insert(object, bytes), ..self };
        assert(after.objects.dom() =~= self.objects.dom());
        assert(self.sizes().dom() =~= self.objects.dom());
        lemma_total_insert(self.sizes(), object, bytes.len());
        assert(after.sizes() =~= self.sizes().insert(object, bytes.len()));
        assert forall|o: u64| #[trigger] self.referenced(o) implies after.referenced(o) by {}
        assert forall|o: u64| #[trigger] after.objects.dom().contains(o) implies after.referenced(
            o,
        ) by {
            assert(self.objects.dom().contains(o));
        }
        assert forall|q: Seq<Seq<u8>>| #[trigger] self.has_parent(q) implies after.has_parent(
            q,
        ) by {}
    }

    /// A directory holds finitely many names.
    pub proof fn lemma_children(self, directory: Seq<Seq<u8>>)
        requires
            self.files.dom().finite(),
            self.directories.finite(),
        ensures
            self.children(directory).dom().finite(),
            self.child_bytes(directory).dom() == self.children(directory).dom(),
    {
        let paths = self.files.dom().union(self.directories);
        let last = |p: Seq<Seq<u8>>| p.last();
        paths.lemma_map_finite(last);
        assert forall|n: Seq<u8>| #[trigger] self.children(directory).dom().contains(
            n,
        ) implies paths.map(last).contains(n) by {
            let p = directory.push(n);
            assert(paths.contains(p) && last(p) == n);
        }
        vstd::set_lib::lemma_len_subset(self.children(directory).dom(), paths.map(last));
        assert(self.child_bytes(directory).dom() =~= self.children(directory).dom());
    }

    /// The bytes in use grow as one object does.
    pub proof fn lemma_growth(self, object: u64, bytes: Seq<u8>)
        requires
            self.objects.dom().finite(),
            self.objects.dom().contains(object),
        ensures
            (Contents { objects: self.objects.insert(object, bytes), ..self }).used()
                + self.objects[object].len() == self.used() + bytes.len(),
    {
        let after = Contents { objects: self.objects.insert(object, bytes), ..self };
        assert(self.sizes().dom() =~= self.objects.dom());
        lemma_total_insert(self.sizes(), object, bytes.len());
        assert(after.sizes() =~= self.sizes().insert(object, bytes.len()));
    }

    proof fn lemma_close(self, limits: Limits, file: FileId)
        requires
            self.consistent(limits),
        ensures
            self.close(file).0.consistent(limits),
    {
        if self.opened(file) {
            let object = self.handles[file.slot];
            let closed = Contents { handles: self.handles.remove(file.slot), ..self };
            assert(closed.handles.dom() =~= self.handles.dom().remove(file.slot));
            assert(closed.sizes() =~= self.sizes());
            assert forall|o: u64| #[trigger] closed.objects.dom().contains(o) implies o < closed.next
                && (o == object || closed.referenced(o)) by {
                assert(self.objects.dom().contains(o));
                if !self.files.contains_value(o) && o != object {
                    let h = choose|h: u64| #[trigger]
                        self.handles.dom().contains(h) && self.handles[h] == o;
                    assert(closed.handles.dom().contains(h) && closed.handles[h] == o);
                }
            }
            assert forall|q: Seq<Seq<u8>>| #[trigger] self.has_parent(q) implies closed.has_parent(
                q,
            ) by {}
            closed.lemma_collect(limits, object);
        }
    }

    proof fn lemma_create_directory(self, limits: Limits, path: Seq<u8>)
        requires
            self.consistent(limits),
        ensures
            self.create_directory(limits, path).0.consistent(limits),
    {
        let after = self.create_directory(limits, path).0;
        if canonical(path) {
            lemma_canonical_names(path);
        }
        assert(after.sizes() =~= self.sizes());
        assert forall|o: u64| #[trigger] self.referenced(o) implies after.referenced(o) by {}
        assert forall|q: Seq<Seq<u8>>| #[trigger] self.has_parent(q) implies after.has_parent(
            q,
        ) by {}
    }

    proof fn lemma_rename(self, limits: Limits, source: Seq<u8>, destination: Seq<u8>)
        requires
            self.consistent(limits),
        ensures
            self.rename(source, destination).0.consistent(limits),
    {
        let from = names(source);
        let to = names(destination);
        let after = self.rename(source, destination).0;
        if canonical(source) && canonical(destination) && self.has_parent(to)
            && !self.directories.contains(to) && self.files.dom().contains(from) && from != to {
            lemma_canonical_names(destination);
            let object = self.files[from];
            let moved = Contents { files: self.files.remove(from).insert(to, object), ..self };
            assert(moved.files.dom() =~= self.files.dom().remove(from).insert(to));
            assert(moved.sizes() =~= self.sizes());
            assert forall|q: Seq<Seq<u8>>| #[trigger] self.has_parent(q) implies moved.has_parent(
                q,
            ) by {}
            let gone = if self.files.dom().contains(to) { self.files[to] } else { object };
            assert(moved.referenced(object)) by {
                assert(moved.files.dom().contains(to) && moved.files[to] == object);
            }
            assert forall|o: u64| #[trigger] moved.objects.dom().contains(o) implies o < moved.next
                && (o == gone || moved.referenced(o)) by {
                assert(self.objects.dom().contains(o));
                if self.files.contains_value(o) {
                    let q = choose|q: Seq<Seq<u8>>| #[trigger]
                        self.files.dom().contains(q) && self.files[q] == o;
                    if q != from && q != to {
                        assert(moved.files.dom().contains(q) && moved.files[q] == o);
                    }
                }
            }
            moved.lemma_collect(limits, gone);
        }
    }

    proof fn lemma_remove_file(self, limits: Limits, path: Seq<u8>)
        requires
            self.consistent(limits),
        ensures
            self.remove_file(path).0.consistent(limits),
    {
        let p = names(path);
        if canonical(path) && self.files.dom().contains(p) {
            let object = self.files[p];
            let removed = Contents { files: self.files.remove(p), ..self };
            assert(removed.files.dom() =~= self.files.dom().remove(p));
            assert(removed.sizes() =~= self.sizes());
            assert forall|q: Seq<Seq<u8>>| #[trigger] self.has_parent(
                q,
            ) implies removed.has_parent(q) by {}
            assert forall|o: u64| #[trigger] removed.objects.dom().contains(o) implies o
                < removed.next && (o == object || removed.referenced(o)) by {
                assert(self.objects.dom().contains(o));
                if self.files.contains_value(o) {
                    let q = choose|q: Seq<Seq<u8>>| #[trigger]
                        self.files.dom().contains(q) && self.files[q] == o;
                    if q != p {
                        assert(removed.files.dom().contains(q) && removed.files[q] == o);
                    }
                }
            }
            removed.lemma_collect(limits, object);
        }
    }

    /// Every operation keeps a disk consistent: no object is lost while something leads to it, none
    /// is left behind, and the limits are kept.
    pub proof fn law_consistent(self, limits: Limits, operation: IoOperation, limit: usize)
        requires
            self.consistent(limits),
        ensures
            self.perform(limits, operation, limit).0.consistent(limits),
    {
        match operation {
            IoOperation::Open { path, create_new } => {
                self.lemma_open(limits, path@, create_new);
            },
            IoOperation::Write { file, offset, buffer } => {
                if self.write(limits, file, offset, buffer@, limit).0 != self {
                    let n = least(buffer@.len() as int, limit as int);
                    self.lemma_store(
                        limits,
                        self.handles[file.slot],
                        overwritten(self.behind(file), offset as int, buffer@.take(n)),
                    );
                }
            },
            IoOperation::SetLen { file, length } => {
                if self.set_len(limits, file, length).0 != self {
                    self.lemma_store(
                        limits,
                        self.handles[file.slot],
                        resized(self.behind(file), length as nat),
                    );
                }
            },
            IoOperation::CreateDirectory(path) => {
                self.lemma_create_directory(limits, path@);
            },
            IoOperation::Rename { source, destination } => {
                self.lemma_rename(limits, source@, destination@);
            },
            IoOperation::RemoveFile(path) => {
                self.lemma_remove_file(limits, path@);
            },
            IoOperation::Close(file) => {
                self.lemma_close(limits, file);
            },
            _ => {},
        }
    }

    /// A read gets back what was written: of the same bytes, through the same handle, whatever the
    /// limits of the two transfers, as far as both reach.
    pub proof fn law_read_back(
        self,
        limits: Limits,
        file: FileId,
        offset: u64,
        bytes: Seq<u8>,
        moved: usize,
        buffer: Seq<u8>,
        limit: usize,
    )
        requires
            self.write(limits, file, offset, bytes, limit).1 == Answer::Moved(moved),
            moved > 0,
            buffer.len() <= moved,
        ensures
            ({
                let after = self.write(limits, file, offset, bytes, limit).0;
                &&& after.read(file, offset, buffer.len() as int, usize::MAX) == Answer::Moved(
                    buffer.len() as usize,
                )
                &&& after.after_read(file, offset, buffer, usize::MAX) == bytes.take(
                    buffer.len() as int,
                )
            }),
    {
        let after = self.write(limits, file, offset, bytes, limit).0;
        let n = buffer.len() as int;
        assert(after.behind(file).len() >= offset + n);
        assert(after.readable(file, offset, n, usize::MAX) == n);
        assert(after.after_read(file, offset, buffer, usize::MAX) =~= bytes.take(n));
    }

    /// What was never written reads as zero: the bytes that a longer length adds.
    pub proof fn law_extension_is_zero(self, limits: Limits, file: FileId, length: u64, at: int)
        requires
            self.set_len(limits, file, length).1 == Answer::Done,
            self.behind(file).len() <= at < length,
        ensures
            self.set_len(limits, file, length).0.behind(file).len() == length,
            self.set_len(limits, file, length).0.behind(file)[at] == 0,
    {
    }

    /// An open handle keeps its bytes through every operation that does not write to it, shorten
    /// or lengthen it, or close it: also when its path is renamed, replaced or removed.
    pub proof fn law_handle_keeps_bytes(
        self,
        limits: Limits,
        operation: IoOperation,
        limit: usize,
        file: FileId,
    )
        requires
            self.consistent(limits),
            self.opened(file),
            !(operation is Write),
            !(operation is SetLen),
            operation matches IoOperation::Close(closed) ==> closed.slot != file.slot,
        ensures
            self.perform(limits, operation, limit).0.opened(file),
            self.perform(limits, operation, limit).0.behind(file) == self.behind(file),
    {
        let object = self.handles[file.slot];
        assert(self.objects.dom().contains(object));
        match operation {
            IoOperation::Close(closed) => {
                if self.opened(closed) {
                    let rest = Contents { handles: self.handles.remove(closed.slot), ..self };
                    assert(rest.handles.dom().contains(file.slot) && rest.handles[file.slot]
                        == object);
                    assert(rest.handles.contains_value(object));
                }
            },
            IoOperation::Rename { source, destination } => {
                let from = names(source@);
                let to = names(destination@);
                let moved = Contents {
                    files: self.files.remove(from).insert(to, self.files[from]),
                    ..self
                };
                assert(moved.handles.dom().contains(file.slot) && moved.handles[file.slot]
                    == object);
                assert(moved.handles.contains_value(object));
            },
            IoOperation::RemoveFile(path) => {
                let rest = Contents { files: self.files.remove(names(path@)), ..self };
                assert(rest.handles.dom().contains(file.slot) && rest.handles[file.slot] == object);
                assert(rest.handles.contains_value(object));
            },
            _ => {},
        }
    }

    /// An operation that fails leaves the disk as it was.
    pub proof fn law_failure_changes_nothing(
        self,
        limits: Limits,
        operation: IoOperation,
        limit: usize,
    )
        requires
            self.perform(limits, operation, limit).1 is Fails,
        ensures
            self.perform(limits, operation, limit).0 == self,
    {
    }

    /// An empty disk is consistent.
    pub proof fn law_empty(limits: Limits)
        ensures
            Contents::empty().consistent(limits),
    {
        let c = Contents::empty();
        assert(c.sizes().dom() =~= Set::<u64>::empty());
        assert(c.files.dom() =~= Set::<Seq<Seq<u8>>>::empty());
        assert(c.handles.dom() =~= Set::<u64>::empty());
        assert(c.objects.dom() =~= Set::<u64>::empty());
    }
}

/// `bytes` with `patch` written at `at`. What lies between the old end and `at` becomes zero.
pub open spec fn overwritten(bytes: Seq<u8>, at: int, patch: Seq<u8>) -> Seq<u8> {
    let end = at + patch.len();
    let length = if end > bytes.len() { end as nat } else { bytes.len() };
    Seq::new(
        length,
        |i: int|
            if at <= i < end {
                patch[i - at]
            } else if i < bytes.len() {
                bytes[i]
            } else {
                0u8
            },
    )
}

/// `bytes` cut or filled with zeros to `length`.
pub open spec fn resized(bytes: Seq<u8>, length: nat) -> Seq<u8> {
    Seq::new(length, |i: int| if i < bytes.len() { bytes[i] } else { 0u8 })
}

/// A file is opened exactly where its path is canonical and lies in a directory that exists, is no
/// directory itself, exists or not as was asked, and the disk has room; each failure has its error.
pub proof fn law_when_a_file_opens(c: Contents, limits: Limits, path: Seq<u8>, create_new: bool)
    ensures
        ({
            let p = names(path);
            let there = c.files.dom().contains(p);
            let above = p.len() <= 1 || c.directories.contains(p.drop_last());
            let room = c.handles.dom().len() < limits.capacity && c.next < u64::MAX && (there
                || c.objects.dom().len() < limits.capacity);
            let (after, answer) = c.open_file(limits, path, create_new);
            &&& answer is Opened <==> canonical(path) && above && !c.directories.contains(p)
                && create_new != there && room
            &&& answer is Opened || answer is Fails
            &&& !canonical(path) ==> answer->Fails_0 == Error::InvalidFormat(
                "The memory path must be a canonical relative path",
            )
            &&& canonical(path) && !above ==> answer->Fails_0 == Error::Io(IoErrorKind::NotFound)
            &&& canonical(path) && above && c.directories.contains(p) ==> answer->Fails_0
                == Error::InvalidFormat("path is directory")
            &&& canonical(path) && above && !c.directories.contains(p) && create_new && there
                ==> answer->Fails_0 == Error::Io(IoErrorKind::AlreadyExists)
            &&& canonical(path) && above && !c.directories.contains(p) && !create_new && !there
                ==> answer->Fails_0 == Error::Io(IoErrorKind::NotFound)
            &&& canonical(path) && above && !c.directories.contains(p) && create_new != there && !room
                ==> answer->Fails_0 == Error::CapacityExceeded
        }),
{
}

/// A file that is opened has a handle that was not in use and leads to what the path leads to: what was
/// there, or, where it is new, nothing yet. No other path, handle or file changes.
pub proof fn law_opened_leads_to_the_file(
    c: Contents,
    limits: Limits,
    path: Seq<u8>,
    create_new: bool,
    other: Seq<Seq<u8>>,
    handle: u64,
)
    requires
        c.consistent(limits),
        c.open_file(limits, path, create_new).1 is Opened,
    ensures
        ({
            let (after, answer) = c.open_file(limits, path, create_new);
            let p = names(path);
            let file = answer->Opened_0;
            &&& after.opened(file)
            &&& !c.handles.dom().contains(file.slot)
            &&& after.files.dom().contains(p)
            &&& after.handles[file.slot] == after.files[p]
            &&& c.files.dom().contains(p) ==> after.files == c.files && after.objects == c.objects
            &&& !c.files.dom().contains(p) ==> after.behind(file).len() == 0
            &&& other != p ==> after.files.dom().contains(other) == c.files.dom().contains(other)
            &&& c.files.dom().contains(other) ==> after.files[other] == c.files[other]
            &&& handle != file.slot ==> after.handles.dom().contains(handle)
                == c.handles.dom().contains(handle)
            &&& c.handles.dom().contains(handle) ==> after.handles[handle] == c.handles[handle]
                && after.objects[after.handles[handle]] == c.objects[c.handles[handle]]
            &&& after.directories == c.directories
        }),
{
    if c.handles.dom().contains(handle) {
        assert(c.objects.dom().contains(c.handles[handle]));
    }
}

/// A write moves as much as the limit lets it, at the place it was asked for: what it moved is there
/// afterwards, all other bytes are as they were, and a gap is filled with zeros. Other files stay.
pub proof fn law_write_changes_its_bytes(
    c: Contents,
    limits: Limits,
    file: FileId,
    offset: u64,
    bytes: Seq<u8>,
    limit: usize,
    at: int,
    other: u64,
)
    requires
        c.write(limits, file, offset, bytes, limit).1 is Moved,
    ensures
        ({
            let (after, answer) = c.write(limits, file, offset, bytes, limit);
            let n = answer->Moved_0 as int;
            let before = c.behind(file);
            let now = after.behind(file);
            &&& n <= bytes.len() && n <= limit
            &&& n == bytes.len() || n == limit
            &&& n == 0 ==> after == c
            &&& n > 0 ==> now.len() == if before.len() >= offset + n {
                before.len() as int
            } else {
                offset + n
            }
            &&& n > 0 && offset <= at < offset + n ==> now[at] == bytes[at - offset]
            &&& 0 <= at < before.len() && !(offset <= at < offset + n) ==> now[at] == before[at]
            &&& n > 0 && before.len() <= at < offset ==> now[at] == 0
            &&& other != c.handles[file.slot] ==> after.objects.dom().contains(other)
                == c.objects.dom().contains(other)
            &&& other != c.handles[file.slot] && c.objects.dom().contains(other)
                ==> after.objects[other] == c.objects[other]
            &&& after == (Contents { objects: after.objects, ..c })
        }),
{
}

/// A write fails exactly for a handle that is not open, an offset that no memory has, or more bytes than
/// the disk may hold.
pub proof fn law_when_a_write_fails(
    c: Contents,
    limits: Limits,
    file: FileId,
    offset: u64,
    bytes: Seq<u8>,
    limit: usize,
)
    ensures
        ({
            let answer = c.write(limits, file, offset, bytes, limit).1;
            let n = if bytes.len() <= limit {
                bytes.len() as int
            } else {
                limit as int
            };
            let length = c.behind(file).len();
            let more = if offset + n > length {
                offset + n - length
            } else {
                0
            };
            &&& !c.opened(file) ==> answer == Answer::Fails(Error::RangeTruncated)
            &&& c.opened(file) && offset > usize::MAX ==> answer == Answer::Fails(
                Error::CapacityExceeded,
            )
            &&& c.opened(file) && offset <= usize::MAX && n > 0 && (offset + n > usize::MAX || c.used()
                + more > limits.max_bytes) ==> answer == Answer::Fails(Error::CapacityExceeded)
            &&& c.opened(file) && offset <= usize::MAX && (n == 0 || (offset + n <= usize::MAX
                && c.used() + more <= limits.max_bytes)) ==> answer == Answer::Moved(n as usize)
        }),
{
}

/// A read moves as much as there is from its offset on, as its buffer takes and as the limit lets it,
/// and puts it at the start of the buffer; the rest of the buffer stays. It fails exactly for a handle
/// that is not open and an offset that no memory has.
pub proof fn law_read_fills_the_buffer(
    c: Contents,
    file: FileId,
    offset: u64,
    buffer: Seq<u8>,
    limit: usize,
    at: int,
)
    requires
        buffer.len() <= usize::MAX,
        0 <= at < buffer.len(),
    ensures
        ({
            let answer = c.read(file, offset, buffer.len() as int, limit);
            let filled = c.after_read(file, offset, buffer, limit);
            let length = c.behind(file).len();
            &&& !c.opened(file) ==> answer == Answer::Fails(Error::RangeTruncated)
            &&& c.opened(file) && offset > usize::MAX ==> answer == Answer::Fails(
                Error::CapacityExceeded,
            )
            &&& answer is Fails ==> filled == buffer
            &&& c.opened(file) && offset <= usize::MAX ==> answer is Moved
            &&& filled.len() == buffer.len()
            &&& answer is Moved ==> {
                let n = answer->Moved_0 as int;
                &&& n <= buffer.len() && n <= limit
                &&& offset < length ==> offset + n <= length
                &&& offset >= length ==> n == 0
                &&& n == buffer.len() || n == limit || offset + n >= length
                &&& at < n ==> filled[at] == c.behind(file)[offset + at]
                &&& at >= n ==> filled[at] == buffer[at]
            }
        }),
{
}

/// A length that is set is the length of the file: what is left keeps its bytes, and other files stay.
pub proof fn law_length_is_set(
    c: Contents,
    limits: Limits,
    file: FileId,
    length: u64,
    at: int,
    other: u64,
)
    ensures
        ({
            let (after, answer) = c.set_len(limits, file, length);
            let before = c.behind(file);
            let more = if length > before.len() {
                length - before.len()
            } else {
                0
            };
            &&& !c.opened(file) ==> answer == Answer::Fails(Error::RangeTruncated)
            &&& c.opened(file) && (length > usize::MAX || c.used() + more > limits.max_bytes) ==> answer
                == Answer::Fails(Error::CapacityExceeded)
            &&& answer is Done <==> c.opened(file) && length <= usize::MAX && c.used() + more
                <= limits.max_bytes
            &&& answer is Done ==> {
                &&& after.behind(file).len() == length
                &&& 0 <= at < length && at < before.len() ==> after.behind(file)[at] == before[at]
                &&& other != c.handles[file.slot] && c.objects.dom().contains(other)
                    ==> after.objects.dom().contains(other) && after.objects[other]
                    == c.objects[other]
                &&& after == (Contents { objects: after.objects, ..c })
            }
        }),
{
}

/// A rename moves what the source leads to, in place of what the destination led to; no other path
/// changes.
pub proof fn law_rename_moves(
    c: Contents,
    limits: Limits,
    source: Seq<u8>,
    destination: Seq<u8>,
    other: Seq<Seq<u8>>,
)
    requires
        c.consistent(limits),
    ensures
        ({
            let from = names(source);
            let to = names(destination);
            let (after, answer) = c.rename(source, destination);
            let above = to.len() <= 1 || c.directories.contains(to.drop_last());
            &&& answer is Done <==> canonical(source) && canonical(destination) && above
                && !c.directories.contains(to) && c.files.dom().contains(from)
            &&& answer is Done || answer is Fails
            &&& canonical(source) && canonical(destination) && (!above || (!c.directories.contains(to)
                && !c.files.dom().contains(from))) ==> answer->Fails_0 == Error::Io(
                IoErrorKind::NotFound,
            )
            &&& canonical(source) && canonical(destination) && above && c.directories.contains(to)
                ==> answer->Fails_0 == Error::InvalidFormat("The target path is a directory")
            &&& answer is Done ==> {
                &&& after.files.dom().contains(to)
                &&& after.files[to] == c.files[from]
                &&& after.objects.dom().contains(after.files[to])
                &&& after.objects[after.files[to]] == c.objects[c.files[from]]
                &&& from != to ==> !after.files.dom().contains(from)
                &&& other != from && other != to ==> after.files.dom().contains(other)
                    == c.files.dom().contains(other)
                &&& other != from && other != to && c.files.dom().contains(other)
                    ==> after.files[other] == c.files[other] && after.objects[after.files[other]]
                    == c.objects[c.files[other]]
                &&& after.directories == c.directories
                &&& after.handles == c.handles
            }
        }),
{
    let from = names(source);
    let to = names(destination);
    let after = c.rename(source, destination).0;
    if c.rename(source, destination).1 is Done && from != to {
        let moved = Contents { files: c.files.remove(from).insert(to, c.files[from]), ..c };
        assert(moved.files.dom().contains(to) && moved.files[to] == c.files[from]);
        assert(moved.files.contains_value(c.files[from]));
        assert(c.objects.dom().contains(c.files[from]));
        if other != from && other != to && c.files.dom().contains(other) {
            assert(moved.files.dom().contains(other) && moved.files[other] == c.files[other]);
            assert(moved.files.contains_value(c.files[other]));
            assert(c.objects.dom().contains(c.files[other]));
        }
    } else if c.rename(source, destination).1 is Done {
        assert(c.objects.dom().contains(c.files[from]));
    }
}

/// A file that is removed is at its path no more; every other path leads where it did.
pub proof fn law_removed_is_gone(c: Contents, limits: Limits, path: Seq<u8>, other: Seq<Seq<u8>>)
    requires
        c.consistent(limits),
    ensures
        ({
            let p = names(path);
            let (after, answer) = c.remove_file(path);
            &&& answer is Done <==> canonical(path) && c.files.dom().contains(p)
            &&& canonical(path) && !c.files.dom().contains(p) ==> answer == Answer::Fails(
                Error::Io(IoErrorKind::NotFound),
            )
            &&& answer is Done ==> {
                &&& !after.files.dom().contains(p)
                &&& other != p ==> after.files.dom().contains(other) == c.files.dom().contains(other)
                &&& other != p && c.files.dom().contains(other) ==> after.files[other]
                    == c.files[other] && after.objects[after.files[other]] == c.objects[c.files[other]]
                &&& !after.files.contains_value(c.files[p]) && !after.handles.contains_value(c.files[p])
                    ==> !after.objects.dom().contains(c.files[p])
                &&& after.directories == c.directories
                &&& after.handles == c.handles
            }
        }),
{
    let p = names(path);
    if canonical(path) && c.files.dom().contains(p) {
        let removed = Contents { files: c.files.remove(p), ..c };
        if other != p && c.files.dom().contains(other) {
            assert(removed.files.dom().contains(other) && removed.files[other] == c.files[other]);
            assert(removed.files.contains_value(c.files[other]));
            assert(c.objects.dom().contains(c.files[other]));
        }
    }
}

/// A handle that is closed is open no more; every other handle and every path leads where it did.
pub proof fn law_closed_is_closed(
    c: Contents,
    limits: Limits,
    file: FileId,
    other: FileId,
    path: Seq<Seq<u8>>,
)
    requires
        c.consistent(limits),
    ensures
        ({
            let (after, answer) = c.close(file);
            &&& answer is Done <==> file.generation == Generation(0) && c.handles.dom().contains(
                file.slot,
            )
            &&& !(answer is Done) ==> answer == Answer::Fails(Error::RangeTruncated)
            &&& !after.opened(file)
            &&& other.slot != file.slot ==> after.opened(other) == c.opened(other)
            &&& other.slot != file.slot && c.opened(other) ==> after.behind(other) == c.behind(other)
            &&& after.files == c.files
            &&& c.files.dom().contains(path) ==> after.objects[c.files[path]]
                == c.objects[c.files[path]]
            &&& after.directories == c.directories
        }),
{
    if c.opened(file) {
        let rest = Contents { handles: c.handles.remove(file.slot), ..c };
        if other.slot != file.slot && c.opened(other) {
            assert(rest.handles.dom().contains(other.slot) && rest.handles[other.slot]
                == c.handles[other.slot]);
            assert(rest.handles.contains_value(c.handles[other.slot]));
        }
        if c.files.dom().contains(path) {
            assert(rest.files.contains_value(c.files[path]));
        }
    }
}

/// A directory is made exactly where its path is canonical, lies in a directory that exists, is no file,
/// and the disk has room; one that is there already is no failure.
pub proof fn law_directory_is_made(c: Contents, limits: Limits, path: Seq<u8>, other: Seq<Seq<u8>>)
    ensures
        ({
            let p = names(path);
            let (after, answer) = c.create_directory(limits, path);
            let above = p.len() <= 1 || c.directories.contains(p.drop_last());
            let room = c.directories.contains(p) || c.directories.len() < limits.capacity;
            &&& answer is Done <==> canonical(path) && above && !c.files.dom().contains(p) && room
            &&& answer is Done || answer is Fails
            &&& answer is Done ==> after.directories.contains(p)
            &&& canonical(path) && !above ==> answer->Fails_0 == Error::Io(IoErrorKind::NotFound)
            &&& canonical(path) && above && c.files.dom().contains(p) ==> answer->Fails_0
                == Error::InvalidFormat("Directory path is occupied by a file")
            &&& canonical(path) && above && !c.files.dom().contains(p) && !room ==> answer->Fails_0
                == Error::CapacityExceeded
            &&& other != p ==> after.directories.contains(other) == c.directories.contains(other)
            &&& after == (Contents { directories: after.directories, ..c })
        }),
{
}

/// A listing names exactly the files and directories that lie directly in the directory, each as what it
/// is; one that is larger than was asked for fails as a whole. The empty path is the root.
pub proof fn law_listing_is_complete(
    c: Contents,
    path: Seq<u8>,
    max_entries: usize,
    max_name_bytes: usize,
    name: Seq<u8>,
)
    ensures
        ({
            let answer = c.read_directory(path, max_entries, max_name_bytes);
            let d = if path.len() == 0 {
                Seq::<Seq<u8>>::empty()
            } else {
                names(path)
            };
            let there = path.len() == 0 || (canonical(path) && c.directories.contains(names(path)));
            &&& answer is Listing ==> there
            &&& answer is Listing || answer is Fails
            &&& path.len() > 0 && canonical(path) && !c.directories.contains(names(path)) ==> answer
                == Answer::Fails(Error::Io(IoErrorKind::NotFound))
            &&& there && answer is Fails ==> answer->Fails_0 == Error::CapacityExceeded
            &&& answer matches Answer::Listing(listing) ==> {
                &&& listing.dom().contains(name) <==> c.files.dom().contains(d.push(name))
                    || c.directories.contains(d.push(name))
                &&& c.files.dom().contains(d.push(name)) ==> listing[name] == DirectoryEntryKind::File
                &&& !c.files.dom().contains(d.push(name)) && c.directories.contains(d.push(name))
                    ==> listing[name] == DirectoryEntryKind::Directory
                &&& listing.dom().len() <= max_entries
            }
            &&& there && answer is Fails ==> c.children(d).dom().len() > max_entries || total(
                c.child_bytes(d),
            ) > max_name_bytes
            &&& c.child_bytes(d).dom().contains(name) ==> c.child_bytes(d)[name] == name.len()
        }),
{
}

/// A disk in memory outlives nothing: no synchronisation and no lock succeeds, and one of what is not
/// there says that.
pub proof fn law_nothing_is_durable(c: Contents, limits: Limits, operation: IoOperation, limit: usize)
    requires
        operation is SyncFile || operation is SyncDirectory || operation is TryLock,
    ensures
        c.perform(limits, operation, limit).0 == c,
        c.perform(limits, operation, limit).1 is Fails,
        operation is TryLock ==> c.perform(limits, operation, limit).1->Fails_0
            == Error::UnsupportedDurability,
        operation matches IoOperation::SyncFile { file, .. } ==> c.perform(
            limits,
            operation,
            limit,
        ).1->Fails_0 == (if c.opened(file) {
            Error::UnsupportedDurability
        } else {
            Error::RangeTruncated
        }),
        operation matches IoOperation::SyncDirectory(path) ==> (path@.len() == 0 || (canonical(path@)
            && c.directories.contains(names(path@))) ==> c.perform(limits, operation, limit).1->Fails_0
            == Error::UnsupportedDurability),
{
}

/// Each operation is done as what it is, on what it names.
pub proof fn law_operations_are_told_apart(
    c: Contents,
    limits: Limits,
    operation: IoOperation,
    limit: usize,
)
    ensures
        ({
            let done = c.perform(limits, operation, limit);
            &&& operation matches IoOperation::Open { path, create_new } ==> done == c.open_file(
                limits,
                path@,
                create_new,
            )
            &&& operation matches IoOperation::Read { file, offset, buffer } ==> done == (
                c,
                c.read(file, offset, buffer@.len() as int, limit),
            )
            &&& operation matches IoOperation::Write { file, offset, buffer } ==> done == c.write(
                limits,
                file,
                offset,
                buffer@,
                limit,
            )
            &&& operation matches IoOperation::SetLen { file, length } ==> done == c.set_len(
                limits,
                file,
                length,
            )
            &&& operation matches IoOperation::CreateDirectory(path) ==> done == c.create_directory(
                limits,
                path@,
            )
            &&& operation matches IoOperation::Rename { source, destination } ==> done == c.rename(
                source@,
                destination@,
            )
            &&& operation matches IoOperation::RemoveFile(path) ==> done == c.remove_file(path@)
            &&& operation matches IoOperation::ReadDirectory {
                path,
                max_entries,
                max_name_bytes,
            } ==> done == (c, c.read_directory(path@, max_entries, max_name_bytes))
            &&& operation matches IoOperation::Close(file) ==> done == c.close(file)
        }),
{
}

} // verus!
