//! File requests below a root directory, as a sequence of single calls of the file system. The
//! decisions stand here: which call comes next, what its reply means, and which handle a request
//! may use. Whoever runs a task makes the calls.
use crate::allocation::Memory;
use crate::device::buffer::AlignedBuffer;
use crate::device::metadata::{sorted, DirectorySnapshot};
use crate::device::path::{canonical, DevicePath};
use crate::device::{
    CompletionRoute, DirectoryEntry, DirectoryEntryKind, FileId, FileLockMode, IoCompletion,
    IoOperation, IoOutcome, IoRequest,
};
use crate::table::{Key, Table};
use crate::types::{Error, Generation, IoErrorKind, IoId};
use vstd::prelude::*;

verus! {

#[derive(Clone, Copy, Debug, PartialEq, Eq, Structural)]
pub enum HandleKind {
    Data,
    /// A lock can only be closed.
    Lock,
}

/// The handles that are open.
#[verifier::ext_equal]
pub struct Handles {
    pub limit: nat,
    pub next: u64,
    pub open: Map<u64, HandleKind>,
}

impl Handles {
    /// Why no further handle can be opened.
    pub open spec fn full(self) -> bool {
        self.open.dom().len() >= self.limit || self.next == u64::MAX
    }

    pub open spec fn kept(self, kind: HandleKind) -> Handles {
        Handles { open: self.open.insert(self.next, kind), next: (self.next + 1) as u64, ..self }
    }

    pub open spec fn dropped(self, slot: u64) -> Handles {
        Handles { open: self.open.remove(slot), ..self }
    }

    /// No handle has a number that is still to be given.
    pub open spec fn numbered(self) -> bool {
        forall|slot: u64| #[trigger] self.open.dom().contains(slot) ==> slot < self.next
    }

    /// The handle is a lock that is held.
    pub open spec fn locked(self, file: FileId) -> bool {
        self.opened(file) && self.open[file.slot] == HandleKind::Lock
    }

    /// The handle was given and is no longer open.
    pub open spec fn gone(self, file: FileId) -> bool {
        file.slot < self.next && !self.open.dom().contains(file.slot)
    }

    pub open spec fn opened(self, file: FileId) -> bool {
        file.generation == Generation(0) && self.open.dom().contains(file.slot)
    }

    /// Why a handle cannot be read or written.
    pub open spec fn no_data(self, file: FileId) -> Option<Error> {
        if !self.opened(file) {
            Some(Error::RangeTruncated)
        } else if self.open[file.slot] == HandleKind::Lock {
            Some(Error::InvalidState("a lock handle cannot be used for data I/O"))
        } else {
            None
        }
    }
}

pub struct HandleTable {
    limit: usize,
    next: u64,
    open: Table<u64, HandleKind>,
}

impl HandleTable {
    pub closed spec fn view(self) -> Handles {
        Handles { limit: self.limit as nat, next: self.next, open: self.open@ }
    }

    /// No more handles are open than the limit, and none has a number that is still to be given.
    pub closed spec fn wf(self) -> bool {
        &&& self.open.wf()
        &&& self@.open.dom().len() <= self.limit
        &&& forall|slot: u64| #[trigger] self@.open.dom().contains(slot) ==> slot < self.next
    }

    /// What a valid table says of its numbers.
    pub proof fn lemma_numbered(self)
        requires
            self.wf(),
        ensures
            self@.numbered(),
            self@.open.dom().len() <= self@.limit,
    {
    }

    pub fn new(limit: usize) -> (r: Result<HandleTable, Error>)
        ensures
            limit == 0 ==> r == Err::<HandleTable, Error>(Error::CapacityExceeded),
            limit > 0 ==> r is Ok,
            r matches Ok(table) ==> table.wf() && table@ == (Handles {
                limit: limit as nat,
                next: 0,
                open: Map::empty(),
            }),
    {
        if limit == 0 {
            return Err(Error::CapacityExceeded);
        }
        Ok(HandleTable { limit, next: 0, open: Table::new() })
    }

    /// Whether one more handle can be opened.
    pub fn is_full(&self) -> (r: bool)
        requires
            self.wf(),
        ensures
            r == self@.full(),
    {
        self.open.len() >= self.limit || self.next == u64::MAX
    }

    /// Gives the next number to a handle.
    fn keep(&mut self, kind: HandleKind) -> (r: FileId)
        requires
            old(self).wf(),
            !old(self)@.full(),
        ensures
            final(self).wf(),
            final(self)@ == old(self)@.kept(kind),
            r == (FileId { slot: old(self)@.next, generation: Generation(0) }),
            !old(self)@.open.dom().contains(r.slot),
    {
        let slot = self.next;
        self.next = slot + 1;
        self.open.insert(slot, kind);
        assert(self@.open.dom() =~= old(self)@.open.dom().insert(slot));
        FileId { slot, generation: Generation(0) }
    }

    fn discard(&mut self, slot: u64)
        requires
            old(self).wf(),
        ensures
            final(self).wf(),
            final(self)@ == old(self)@.dropped(slot),
    {
        self.open.remove(&slot);
        assert(self@.open.dom() =~= old(self)@.open.dom().remove(slot));
        proof {
            if !old(self)@.open.dom().contains(slot) {
                assert(self@.open.dom() =~= old(self)@.open.dom());
            }
        }
    }

    fn kind_of(&self, file: FileId) -> (r: Option<HandleKind>)
        requires
            self.wf(),
        ensures
            r == (if self@.opened(file) {
                Some(self@.open[file.slot])
            } else {
                None
            }),
    {
        if file.generation.0 != 0 {
            return None;
        }
        match self.open.get(&file.slot) {
            Some(kind) => Some(*kind),
            None => None,
        }
    }

    /// Whether `file` can be read and written.
    fn data(&self, file: FileId) -> (r: Result<(), Error>)
        requires
            self.wf(),
        ensures
            r == (match self@.no_data(file) {
                Some(error) => Err::<(), Error>(error),
                None => Ok::<(), Error>(()),
            }),
    {
        match self.kind_of(file) {
            Some(HandleKind::Data) => Ok(()),
            Some(HandleKind::Lock) => Err(
                Error::InvalidState("a lock handle cannot be used for data I/O"),
            ),
            None => Err(Error::RangeTruncated),
        }
    }

    /// The open handle with the smallest number, which is closed first when all are.
    pub fn first(&self) -> (r: Option<(u64, HandleKind)>)
        requires
            self.wf(),
        ensures
            match r {
                None => self@.open.dom().len() == 0,
                Some((slot, kind)) => {
                    &&& self@.open.dom().contains(slot)
                    &&& self@.open[slot] == kind
                    &&& forall|other: u64| #[trigger]
                        self@.open.dom().contains(other) ==> slot <= other
                },
            },
    {
        if self.open.len() == 0 {
            return None;
        }
        let mut best: usize = 0;
        let mut i: usize = 1;
        while i < self.open.len()
            invariant
                self.wf(),
                best < i <= self.open.items().len(),
                forall|j: int|
                    0 <= j < i ==> self.open.items()[best as int].0 <= (
                    #[trigger] self.open.items()[j]).0,
            decreases self.open.items().len() - i,
        {
            if *self.open.at(i).0 < *self.open.at(best).0 {
                best = i;
            }
            i += 1;
        }
        proof {
            self.open.lemma_item(best as int);
            assert forall|other: u64| #[trigger] self@.open.dom().contains(
                other,
            ) implies self.open.items()[best as int].0 <= other by {
                self.open.lemma_key(other);
            }
        }
        let (slot, kind) = self.open.at(best);
        Some((*slot, *kind))
    }

    /// Takes the reply to an unlocking, or that nothing had to be unlocked. Only a handle that is
    /// unlocked is closed.
    pub fn unlocked(&mut self, slot: u64, reply: Result<(), IoErrorKind>) -> (r: Result<(), Error>)
        requires
            old(self).wf(),
        ensures
            final(self).wf(),
            match reply {
                Ok(()) => r == Ok::<(), Error>(()) && final(self)@ == old(self)@.dropped(slot),
                Err(kind) => r == Err::<(), Error>(Error::Io(kind)) && final(self)@ == old(self)@,
            },
    {
        match reply {
            Ok(()) => {
                self.discard(slot);
                Ok(())
            },
            Err(kind) => Err(Error::Io(kind)),
        }
    }
}

/// The call that a task waits for.
#[derive(Clone, Copy, Debug, PartialEq, Eq, Structural)]
pub enum FileCall {
    /// Open `path` to read and write. With `create_new` it must not exist, else it must.
    Open { create_new: bool },
    /// Look at `path` without following a link: is it an ordinary file?
    Inspect { mode: FileLockMode },
    /// Open or create `path` to read and write, without truncation.
    OpenLock { mode: FileLockMode },
    /// Is what was opened an ordinary file?
    InspectLock { mode: FileLockMode },
    /// Try once to lock what was opened.
    Lock { mode: FileLockMode },
    /// Start to list `path`, or the root where it is empty.
    List,
    /// Get the next entry of the list.
    NextEntry,
    /// Read into the buffer.
    Read { slot: u64, offset: u64 },
    /// Write from the buffer.
    Write { slot: u64, offset: u64 },
    SetLen { slot: u64, length: u64 },
    Sync { slot: u64, metadata: bool },
    /// Unlock the handle.
    Unlock { slot: u64 },
    /// Create the directory `path` and all above it.
    CreateDirectories,
    /// Open `path`, or the root where it is empty.
    OpenDirectory,
    /// Is what was opened a directory?
    InspectDirectory,
    /// Synchronise what was opened.
    SyncDirectory,
    /// Rename `path` to `destination`.
    Rename,
    RemoveFile,
}

/// Why a lock was not had.
#[derive(Clone, Copy, Debug, PartialEq, Eq, Structural)]
pub enum LockRefusal {
    /// Someone else holds it.
    WouldBlock,
    Io(IoErrorKind),
}

/// What the file system says of the type of an entry.
#[derive(Clone, Copy, Debug, PartialEq, Eq, Structural)]
pub struct EntryType {
    pub symlink: bool,
    pub file: bool,
    pub directory: bool,
}

impl EntryType {
    pub open spec fn model(self) -> DirectoryEntryKind {
        if self.symlink {
            DirectoryEntryKind::Symlink
        } else if self.file {
            DirectoryEntryKind::File
        } else if self.directory {
            DirectoryEntryKind::Directory
        } else {
            DirectoryEntryKind::Other
        }
    }

    pub fn kind(&self) -> (r: DirectoryEntryKind)
        ensures
            r == self.model(),
    {
        if self.symlink {
            DirectoryEntryKind::Symlink
        } else if self.file {
            DirectoryEntryKind::File
        } else if self.directory {
            DirectoryEntryKind::Directory
        } else {
            DirectoryEntryKind::Other
        }
    }
}

/// An entry of a directory, with the reply to the question for its type.
#[derive(Debug)]
pub struct FoundEntry {
    pub name: Vec<u8>,
    pub entry_type: Result<EntryType, IoErrorKind>,
}

/// The reply to a call.
#[derive(Debug)]
pub enum FileReply {
    /// To every call without a reply of its own.
    Done(Result<(), IoErrorKind>),
    /// To an inspection.
    Is(Result<bool, IoErrorKind>),
    Locked(Result<(), LockRefusal>),
    /// The next entry, or the end of the list.
    Entry(Option<Result<FoundEntry, IoErrorKind>>),
    /// How many bytes were read or written.
    Moved(Result<usize, IoErrorKind>),
}

impl FileReply {
    /// Whether this is the kind of reply that `call` gets.
    pub open spec fn answers(self, call: FileCall) -> bool {
        match call {
            FileCall::Inspect { .. } => self is Is,
            FileCall::InspectLock { .. } => self is Is,
            FileCall::InspectDirectory => self is Is,
            FileCall::Lock { .. } => self is Locked,
            FileCall::NextEntry => self is Entry,
            FileCall::Read { .. } => self is Moved,
            FileCall::Write { .. } => self is Moved,
            _ => self is Done,
        }
    }
}

/// A request under way.
pub struct FileTask {
    pub id: IoId,
    pub route: CompletionRoute,
    pub call: FileCall,
    pub path: Vec<u8>,
    pub destination: Vec<u8>,
    pub buffer: Option<AlignedBuffer>,
    pub listed: Option<DirectorySnapshot>,
}

impl FileTask {
    /// The listing is within its budgets, and the buffer is one.
    pub open spec fn wf(self) -> bool {
        &&& self.call is List || self.call is NextEntry <==> self.listed is Some
        &&& self.listed matches Some(listed) ==> listed.wf()
        &&& self.buffer matches Some(buffer) ==> buffer.wf()
    }

    /// Whether the handles are as the task needs them: one more can be kept.
    pub open spec fn has_place(self, handles: Handles) -> bool {
        self.call is Open || self.call is OpenLock || self.call is InspectLock || self.call is Lock
            ==> !handles.full()
    }
}

/// Where a request stands.
pub enum Progress {
    /// The call of the task has to be made.
    Ask(FileTask),
    Done(IoCompletion),
}

impl Progress {
    pub open spec fn ends(
        self,
        id: IoId,
        route: CompletionRoute,
        result: Result<IoOutcome, Error>,
        buffer: Option<AlignedBuffer>,
    ) -> bool {
        self == Progress::Done(IoCompletion { id, route, result, buffer })
    }

    pub open spec fn fails(
        self,
        id: IoId,
        route: CompletionRoute,
        error: Error,
        buffer: Option<AlignedBuffer>,
    ) -> bool {
        self.ends(id, route, Err(error), buffer)
    }

    /// Whether the request waits for `call`, on these paths.
    pub open spec fn asks(
        self,
        id: IoId,
        route: CompletionRoute,
        call: FileCall,
        path: Seq<u8>,
        destination: Seq<u8>,
        buffer: Option<AlignedBuffer>,
    ) -> bool {
        &&& self matches Progress::Ask(task)
        &&& task.id == id
        &&& task.route == route
        &&& task.call == call
        &&& task.path@ == path
        &&& task.destination@ == destination
        &&& task.buffer == buffer
        &&& task.wf()
    }
}

pub open spec fn bad_path() -> Error {
    Error::InvalidFormat("File paths must be relative to the device root directory")
}

/// What a request does first.
pub open spec fn begins(
    before: Handles,
    after: Handles,
    id: IoId,
    request: IoRequest,
    r: Progress,
) -> bool {
    let route = request.route;
    let none = Seq::<u8>::empty();
    match request.operation {
        IoOperation::Open { path, create_new } => {
            &&& after == before
            &&& if !canonical(path@) {
                r.fails(id, route, bad_path(), None)
            } else if before.full() {
                r.fails(id, route, Error::CapacityExceeded, None)
            } else {
                r.asks(id, route, FileCall::Open { create_new }, path@, none, None)
            }
        },
        IoOperation::TryLock { path, mode } => {
            &&& after == before
            &&& if !canonical(path@) {
                r.fails(id, route, bad_path(), None)
            } else {
                r.asks(id, route, FileCall::Inspect { mode }, path@, none, None)
            }
        },
        IoOperation::ReadDirectory { path, max_entries, max_name_bytes } => {
            &&& after == before
            &&& if path@.len() > 0 && !canonical(path@) {
                r.fails(id, route, bad_path(), None)
            } else {
                &&& r.asks(id, route, FileCall::List, path@, none, None)
                &&& r->Ask_0.listed->0@ == Seq::<DirectoryEntry>::empty()
                &&& r->Ask_0.listed->0.entry_budget() == max_entries
                &&& r->Ask_0.listed->0.name_budget() == max_name_bytes
            }
        },
        IoOperation::Read { file, offset, buffer } => {
            &&& after == before
            &&& if offset + buffer@.len() > u64::MAX {
                r.fails(id, route, Error::CapacityExceeded, Some(buffer))
            } else if before.no_data(file) is Some {
                r.fails(id, route, before.no_data(file)->0, Some(buffer))
            } else {
                r.asks(
                    id,
                    route,
                    FileCall::Read { slot: file.slot, offset },
                    none,
                    none,
                    Some(buffer),
                )
            }
        },
        IoOperation::Write { file, offset, buffer } => {
            &&& after == before
            &&& if offset + buffer@.len() > u64::MAX {
                r.fails(id, route, Error::CapacityExceeded, Some(buffer))
            } else if before.no_data(file) is Some {
                r.fails(id, route, before.no_data(file)->0, Some(buffer))
            } else {
                r.asks(
                    id,
                    route,
                    FileCall::Write { slot: file.slot, offset },
                    none,
                    none,
                    Some(buffer),
                )
            }
        },
        IoOperation::SetLen { file, length } => {
            &&& after == before
            &&& if before.no_data(file) is Some {
                r.fails(id, route, before.no_data(file)->0, None)
            } else {
                r.asks(id, route, FileCall::SetLen { slot: file.slot, length }, none, none, None)
            }
        },
        IoOperation::SyncFile { file, metadata } => {
            &&& after == before
            &&& if before.no_data(file) is Some {
                r.fails(id, route, before.no_data(file)->0, None)
            } else {
                r.asks(id, route, FileCall::Sync { slot: file.slot, metadata }, none, none, None)
            }
        },
        IoOperation::Close(file) => if !before.opened(file) {
            after == before && r.fails(id, route, Error::RangeTruncated, None)
        } else if before.open[file.slot] == HandleKind::Data {
            after == before.dropped(file.slot) && r.ends(id, route, Ok(IoOutcome::Done), None)
        } else {
            after == before && r.asks(
                id,
                route,
                FileCall::Unlock { slot: file.slot },
                none,
                none,
                None,
            )
        },
        IoOperation::CreateDirectory(path) => {
            &&& after == before
            &&& if !canonical(path@) {
                r.fails(id, route, bad_path(), None)
            } else {
                r.asks(id, route, FileCall::CreateDirectories, path@, none, None)
            }
        },
        IoOperation::SyncDirectory(path) => {
            &&& after == before
            &&& if path@.len() > 0 && !canonical(path@) {
                r.fails(id, route, bad_path(), None)
            } else {
                r.asks(id, route, FileCall::OpenDirectory, path@, none, None)
            }
        },
        IoOperation::Rename { source, destination } => {
            &&& after == before
            &&& if !canonical(source@) || !canonical(destination@) {
                r.fails(id, route, bad_path(), None)
            } else {
                r.asks(id, route, FileCall::Rename, source@, destination@, None)
            }
        },
        IoOperation::RemoveFile(path) => {
            &&& after == before
            &&& if !canonical(path@) {
                r.fails(id, route, bad_path(), None)
            } else {
                r.asks(id, route, FileCall::RemoveFile, path@, none, None)
            }
        },
        IoOperation::Cancel(_) => {
            &&& after == before
            &&& r.fails(
                id,
                route,
                Error::InvalidState("Cancellation should be handled by the request queue"),
                None,
            )
        },
    }
}

/// What a request does when its call is answered.
pub open spec fn continues(
    memory: Memory,
    task: FileTask,
    before: Handles,
    reply: FileReply,
    after: Handles,
    r: Progress,
) -> bool {
    let id = task.id;
    let route = task.route;
    let next = |call: FileCall|
        r.asks(id, route, call, task.path@, task.destination@, task.buffer);
    let fails = |error: Error| r.fails(id, route, error, task.buffer);
    match (task.call, reply) {
        (FileCall::Open { .. }, FileReply::Done(Ok(_))) => {
            &&& after == before.kept(HandleKind::Data)
            &&& r.ends(
                id,
                route,
                Ok(
                    IoOutcome::Opened(FileId { slot: before.next, generation: Generation(0) }),
                ),
                task.buffer,
            )
        },
        (FileCall::Inspect { mode }, FileReply::Is(found)) => {
            &&& after == before
            &&& match found {
                Ok(false) => fails(Error::InvalidFormat("The lock path is not an ordinary file")),
                Err(kind) if kind != IoErrorKind::NotFound => fails(Error::Io(kind)),
                _ => if before.full() {
                    fails(Error::CapacityExceeded)
                } else {
                    next(FileCall::OpenLock { mode })
                },
            }
        },
        (FileCall::OpenLock { mode }, FileReply::Done(Ok(_))) => {
            &&& after == before
            &&& next(FileCall::InspectLock { mode })
        },
        (FileCall::InspectLock { mode }, FileReply::Is(found)) => {
            &&& after == before
            &&& match found {
                Ok(true) => next(FileCall::Lock { mode }),
                Ok(false) => fails(Error::InvalidFormat("the lock target is not a regular file")),
                Err(kind) => fails(Error::Io(kind)),
            }
        },
        (FileCall::Lock { .. }, FileReply::Locked(locked)) => match locked {
            Ok(_) => {
                &&& after == before.kept(HandleKind::Lock)
                &&& r.ends(
                    id,
                    route,
                    Ok(
                        IoOutcome::Locked(FileId { slot: before.next, generation: Generation(0) }),
                    ),
                    task.buffer,
                )
            },
            Err(LockRefusal::WouldBlock) => after == before && fails(Error::Busy),
            Err(LockRefusal::Io(kind)) => after == before && fails(Error::Io(kind)),
        },
        (FileCall::List, FileReply::Done(Ok(_))) => {
            &&& after == before
            &&& next(FileCall::NextEntry)
            &&& r->Ask_0.listed == task.listed
        },
        (FileCall::NextEntry, FileReply::Entry(None)) => {
            &&& after == before
            &&& r matches Progress::Done(done)
            &&& done.id == id
            &&& done.route == route
            &&& done.buffer == task.buffer
            &&& done.result matches Ok(IoOutcome::Directory(entries))
            &&& sorted(entries@)
            &&& entries@.to_multiset() == task.listed->0@.to_multiset()
        },
        (FileCall::NextEntry, FileReply::Entry(Some(Err(kind)))) => {
            after == before && fails(Error::Io(kind))
        },
        (FileCall::NextEntry, FileReply::Entry(Some(Ok(found)))) => {
            &&& after == before
            &&& match found.entry_type {
                Err(kind) => fails(Error::Io(kind)),
                Ok(entry_type) => {
                    let entry = DirectoryEntry { name: found.name, kind: entry_type.model() };
                    if !task.listed->0.fits(entry) {
                        fails(Error::CapacityExceeded)
                    } else {
                        ||| !(memory is Granted) && fails(Error::OutOfMemory)
                        ||| {
                            &&& !(memory is Refused)
                            &&& next(FileCall::NextEntry)
                            &&& r->Ask_0.listed->0@ == task.listed->0@.push(entry)
                            &&& r->Ask_0.listed->0.entry_budget() == task.listed->0.entry_budget()
                            &&& r->Ask_0.listed->0.name_budget() == task.listed->0.name_budget()
                        }
                    }
                },
            }
        },
        (FileCall::Read { .. }, FileReply::Moved(moved)) => {
            &&& after == before
            &&& match moved {
                Ok(n) => r.ends(id, route, Ok(IoOutcome::Transferred(n)), task.buffer),
                Err(IoErrorKind::Interrupted) => next(task.call),
                Err(kind) => fails(Error::Io(kind)),
            }
        },
        (FileCall::Write { .. }, FileReply::Moved(moved)) => {
            &&& after == before
            &&& match moved {
                Ok(n) => r.ends(id, route, Ok(IoOutcome::Transferred(n)), task.buffer),
                Err(IoErrorKind::Interrupted) => next(task.call),
                Err(kind) => fails(Error::Io(kind)),
            }
        },
        (FileCall::Unlock { slot }, FileReply::Done(Ok(_))) => {
            &&& after == before.dropped(slot)
            &&& r.ends(id, route, Ok(IoOutcome::Done), task.buffer)
        },
        (FileCall::OpenDirectory, FileReply::Done(Ok(_))) => {
            after == before && next(FileCall::InspectDirectory)
        },
        (FileCall::InspectDirectory, FileReply::Is(found)) => {
            &&& after == before
            &&& match found {
                Ok(true) => next(FileCall::SyncDirectory),
                Ok(false) => fails(
                    Error::InvalidFormat("The synchronization target is not a directory"),
                ),
                Err(kind) => fails(Error::Io(kind)),
            }
        },
        (_, FileReply::Done(Err(kind))) => after == before && fails(Error::Io(kind)),
        (_, FileReply::Done(Ok(_))) => after == before && r.ends(
            id,
            route,
            Ok(IoOutcome::Done),
            task.buffer,
        ),
        _ => false,
    }
}

/// No number is given twice: the next number only grows, and a handle appears only under the
/// number that was next.
pub proof fn law_numbers_grow(
    memory: Memory,
    task: FileTask,
    before: Handles,
    reply: FileReply,
    after: Handles,
    r: Progress,
    slot: u64,
)
    requires
        continues(memory, task, before, reply, after, r),
        task.has_place(before),
        reply.answers(task.call),
    ensures
        before.next <= after.next,
        after.open.dom().contains(slot) && !before.open.dom().contains(slot) ==> slot == before.next
            && after.next == before.next + 1,
{
}

/// Data is never read, written, resized or synchronised through a lock, nor through a handle that
/// is not open.
pub proof fn law_locks_carry_no_data(
    before: Handles,
    after: Handles,
    id: IoId,
    request: IoRequest,
    r: Progress,
)
    requires
        begins(before, after, id, request, r),
        r is Ask,
    ensures
        match r->Ask_0.call {
            FileCall::Read { slot, .. } => before.open.dom().contains(slot) && before.open[slot]
                == HandleKind::Data,
            FileCall::Write { slot, .. } => before.open.dom().contains(slot) && before.open[slot]
                == HandleKind::Data,
            FileCall::SetLen { slot, .. } => before.open.dom().contains(slot) && before.open[slot]
                == HandleKind::Data,
            FileCall::Sync { slot, .. } => before.open.dom().contains(slot) && before.open[slot]
                == HandleKind::Data,
            _ => true,
        },
{
}

/// The operations on a handle that need data.
pub open spec fn data_of(operation: IoOperation) -> Option<FileId> {
    match operation {
        IoOperation::Read { file, .. } => Some(file),
        IoOperation::Write { file, .. } => Some(file),
        IoOperation::SetLen { file, .. } => Some(file),
        IoOperation::SyncFile { file, .. } => Some(file),
        _ => None,
    }
}

/// Whether the operation ends within the numbers of a file.
pub open spec fn in_range(operation: IoOperation) -> bool {
    match operation {
        IoOperation::Read { offset, buffer, .. } => offset + buffer@.len() <= u64::MAX,
        IoOperation::Write { offset, buffer, .. } => offset + buffer@.len() <= u64::MAX,
        _ => true,
    }
}

/// What a handle that was given as a lock answers, from the first call of a request on: as long as it
/// is held, every operation that needs data fails as one on a lock, hands its buffer back and changes
/// no handle, and a close asks for the lock to be given back; once it is closed, every such operation
/// and every close fails as one on a handle that is not there. No request that starts makes a lock
/// end or a closed handle open.
pub proof fn law_lock_handle(
    before: Handles,
    after: Handles,
    id: IoId,
    request: IoRequest,
    r: Progress,
    file: FileId,
)
    requires
        begins(before, after, id, request, r),
    ensures
        before.locked(file) ==> after.locked(file),
        before.gone(file) ==> after.gone(file),
        before.numbered() ==> after.numbered(),
        data_of(request.operation) == Some(file) && in_range(request.operation) && before.locked(
            file,
        ) ==> after == before && r.fails(
            id,
            request.route,
            Error::InvalidState("a lock handle cannot be used for data I/O"),
            request.operation.owned(),
        ),
        data_of(request.operation) == Some(file) && in_range(request.operation) && before.gone(
            file,
        ) ==> after == before && r.fails(
            id,
            request.route,
            Error::RangeTruncated,
            request.operation.owned(),
        ),
        request.operation == IoOperation::Close(file) && before.locked(file) ==> {
            &&& r matches Progress::Ask(task)
            &&& task.call == (FileCall::Unlock { slot: file.slot })
        },
        request.operation == IoOperation::Close(file) && before.gone(file) ==> after == before
            && r.fails(id, request.route, Error::RangeTruncated, None),
{
}

/// What becomes of a lock when the calls of a request are answered: the handle that a request gives as
/// locked is a lock that is held; a lock ends only where it is given back and the system does not
/// refuse that, and then the request is done and the handle is closed; and a handle that is closed
/// stays so, for no number is given twice.
pub proof fn law_lock_ends_when_given_back(
    memory: Memory,
    task: FileTask,
    before: Handles,
    reply: FileReply,
    after: Handles,
    r: Progress,
    file: FileId,
)
    requires
        continues(memory, task, before, reply, after, r),
        task.has_place(before),
        before.numbered(),
        reply.answers(task.call),
    ensures
        after.numbered(),
        r matches Progress::Done(done) ==> (done.result matches Ok(IoOutcome::Locked(given))
            ==> after.locked(given) && !before.opened(given)),
        before.gone(file) ==> after.gone(file),
        before.locked(file) ==> after.locked(file) || {
            &&& task.call == (FileCall::Unlock { slot: file.slot })
            &&& reply matches FileReply::Done(Ok(_))
            &&& after.gone(file)
            &&& r.ends(task.id, task.route, Ok(IoOutcome::Done), task.buffer)
        },
        task.call == (FileCall::Unlock { slot: file.slot }) && before.locked(file) && (
        reply matches FileReply::Done(Err(_))) ==> after == before,
{
}

fn valid(path: &[u8]) -> (r: Result<(), Error>)
    ensures
        r == (if canonical(path@) {
            Ok::<(), Error>(())
        } else {
            Err::<(), Error>(bad_path())
        }),
{
    match DevicePath::parse(path) {
        Some(_) => Ok(()),
        None => Err(Error::InvalidFormat("File paths must be relative to the device root directory")),
    }
}

impl FileTask {
    fn done(self, result: Result<IoOutcome, Error>) -> (r: Progress)
        ensures
            r.ends(self.id, self.route, result, self.buffer),
    {
        Progress::Done(
            IoCompletion { id: self.id, route: self.route, result, buffer: self.buffer },
        )
    }

    /// Asks for `call` on the same paths.
    fn ask(self, call: FileCall) -> (r: Progress)
        requires
            self.wf(),
            !(call is List),
            call is NextEntry <==> self.listed is Some,
        ensures
            r.asks(self.id, self.route, call, self.path@, self.destination@, self.buffer),
            r->Ask_0.listed == self.listed,
    {
        let mut task = self;
        task.call = call;
        Progress::Ask(task)
    }

    /// Starts a request: it ends at once, or asks for its first call.
    pub fn start(table: &mut HandleTable, id: IoId, request: IoRequest) -> (r: Progress)
        requires
            old(table).wf(),
            request.wf(),
        ensures
            final(table).wf(),
            begins(old(table)@, final(table)@, id, request, r),
    {
        let IoRequest { route, operation } = request;
        match operation {
            IoOperation::Open { path, create_new } => match valid(path.as_slice()) {
                Err(error) => finished(id, route, Err(error), None),
                Ok(()) => if table.is_full() {
                    finished(id, route, Err(Error::CapacityExceeded), None)
                } else {
                    asked(id, route, FileCall::Open { create_new }, path, Vec::new(), None)
                },
            },
            IoOperation::TryLock { path, mode } => match valid(path.as_slice()) {
                Err(error) => finished(id, route, Err(error), None),
                Ok(()) => asked(id, route, FileCall::Inspect { mode }, path, Vec::new(), None),
            },
            IoOperation::ReadDirectory { path, max_entries, max_name_bytes } => {
                if path.len() > 0 {
                    if let Err(error) = valid(path.as_slice()) {
                        return finished(id, route, Err(error), None);
                    }
                }
                let destination: Vec<u8> = Vec::new();
                assert(destination@ =~= Seq::<u8>::empty());
                Progress::Ask(
                    FileTask {
                        id,
                        route,
                        call: FileCall::List,
                        path,
                        destination,
                        buffer: None,
                        listed: Some(DirectorySnapshot::new(max_entries, max_name_bytes)),
                    },
                )
            },
            IoOperation::Read { file, offset, buffer } => {
                if offset.checked_add(buffer.len() as u64).is_none() {
                    return finished(id, route, Err(Error::CapacityExceeded), Some(buffer));
                }
                match table.data(file) {
                    Err(error) => finished(id, route, Err(error), Some(buffer)),
                    Ok(()) => asked(
                        id,
                        route,
                        FileCall::Read { slot: file.slot, offset },
                        Vec::new(),
                        Vec::new(),
                        Some(buffer),
                    ),
                }
            },
            IoOperation::Write { file, offset, buffer } => {
                if offset.checked_add(buffer.len() as u64).is_none() {
                    return finished(id, route, Err(Error::CapacityExceeded), Some(buffer));
                }
                match table.data(file) {
                    Err(error) => finished(id, route, Err(error), Some(buffer)),
                    Ok(()) => asked(
                        id,
                        route,
                        FileCall::Write { slot: file.slot, offset },
                        Vec::new(),
                        Vec::new(),
                        Some(buffer),
                    ),
                }
            },
            IoOperation::SetLen { file, length } => match table.data(file) {
                Err(error) => finished(id, route, Err(error), None),
                Ok(()) => asked(
                    id,
                    route,
                    FileCall::SetLen { slot: file.slot, length },
                    Vec::new(),
                    Vec::new(),
                    None,
                ),
            },
            IoOperation::SyncFile { file, metadata } => match table.data(file) {
                Err(error) => finished(id, route, Err(error), None),
                Ok(()) => asked(
                    id,
                    route,
                    FileCall::Sync { slot: file.slot, metadata },
                    Vec::new(),
                    Vec::new(),
                    None,
                ),
            },
            IoOperation::Close(file) => match table.kind_of(file) {
                None => finished(id, route, Err(Error::RangeTruncated), None),
                Some(HandleKind::Data) => {
                    table.discard(file.slot);
                    finished(id, route, Ok(IoOutcome::Done), None)
                },
                Some(HandleKind::Lock) => asked(
                    id,
                    route,
                    FileCall::Unlock { slot: file.slot },
                    Vec::new(),
                    Vec::new(),
                    None,
                ),
            },
            IoOperation::CreateDirectory(path) => match valid(path.as_slice()) {
                Err(error) => finished(id, route, Err(error), None),
                Ok(()) => asked(id, route, FileCall::CreateDirectories, path, Vec::new(), None),
            },
            IoOperation::SyncDirectory(path) => {
                if path.len() > 0 {
                    if let Err(error) = valid(path.as_slice()) {
                        return finished(id, route, Err(error), None);
                    }
                }
                asked(id, route, FileCall::OpenDirectory, path, Vec::new(), None)
            },
            IoOperation::Rename { source, destination } => {
                if let Err(error) = valid(source.as_slice()) {
                    return finished(id, route, Err(error), None);
                }
                if let Err(error) = valid(destination.as_slice()) {
                    return finished(id, route, Err(error), None);
                }
                asked(id, route, FileCall::Rename, source, destination, None)
            },
            IoOperation::RemoveFile(path) => match valid(path.as_slice()) {
                Err(error) => finished(id, route, Err(error), None),
                Ok(()) => asked(id, route, FileCall::RemoveFile, path, Vec::new(), None),
            },
            IoOperation::Cancel(_) => finished(
                id,
                route,
                Err(Error::InvalidState("Cancellation should be handled by the request queue")),
                None,
            ),
        }
    }

    /// Takes the reply to the call that the task waits for.
    pub fn resume(self, table: &mut HandleTable, reply: FileReply, memory: Memory) -> (r: Progress)
        requires
            self.wf(),
            old(table).wf(),
            reply.answers(self.call),
            self.has_place(old(table)@),
        ensures
            final(table).wf(),
            continues(memory, self, old(table)@, reply, final(table)@, r),
    {
        match (self.call, reply) {
            (FileCall::Open { .. }, FileReply::Done(Ok(()))) => {
                let file = table.keep(HandleKind::Data);
                self.done(Ok(IoOutcome::Opened(file)))
            },
            (FileCall::Inspect { mode }, FileReply::Is(found)) => match found {
                Ok(false) => self.done(
                    Err(Error::InvalidFormat("The lock path is not an ordinary file")),
                ),
                Err(kind) if kind != IoErrorKind::NotFound => self.done(Err(Error::Io(kind))),
                _ => if table.is_full() {
                    self.done(Err(Error::CapacityExceeded))
                } else {
                    self.ask(FileCall::OpenLock { mode })
                },
            },
            (FileCall::OpenLock { mode }, FileReply::Done(Ok(()))) => self.ask(
                FileCall::InspectLock { mode },
            ),
            (FileCall::InspectLock { mode }, FileReply::Is(found)) => match found {
                Ok(true) => self.ask(FileCall::Lock { mode }),
                Ok(false) => self.done(
                    Err(Error::InvalidFormat("the lock target is not a regular file")),
                ),
                Err(kind) => self.done(Err(Error::Io(kind))),
            },
            (FileCall::Lock { .. }, FileReply::Locked(locked)) => match locked {
                Ok(()) => {
                    let file = table.keep(HandleKind::Lock);
                    self.done(Ok(IoOutcome::Locked(file)))
                },
                Err(LockRefusal::WouldBlock) => self.done(Err(Error::Busy)),
                Err(LockRefusal::Io(kind)) => self.done(Err(Error::Io(kind))),
            },
            (FileCall::List, FileReply::Done(Ok(()))) => self.ask(FileCall::NextEntry),
            (FileCall::NextEntry, FileReply::Entry(entry)) => self.listed_entry(entry, memory),
            (FileCall::Read { .. }, FileReply::Moved(moved)) => self.moved(moved),
            (FileCall::Write { .. }, FileReply::Moved(moved)) => self.moved(moved),
            (FileCall::Unlock { slot }, FileReply::Done(Ok(()))) => {
                table.discard(slot);
                self.done(Ok(IoOutcome::Done))
            },
            (FileCall::OpenDirectory, FileReply::Done(Ok(()))) => self.ask(
                FileCall::InspectDirectory,
            ),
            (FileCall::InspectDirectory, FileReply::Is(found)) => match found {
                Ok(true) => self.ask(FileCall::SyncDirectory),
                Ok(false) => self.done(
                    Err(Error::InvalidFormat("The synchronization target is not a directory")),
                ),
                Err(kind) => self.done(Err(Error::Io(kind))),
            },
            (_, FileReply::Done(Err(kind))) => self.done(Err(Error::Io(kind))),
            _ => self.done(Ok(IoOutcome::Done)),
        }
    }

    /// Takes the reply to a read or a write. An interrupted one is made again.
    fn moved(self, moved: Result<usize, IoErrorKind>) -> (r: Progress)
        requires
            self.wf(),
            self.call is Read || self.call is Write,
        ensures
            match moved {
                Ok(n) => r.ends(self.id, self.route, Ok(IoOutcome::Transferred(n)), self.buffer),
                Err(IoErrorKind::Interrupted) => r.asks(
                    self.id,
                    self.route,
                    self.call,
                    self.path@,
                    self.destination@,
                    self.buffer,
                ),
                Err(kind) => r.fails(self.id, self.route, Error::Io(kind), self.buffer),
            },
    {
        match moved {
            Ok(n) => self.done(Ok(IoOutcome::Transferred(n))),
            Err(IoErrorKind::Interrupted) => Progress::Ask(self),
            Err(kind) => self.done(Err(Error::Io(kind))),
        }
    }

    /// Takes the next entry of a listing, or its end.
    fn listed_entry(
        self,
        entry: Option<Result<FoundEntry, IoErrorKind>>,
        memory: Memory,
    ) -> (r: Progress)
        requires
            self.wf(),
            self.call is NextEntry,
        ensures
            forall|handles: Handles| #[trigger]
                continues(memory, self, handles, FileReply::Entry(entry), handles, r),
    {
        let FileTask { id, route, call, path, destination, buffer, listed } = self;
        let mut snapshot = match listed {
            Some(snapshot) => snapshot,
            None => {
                return finished(id, route, Ok(IoOutcome::Done), buffer);
            },
        };
        match entry {
            None => finished(id, route, Ok(snapshot.finish()), buffer),
            Some(Err(kind)) => finished(id, route, Err(Error::Io(kind)), buffer),
            Some(Ok(found)) => match found.entry_type {
                Err(kind) => finished(id, route, Err(Error::Io(kind)), buffer),
                Ok(entry_type) => {
                    let entry = DirectoryEntry { name: found.name, kind: entry_type.kind() };
                    match snapshot.push_from(entry, memory) {
                        Err(error) => finished(id, route, Err(error), buffer),
                        Ok(()) => Progress::Ask(
                            FileTask {
                                id,
                                route,
                                call,
                                path,
                                destination,
                                buffer,
                                listed: Some(snapshot),
                            },
                        ),
                    }
                },
            },
        }
    }
}

fn finished(
    id: IoId,
    route: CompletionRoute,
    result: Result<IoOutcome, Error>,
    buffer: Option<AlignedBuffer>,
) -> (r: Progress)
    ensures
        r.ends(id, route, result, buffer),
{
    Progress::Done(IoCompletion { id, route, result, buffer })
}

fn asked(
    id: IoId,
    route: CompletionRoute,
    call: FileCall,
    path: Vec<u8>,
    destination: Vec<u8>,
    buffer: Option<AlignedBuffer>,
) -> (r: Progress)
    requires
        buffer matches Some(buffer) ==> buffer.wf(),
        !(call is List),
        !(call is NextEntry),
    ensures
        r.asks(id, route, call, path@, destination@, buffer),
{
    Progress::Ask(FileTask { id, route, call, path, destination, buffer, listed: None })
}

/// A request for a path goes to the files exactly where each of its paths stays below the root; only the
/// root itself, as the empty path, may also be listed and synchronised. The call is that of the request,
/// on its own paths, and no handle changes.
pub proof fn law_paths_are_checked(
    before: Handles,
    after: Handles,
    id: IoId,
    request: IoRequest,
    r: Progress,
)
    requires
        begins(before, after, id, request, r),
    ensures
        request.operation matches IoOperation::Open { path, create_new } ==> {
            &&& after == before
            &&& r is Ask <==> canonical(path@) && !before.full()
            &&& r is Ask ==> r->Ask_0.call == (FileCall::Open { create_new }) && r->Ask_0.path@ == path@
            &&& canonical(path@) && before.full() ==> r->Done_0.result == Err::<IoOutcome, Error>(
                Error::CapacityExceeded,
            )
        },
        request.operation matches IoOperation::TryLock { path, mode } ==> {
            &&& after == before
            &&& r is Ask <==> canonical(path@)
            &&& r is Ask ==> r->Ask_0.call == (FileCall::Inspect { mode }) && r->Ask_0.path@ == path@
        },
        request.operation matches IoOperation::ReadDirectory { path, max_entries, max_name_bytes } ==> {
            &&& after == before
            &&& r is Ask <==> path@.len() == 0 || canonical(path@)
            &&& r is Ask ==> r->Ask_0.call is List && r->Ask_0.path@ == path@
                && r->Ask_0.listed->0@.len() == 0 && r->Ask_0.listed->0.entry_budget() == max_entries
                && r->Ask_0.listed->0.name_budget() == max_name_bytes
        },
        request.operation matches IoOperation::CreateDirectory(path) ==> {
            &&& after == before
            &&& r is Ask <==> canonical(path@)
            &&& r is Ask ==> r->Ask_0.call is CreateDirectories && r->Ask_0.path@ == path@
        },
        request.operation matches IoOperation::SyncDirectory(path) ==> {
            &&& after == before
            &&& r is Ask <==> path@.len() == 0 || canonical(path@)
            &&& r is Ask ==> r->Ask_0.call is OpenDirectory && r->Ask_0.path@ == path@
        },
        request.operation matches IoOperation::RemoveFile(path) ==> {
            &&& after == before
            &&& r is Ask <==> canonical(path@)
            &&& r is Ask ==> r->Ask_0.call is RemoveFile && r->Ask_0.path@ == path@
        },
        request.operation matches IoOperation::Rename { source, destination } ==> {
            &&& after == before
            &&& r is Ask <==> canonical(source@) && canonical(destination@)
            &&& r is Ask ==> r->Ask_0.call is Rename && r->Ask_0.path@ == source@
                && r->Ask_0.destination@ == destination@
        },
{
}

/// A request on a handle goes to the files exactly where the handle is open for data and the place fits
/// into a number; otherwise it fails, with its buffer. What it asks for is what was asked.
pub proof fn law_handles_are_checked(
    before: Handles,
    after: Handles,
    id: IoId,
    request: IoRequest,
    r: Progress,
)
    requires
        begins(before, after, id, request, r),
    ensures
        request.operation matches IoOperation::Read { file, offset, buffer } ==> {
            let usable = file.generation == Generation(0) && before.open.dom().contains(file.slot)
                && before.open[file.slot] == HandleKind::Data;
            &&& r is Ask <==> usable && offset + buffer@.len() <= u64::MAX
            &&& r is Ask ==> r->Ask_0.call == (FileCall::Read { slot: file.slot, offset })
                && r->Ask_0.buffer == Some(buffer)
            &&& r is Done ==> r->Done_0.buffer == Some(buffer) && r->Done_0.result is Err
            &&& offset + buffer@.len() > u64::MAX ==> r->Done_0.result == Err::<IoOutcome, Error>(
                Error::CapacityExceeded,
            )
        },
        request.operation matches IoOperation::Write { file, offset, buffer } ==> {
            let usable = file.generation == Generation(0) && before.open.dom().contains(file.slot)
                && before.open[file.slot] == HandleKind::Data;
            &&& r is Ask <==> usable && offset + buffer@.len() <= u64::MAX
            &&& r is Ask ==> r->Ask_0.call == (FileCall::Write { slot: file.slot, offset })
                && r->Ask_0.buffer == Some(buffer)
            &&& r is Done ==> r->Done_0.buffer == Some(buffer) && r->Done_0.result is Err
            &&& offset + buffer@.len() > u64::MAX ==> r->Done_0.result == Err::<IoOutcome, Error>(
                Error::CapacityExceeded,
            )
        },
        request.operation matches IoOperation::SetLen { file, length } ==> {
            &&& r is Ask <==> file.generation == Generation(0) && before.open.dom().contains(file.slot)
                && before.open[file.slot] == HandleKind::Data
            &&& r is Ask ==> r->Ask_0.call == (FileCall::SetLen { slot: file.slot, length })
        },
        request.operation matches IoOperation::SyncFile { file, metadata } ==> {
            &&& r is Ask <==> file.generation == Generation(0) && before.open.dom().contains(file.slot)
                && before.open[file.slot] == HandleKind::Data
            &&& r is Ask ==> r->Ask_0.call == (FileCall::Sync { slot: file.slot, metadata })
        },
        request.operation matches IoOperation::Close(file) ==> {
            let open = file.generation == Generation(0) && before.open.dom().contains(file.slot);
            &&& open && before.open[file.slot] == HandleKind::Data ==> after.open
                == before.open.remove(file.slot) && r is Done && r->Done_0.result == Ok::<
                IoOutcome,
                Error,
            >(IoOutcome::Done)
            &&& !(open && before.open[file.slot] == HandleKind::Data) ==> after == before
        },
        !(request.operation is Close) ==> after == before,
        request.operation is Cancel ==> r is Done && r->Done_0.result == Err::<IoOutcome, Error>(
            Error::InvalidState("Cancellation should be handled by the request queue"),
        ),
        r is Ask ==> r->Ask_0.id == id && r->Ask_0.route == request.route,
        r is Done ==> r->Done_0.id == id && r->Done_0.route == request.route,
{
}

/// A handle is open from the success of its opening or locking on, under the number that was next and as
/// what it was opened for. No other reply opens one, and only an unlocking that succeeded closes one.
pub proof fn law_opened_by_success(
    memory: Memory,
    task: FileTask,
    before: Handles,
    reply: FileReply,
    after: Handles,
    r: Progress,
)
    requires
        continues(memory, task, before, reply, after, r),
        reply.answers(task.call),
        task.has_place(before),
    ensures
        task.call is Open && (reply matches FileReply::Done(Ok(_))) ==> {
            &&& after.open == before.open.insert(before.next, HandleKind::Data)
            &&& after.next == before.next + 1
            &&& r.ends(
                task.id,
                task.route,
                Ok(IoOutcome::Opened(FileId { slot: before.next, generation: Generation(0) })),
                task.buffer,
            )
        },
        task.call is Lock && (reply matches FileReply::Locked(Ok(_))) ==> {
            &&& after.open == before.open.insert(before.next, HandleKind::Lock)
            &&& after.next == before.next + 1
            &&& r.ends(
                task.id,
                task.route,
                Ok(IoOutcome::Locked(FileId { slot: before.next, generation: Generation(0) })),
                task.buffer,
            )
        },
        task.call is Lock && (reply matches FileReply::Locked(Err(LockRefusal::WouldBlock))) ==> after
            == before && r.fails(task.id, task.route, Error::Busy, task.buffer),
        task.call is Unlock && (reply matches FileReply::Done(Ok(_))) ==> after.open
            == before.open.remove(task.call->Unlock_slot) && r.ends(
            task.id,
            task.route,
            Ok(IoOutcome::Done),
            task.buffer,
        ),
        !(task.call is Open || task.call is Lock || task.call is Unlock) ==> after == before,
        after.limit == before.limit,
{
}

/// A lock is looked at before it is opened, again before it is locked, and is refused where it is no
/// ordinary file; one that is not there yet is made. A directory is looked at before it is
/// synchronised.
pub proof fn law_looked_at_first(
    memory: Memory,
    task: FileTask,
    before: Handles,
    reply: FileReply,
    after: Handles,
    r: Progress,
)
    requires
        continues(memory, task, before, reply, after, r),
        reply.answers(task.call),
    ensures
        task.call matches FileCall::Inspect { mode } ==> {
            let found = reply->Is_0;
            let there = found == Ok::<bool, IoErrorKind>(true) || found == Err::<bool, IoErrorKind>(
                IoErrorKind::NotFound,
            );
            &&& r is Ask <==> there && !before.full()
            &&& r is Ask ==> r->Ask_0.call == (FileCall::OpenLock { mode })
            &&& there && before.full() ==> r.fails(
                task.id,
                task.route,
                Error::CapacityExceeded,
                task.buffer,
            )
            &&& found == Ok::<bool, IoErrorKind>(false) ==> r.fails(
                task.id,
                task.route,
                Error::InvalidFormat("The lock path is not an ordinary file"),
                task.buffer,
            )
        },
        (task.call is OpenLock && (reply matches FileReply::Done(Ok(_)))) ==> r is Ask
            && r->Ask_0.call == (FileCall::InspectLock { mode: task.call->OpenLock_mode }),
        task.call matches FileCall::InspectLock { mode } ==> {
            let found = reply->Is_0;
            &&& r is Ask <==> found == Ok::<bool, IoErrorKind>(true)
            &&& r is Ask ==> r->Ask_0.call == (FileCall::Lock { mode })
            &&& found matches Err(kind) ==> r.fails(task.id, task.route, Error::Io(kind), task.buffer)
        },
        (task.call is OpenDirectory && (reply matches FileReply::Done(Ok(_)))) ==> r is Ask
            && r->Ask_0.call is InspectDirectory,
        task.call is InspectDirectory ==> {
            let found = reply->Is_0;
            &&& r is Ask <==> found == Ok::<bool, IoErrorKind>(true)
            &&& r is Ask ==> r->Ask_0.call is SyncDirectory
            &&& found == Ok::<bool, IoErrorKind>(false) ==> r.fails(
                task.id,
                task.route,
                Error::InvalidFormat("The synchronization target is not a directory"),
                task.buffer,
            )
        },
        r is Ask ==> r->Ask_0.path@ == task.path@ && r->Ask_0.id == task.id && r->Ask_0.route
            == task.route && r->Ask_0.buffer == task.buffer,
        r is Done ==> r->Done_0.id == task.id && r->Done_0.route == task.route && r->Done_0.buffer
            == task.buffer,
{
}

/// A transfer ends with how much was moved, and is made again where it was interrupted; a listing takes
/// up each entry that fits, with its kind, and ends with all of them. Every other failure is that of the
/// request, and everything else that was done is done.
pub proof fn law_replies_are_passed_on(
    memory: Memory,
    task: FileTask,
    before: Handles,
    reply: FileReply,
    after: Handles,
    r: Progress,
)
    requires
        continues(memory, task, before, reply, after, r),
        reply.answers(task.call),
    ensures
        task.call is Read || task.call is Write ==> {
            let moved = reply->Moved_0;
            &&& moved matches Ok(n) ==> r.ends(
                task.id,
                task.route,
                Ok(IoOutcome::Transferred(n)),
                task.buffer,
            )
            &&& moved == Err::<usize, IoErrorKind>(IoErrorKind::Interrupted) ==> r is Ask
                && r->Ask_0.call == task.call
            &&& moved is Err && moved->Err_0 != IoErrorKind::Interrupted ==> r.fails(
                task.id,
                task.route,
                Error::Io(moved->Err_0),
                task.buffer,
            )
        },
        (reply matches FileReply::Done(Err(_))) ==> after == before && r.fails(
            task.id,
            task.route,
            Error::Io(reply->Done_0->Err_0),
            task.buffer,
        ),
        (reply matches FileReply::Done(Ok(_))) && (task.call is SetLen || task.call is Sync || task.call
            is CreateDirectories || task.call is SyncDirectory || task.call is Rename || task.call
            is RemoveFile) ==> r.ends(task.id, task.route, Ok(IoOutcome::Done), task.buffer),
        (task.call is List && (reply matches FileReply::Done(Ok(_)))) ==> r is Ask && r->Ask_0.call
            is NextEntry && r->Ask_0.listed == task.listed,
        task.call is NextEntry ==> {
            let listed = task.listed->0;
            &&& reply->Entry_0 is None ==> r is Done && r->Done_0.result is Ok
                && r->Done_0.result->Ok_0->Directory_0@.to_multiset() == listed@.to_multiset()
            &&& reply->Entry_0 matches Some(Err(kind)) ==> r.fails(
                task.id,
                task.route,
                Error::Io(kind),
                task.buffer,
            )
            &&& r is Ask ==> {
                let found = reply->Entry_0->0->Ok_0;
                let entry = r->Ask_0.listed->0@.last();
                &&& reply->Entry_0 is Some
                &&& reply->Entry_0->0 is Ok
                &&& found.entry_type is Ok
                &&& r->Ask_0.call is NextEntry
                &&& r->Ask_0.listed->0@ == listed@.push(entry)
                &&& entry.name == found.name
                &&& entry.kind == found.entry_type->Ok_0.model()
                &&& listed.fits(entry)
            }
        },
{
}

/// What the file system says of an entry: a link is one, whatever it leads to, and what is none of the
/// three kinds is something else.
pub proof fn law_kinds(entry: EntryType)
    ensures
        entry.model() == DirectoryEntryKind::Symlink <==> entry.symlink,
        entry.model() == DirectoryEntryKind::File <==> entry.file && !entry.symlink,
        entry.model() == DirectoryEntryKind::Directory <==> entry.directory && !entry.symlink
            && !entry.file,
{
}

/// Handles are full exactly when as many are open as may be or all numbers are given.
pub proof fn law_full(handles: Handles)
    ensures
        handles.full() <==> handles.open.dom().len() >= handles.limit || handles.next == u64::MAX,
{
}

} // verus!
