//! The interface of a device: requests go in whole, and every accepted request comes back as
//! exactly one completion, with the buffer it owned.
pub mod buffer;
pub mod contents;
pub mod disk;
pub mod local_files;
pub mod memory;
pub mod metadata;
pub mod null;
pub mod path;
pub mod thread_pool;
pub mod uring;
pub mod windows;

pub use crate::device::buffer::AlignedBuffer;
use crate::types::{Deadline, Error, Generation, IoId, PollBudget};
use vstd::prelude::*;

verus! {

/// An open file, or a held lock.
#[derive(Clone, Copy, Debug, PartialEq, Eq, Structural)]
pub struct FileId {
    pub slot: u64,
    pub generation: Generation,
}

/// Where the completion of a request is to be delivered.
#[derive(Clone, Copy, Debug, PartialEq, Eq, Structural)]
pub struct CompletionRoute(pub u64);

#[derive(Clone, Debug)]
pub struct DeviceOpenOptions {
    /// The bytes of the path of the root directory.
    pub root: Vec<u8>,
    pub create_new: bool,
}

#[derive(Clone, Copy, Debug, PartialEq, Eq, Structural)]
pub struct DeviceCapabilities {
    /// Whether files can be read and written. This says nothing about durability.
    pub supports_files: bool,
    pub memory_alignment: usize,
    pub transfer_alignment: usize,
    pub supports_file_sync: bool,
    pub supports_directory_sync: bool,
    pub supports_atomic_publish: bool,
    /// Whether a directory can be listed within a budget of entries and of name bytes.
    pub supports_directory_listing: bool,
    /// Whether locks hold between independently opened handles, in other processes too.
    pub supports_file_locks: bool,
}

/// Opens a device that nothing else uses yet.
pub trait DeviceFactory: Sized {
    type Opened: Device;

    fn open(&self, options: DeviceOpenOptions) -> (r: Result<Self::Opened, Error>)
        ensures
            r matches Ok(device) ==> device.wf(),
    ;
}

pub trait Device: Sized {
    spec fn wf(&self) -> bool;

    /// How many accepted requests have not been polled.
    spec fn owed(&self) -> nat;

    /// Whether a poll may hand out `arrived`, end with `r` and leave the device as `after`.
    spec fn polls(
        self,
        budget: nat,
        arrived: Seq<IoCompletion>,
        r: Result<(), Error>,
        after: Self,
    ) -> bool;

    fn capabilities(&self) -> DeviceCapabilities
        requires
            self.wf(),
    ;

    /// A rejected request is handed back whole. An accepted request belongs to the device until
    /// its completion is polled.
    fn submit(&mut self, request: IoRequest) -> (r: Result<IoId, RejectedIo>)
        requires
            old(self).wf(),
            request.wf(),
        ensures
            final(self).wf(),
            r matches Err(rejected) ==> rejected.request == request,
            final(self).owed() == old(self).owed() + if r is Ok { 1nat } else { 0 },
    ;

    /// Appends at most `budget` completions to `output`.
    fn poll(&mut self, budget: PollBudget, output: &mut Vec<IoCompletion>) -> (r: Result<(), Error>)
        requires
            old(self).wf(),
        ensures
            final(self).wf(),
            old(output)@.is_prefix_of(final(output)@),
            final(output)@.len() <= old(output)@.len() + budget@,
            final(self).owed() + (final(output)@.len() - old(output)@.len()) == old(self).owed(),
            old(self).polls(
                budget@,
                final(output)@.skip(old(output)@.len() as int),
                r,
                *final(self),
            ),
    ;

    /// Takes no further requests, and finishes those it has before the deadline.
    fn shutdown(&mut self, deadline: Deadline) -> (r: Result<(), Error>)
        requires
            old(self).wf(),
        ensures
            final(self).wf(),
            final(self).owed() == old(self).owed(),
    ;
}

#[derive(Debug)]
pub struct IoRequest {
    pub route: CompletionRoute,
    pub operation: IoOperation,
}

impl IoRequest {
    pub open spec fn wf(self) -> bool {
        self.operation.wf()
    }
}

/// Paths are byte strings below the root of the device.
#[derive(Debug)]
pub enum IoOperation {
    Open { path: Vec<u8>, create_new: bool },
    Read { file: FileId, offset: u64, buffer: AlignedBuffer },
    Write { file: FileId, offset: u64, buffer: AlignedBuffer },
    SyncFile { file: FileId, metadata: bool },
    SetLen { file: FileId, length: u64 },
    CreateDirectory(Vec<u8>),
    SyncDirectory(Vec<u8>),
    Rename { source: Vec<u8>, destination: Vec<u8> },
    RemoveFile(Vec<u8>),
    /// The empty path is the root. A directory that exceeds either budget is not listed in part.
    ReadDirectory { path: Vec<u8>, max_entries: usize, max_name_bytes: usize },
    /// Opens or creates the file of a lock and tries once to lock it.
    TryLock { path: Vec<u8>, mode: FileLockMode },
    Close(FileId),
    Cancel(IoId),
}

impl IoOperation {
    /// The buffer that the operation owns.
    pub open spec fn owned(self) -> Option<AlignedBuffer> {
        match self {
            IoOperation::Read { buffer, .. } => Some(buffer),
            IoOperation::Write { buffer, .. } => Some(buffer),
            _ => None,
        }
    }

    pub open spec fn wf(self) -> bool {
        self.owned() matches Some(buffer) ==> buffer.wf()
    }

    /// The buffer that the operation owns.
    pub fn into_buffer(self) -> (r: Option<AlignedBuffer>)
        ensures
            r == self.owned(),
    {
        match self {
            IoOperation::Read { buffer, .. } => Some(buffer),
            IoOperation::Write { buffer, .. } => Some(buffer),
            _ => None,
        }
    }
}

/// A request that the device did not accept.
#[derive(Debug)]
pub struct RejectedIo {
    pub request: IoRequest,
    pub reason: Error,
}

#[derive(Debug)]
pub struct IoCompletion {
    pub id: IoId,
    pub route: CompletionRoute,
    pub result: Result<IoOutcome, Error>,
    /// The buffer of the request, also where the request failed.
    pub buffer: Option<AlignedBuffer>,
}

#[derive(Debug)]
pub enum IoOutcome {
    Opened(FileId),
    /// A lock can only be closed.
    Locked(FileId),
    Directory(Vec<DirectoryEntry>),
    Transferred(usize),
    Done,
}

#[derive(Clone, Copy, Debug, PartialEq, Eq, Structural)]
pub enum FileLockMode {
    Shared,
    Exclusive,
}

#[derive(Clone, Copy, Debug, PartialEq, Eq, Structural)]
pub enum DirectoryEntryKind {
    File,
    Directory,
    Symlink,
    Other,
}

#[derive(Clone, Debug, PartialEq, Eq)]
pub struct DirectoryEntry {
    /// The bytes of a single name, without the path above it. Links are not followed.
    pub name: Vec<u8>,
    pub kind: DirectoryEntryKind,
}

} // verus!
