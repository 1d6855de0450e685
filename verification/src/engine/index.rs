//! What the engine reads of the index: where the chain of a key starts, and whether an entry is
//! still what it was.
use crate::types::{Error, LogAddress};
use vstd::prelude::*;

verus! {

/// Where the chain of an entry starts.
#[derive(Clone, Copy, Debug, PartialEq, Eq, Structural)]
pub enum IndexHead {
    Empty,
    Log(LogAddress),
    /// A record in the read cache.
    Cache(u64),
}

/// An entry as it was found. Two snapshots are equal where nothing was published between them.
#[derive(Clone, Copy, Debug, PartialEq, Eq, Structural)]
pub struct EntrySnapshot {
    pub bucket: usize,
    pub place: usize,
    pub stamp: u64,
    pub present: bool,
    pub head: IndexHead,
}

/// An entry and the start of its chain in the log.
#[derive(Clone, Copy, Debug, PartialEq, Eq, Structural)]
pub struct Resolved {
    pub entry: EntrySnapshot,
    pub head: Option<LogAddress>,
}

/// What became of an attempt to replace an entry.
#[derive(Clone, Copy, Debug, PartialEq, Eq, Structural)]
pub enum PublishResult {
    Published,
    Conflict,
}

/// Where a chain starts in the log.
pub open spec fn log_head(entry: EntrySnapshot) -> Result<Option<LogAddress>, Error> {
    match entry.head {
        IndexHead::Empty => Ok(None),
        IndexHead::Log(address) => Ok(Some(address)),
        IndexHead::Cache(_) => Err(Error::InvalidState("The cache path is not connected yet")),
    }
}

pub fn head(entry: EntrySnapshot) -> (r: Result<Option<LogAddress>, Error>)
    ensures
        r == log_head(entry),
{
    match entry.head {
        IndexHead::Empty => Ok(None),
        IndexHead::Log(address) => Ok(Some(address)),
        IndexHead::Cache(_) => Err(Error::InvalidState("The cache path is not connected yet")),
    }
}

/// The head that keeps a chain as it is.
pub open spec fn kept_head(head: Option<LogAddress>) -> IndexHead {
    match head {
        Some(address) => IndexHead::Log(address),
        None => IndexHead::Empty,
    }
}

pub fn keep_head(head: Option<LogAddress>) -> (r: IndexHead)
    ensures
        r == kept_head(head),
{
    match head {
        Some(address) => IndexHead::Log(address),
        None => IndexHead::Empty,
    }
}

/// The start of a chain that is kept in an entry is found there again; a free entry starts no chain, and
/// one of the cache is none of the log.
pub proof fn law_head_is_found_again(entry: EntrySnapshot, head: Option<LogAddress>)
    ensures
        entry.head == kept_head(head) ==> log_head(entry) == Ok::<Option<LogAddress>, Error>(head),
        entry.head is Cache <==> log_head(entry) is Err,
        entry.head is Empty <==> log_head(entry) == Ok::<Option<LogAddress>, Error>(None),
{
}

} // verus!
