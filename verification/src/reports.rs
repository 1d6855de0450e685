//! What maintenance actions are asked to do, and what they report.
use crate::types::{
    CheckpointRetirement, CheckpointToken, CheckpointVersion, Error, Generation, LogAddress,
    MaintenanceId, Serial, SessionId, StoreId,
};
use std::sync::Arc;
use vstd::prelude::*;

verus! {

/// Which parts of the store a checkpoint covers.
#[derive(Clone, Copy, Debug, PartialEq, Eq, Structural)]
pub enum CheckpointKind {
    Full,
    Index,
    Log,
}

/// The last serial of a session that a checkpoint makes durable.
#[derive(Clone, Copy, Debug, PartialEq, Eq)]
pub struct DurableProgress {
    pub session: SessionId,
    pub serial: Serial,
    pub version: CheckpointVersion,
}

#[derive(Debug, PartialEq, Eq)]
pub struct CheckpointReport {
    pub kind: CheckpointKind,
    pub token: CheckpointToken,
    pub version: CheckpointVersion,
    pub begin: LogAddress,
    pub end: LogAddress,
    pub sessions: Vec<DurableProgress>,
}

/// An index and a log checkpoint that restore a store together.
#[derive(Clone, Copy, Debug, PartialEq, Eq)]
pub struct RecoverySet {
    pub store: StoreId,
    pub index: CheckpointToken,
    pub log: CheckpointToken,
}

/// What became of the files behind a reclaimed range.
#[derive(Debug, PartialEq, Eq)]
pub enum PhysicalReclamation {
    Completed,
    DeferredByRuntime { begin: LogAddress, end: LogAddress },
    DeferredByRecoverySet { blockers: Vec<RecoverySet>, begin: LogAddress, end: LogAddress },
}

#[derive(Debug, PartialEq, Eq)]
pub struct GcReport {
    pub begin: LogAddress,
    pub index_cleaned: bool,
    pub deleted_segments: u64,
    pub physical: PhysicalReclamation,
}

#[derive(Debug, PartialEq, Eq)]
pub struct CheckpointReleaseReport {
    pub token: CheckpointToken,
    pub retirement: CheckpointRetirement,
    pub confirmed_absent_materials: u64,
    pub physical: PhysicalReclamation,
}

#[derive(Clone, Copy, Debug, PartialEq, Eq)]
pub struct IndexGrowthReport {
    pub old_buckets: usize,
    pub new_buckets: usize,
    pub generation: Generation,
}

/// How a compaction finds the records to keep.
#[derive(Clone, Copy, Debug, PartialEq, Eq, Structural)]
pub enum CompactionAlgorithm {
    Lookup,
    ScanDedup,
}

#[derive(Clone, Copy, Debug, PartialEq, Eq)]
pub struct CompactionOptions {
    pub algorithm: CompactionAlgorithm,
    pub until: LogAddress,
    pub workers: usize,
    pub shift_begin: bool,
    pub checkpoint: bool,
}

#[derive(Debug, PartialEq, Eq)]
pub struct CompactionReport {
    pub until: LogAddress,
    pub copied: u64,
    pub gc: Option<GcReport>,
    pub checkpoint: Option<CheckpointReport>,
}

/// The stage of automatic compaction.
#[derive(Clone, Copy, Debug, PartialEq, Eq, Structural)]
pub enum AutoCompactionPhase {
    Disabled,
    Idle,
    Scheduled,
    Compacting,
    Reclaiming,
    Stopping,
    Stopped,
    Failed,
}

/// What automatic compaction has done so far.
#[derive(Clone, Debug)]
pub struct AutoCompactionStatus {
    pub phase: AutoCompactionPhase,
    pub active: Option<MaintenanceId>,
    pub completed_compactions: u64,
    pub last_compaction: Option<Arc<Result<CompactionReport, Error>>>,
    pub last_reclamation: Option<Arc<Result<GcReport, Error>>>,
    pub failure: Option<Arc<Error>>,
    pub log_bytes: u64,
    pub budget_reached: bool,
}

} // verus!
