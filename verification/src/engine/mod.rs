pub mod admission;
pub mod auto_compaction;
pub mod cache;
pub mod candidates;
pub mod checkpoint;
pub mod checkpoint_catalog;
pub mod checkpoint_release;
pub mod common;
pub mod compaction;
pub mod compaction_history;
pub mod compaction_workers;
pub mod conditional_copy;
pub mod copy_admission;
pub mod delete;
pub mod delete_admission;
pub mod gc;
pub mod growth;
pub mod index;
pub mod io_hub;
pub mod maintenance;
pub mod metrics;
pub mod observe;
pub mod operation_gate;
pub mod pending;
pub mod power_model;
pub mod release_history;
