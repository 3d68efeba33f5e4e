//! One snapshot-based sync algorithm: build a snapshot of the remote, of the
//! local tree and of the recorded rows, plan, and apply the plan.

pub mod applier;
pub mod apply_item;
pub mod apply_laws;
pub mod decision_laws;
pub mod plan_laws;
pub mod planner;
pub mod remarks;
pub mod run;
pub mod run_laws;
pub mod snapshot;
pub mod snapshot_laws;
pub mod summary;
pub mod walk;
pub mod walk_laws;

pub use planner::{plan, Action};
pub use run::{run, Outcome, SyncPass};
pub use snapshot::{LocalEntry, Snapshot};
