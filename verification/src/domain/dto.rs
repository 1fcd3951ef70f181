//! What the service hands back for the `log`, `diff` and `rollback` commands.
use vstd::prelude::*;
use crate::domain::entity::SnapshotEntity;

verus! {

/// A tracked file together with its whole history, oldest snapshot first.
pub struct LogDTO {
    pub file_id: String,
    pub file_path: String,
    pub snapshots: Vec<SnapshotEntity>,
}

/// Two snapshots of one tracked file, to be compared.
pub struct DiffDTO {
    pub file_id: String,
    pub file_path: String,
    pub from: SnapshotEntity,
    pub to: SnapshotEntity,
}

/// The snapshot a tracked file is to be rolled back to.
pub struct RollbackDTO {
    pub file_id: String,
    pub file_path: String,
    pub snapshot: SnapshotEntity,
}

} // verus!
