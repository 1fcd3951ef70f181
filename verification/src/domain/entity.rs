//! The two kinds of record the tracker keeps: tracked files and their snapshots.
use vstd::prelude::*;

verus! {

/// A tracked file: its identifier (a UUID's canonical text) and its absolute path.
#[derive(Clone, Debug)]
pub struct FileEntity {
    pub id: String,
    pub path: String,
}

/// One recorded version of a tracked file.
///
/// `date` is the moment the snapshot was taken, as RFC 3339 text in UTC
/// (the form chrono's `to_rfc3339` writes, e.g. `2024-05-01T10:00:00.5+00:00`).
#[derive(Clone, Debug)]
pub struct SnapshotEntity {
    pub id: String,
    pub date: String,
    pub content: String,
}

/// A field-by-field copy of a snapshot record.
pub fn copy_snapshot(snapshot: &SnapshotEntity) -> (r: SnapshotEntity)
    ensures
        r == *snapshot,
{
    SnapshotEntity {
        id: snapshot.id.clone(),
        date: snapshot.date.clone(),
        content: snapshot.content.clone(),
    }
}

} // verus!
