//! Constructors for the tracker's records.
use vstd::prelude::*;
use crate::domain::date::{parse_datetime, rfc3339_in_utc};
use crate::domain::entity::{FileEntity, SnapshotEntity};
use crate::text::owned;

verus! {

/// A file record with the given identifier and path.
pub fn build_file(id: &str, path: &str) -> (r: FileEntity)
    ensures
        r.id@ == id@,
        r.path@ == path@,
{
    FileEntity { id: owned(id), path: owned(path) }
}

/// A snapshot record with the given identifier, date (RFC 3339 text) and content.
pub fn build_snapshot(id: &str, date: &str, content: &str) -> (r: SnapshotEntity)
    ensures
        r.id@ == id@,
        r.date@ == date@,
        r.content@ == content@,
{
    SnapshotEntity { id: owned(id), date: owned(date), content: owned(content) }
}

/// A snapshot record from a stored row: its identifier and content as they
/// are, its date read as RFC 3339 and written in UTC; `None` where the stored
/// date is not RFC 3339.
pub fn snapshot_from_row(id: String, date_text: &str, content: String) -> (r: Option<
    SnapshotEntity,
>)
    ensures
        match rfc3339_in_utc(date_text@) {
            Some(t) => r matches Some(s) && s.id == id && s.content == content && s.date@ == t,
            None => r is None,
        },
{
    match parse_datetime(date_text) {
        Some(date) => Some(SnapshotEntity { id, date, content }),
        None => None,
    }
}

} // verus!
