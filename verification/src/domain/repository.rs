//! The storage ports of the tracker. Adapters (a SQLite store, a console stub)
//! implement them; the service is written against them alone.
//!
//! What a store answers, and how a request changes it, depends on what it
//! holds, so a port does not spell either out. Each method instead carries a
//! relation of the implementing type: a lookup's answer stands in a relation
//! with the store and the key, and a change relates the store before the
//! request to the store after it. Requests that change a store take it by
//! `&mut`; lookups take it by `&` and leave it as it is. A store may define each
//! relation as what its method does; one that does not keeps the default,
//! which holds of every request and answer and so promises nothing. The
//! service's contracts speak of the relations, and so of which requests it
//! makes, how often, and what it does with the answers.
use vstd::prelude::*;
use crate::domain::entity::{FileEntity, SnapshotEntity};

verus! {

/// Where tracked files are kept. `id_path` is a file's identifier or its path.
pub trait FileRepository: Sized {
    /// `after` is the store `before` once asked to keep `file`.
    open spec fn track_step(before: Self, after: Self, file: FileEntity) -> bool {
        true
    }

    /// `after` is the store `before` once asked to forget the file named by `id_path`.
    open spec fn remove_step(before: Self, after: Self, id_path: Seq<char>) -> bool {
        true
    }

    /// `after` is the store `before` once asked to give the file with `file.id`
    /// the path `file.path`.
    open spec fn update_step(before: Self, after: Self, file: FileEntity) -> bool {
        true
    }

    /// `r` is an answer of the store to a lookup of `id_path`.
    open spec fn lookup_answer(&self, id_path: Seq<char>, r: FileEntity) -> bool {
        true
    }

    /// `r` is an answer of the store to a listing of all files.
    open spec fn list_answer(&self, r: Seq<FileEntity>) -> bool {
        true
    }

    /// Starts keeping `file`.
    fn track(&mut self, file: FileEntity)
        ensures
            Self::track_step(*old(self), *final(self), file),
    ;

    /// Forgets the file whose identifier or path is `id_path`.
    fn remove(&mut self, id_path: &str)
        ensures
            Self::remove_step(*old(self), *final(self), id_path@),
    ;

    /// Replaces the path of the file with `file.id`.
    fn update(&mut self, file: FileEntity)
        ensures
            Self::update_step(*old(self), *final(self), file),
    ;

    /// The file whose identifier or path is `id_path`.
    fn get_by_id_or_path(&self, id_path: &str) -> (r: FileEntity)
        ensures
            self.lookup_answer(id_path@, r),
    ;

    /// All tracked files, ordered by path.
    fn list(&self) -> (r: Vec<FileEntity>)
        ensures
            self.list_answer(r@),
    ;
}

/// Where snapshots are kept. `file_id_path` is a file's identifier or its path.
pub trait SnapshotRepository: Sized {
    /// `after` is the store `before` once asked to forget every snapshot of
    /// the file named by `file_id_path`.
    open spec fn delete_all_step(before: Self, after: Self, file_id_path: Seq<char>) -> bool {
        true
    }

    /// `after` is the store `before` once asked to forget the snapshot with
    /// identifier `snapshot_id`.
    open spec fn delete_step(before: Self, after: Self, snapshot_id: Seq<char>) -> bool {
        true
    }

    /// `after` is the store `before` once asked to record `snapshot` for the
    /// file named by `file_id_path`.
    open spec fn add_step(
        before: Self,
        after: Self,
        file_id_path: Seq<char>,
        snapshot: SnapshotEntity,
    ) -> bool {
        true
    }

    /// `r` is an answer of the store to a request for the history of `file_id_path`.
    open spec fn history_answer(&self, file_id_path: Seq<char>, r: Seq<SnapshotEntity>) -> bool {
        true
    }

    /// Forgets every snapshot of the file named by `file_id_path`.
    fn delete_all_by_file_id_path(&mut self, file_id_path: &str)
        ensures
            Self::delete_all_step(*old(self), *final(self), file_id_path@),
    ;

    /// Forgets the snapshot with identifier `snapshot_id`.
    fn delete_by_snapshot_id(&mut self, snapshot_id: &str)
        ensures
            Self::delete_step(*old(self), *final(self), snapshot_id@),
    ;

    /// Records `snapshot` for the file named by `file_id_path`.
    fn add(&mut self, file_id_path: &str, snapshot: SnapshotEntity)
        ensures
            Self::add_step(*old(self), *final(self), file_id_path@, snapshot),
    ;

    /// The snapshots of the file named by `file_id_path`, oldest first.
    fn get_by_id_or_path(&self, file_id_path: &str) -> (r: Vec<SnapshotEntity>)
        ensures
            self.history_answer(file_id_path@, r@),
    ;
}

} // verus!
