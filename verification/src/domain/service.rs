//! The tracker's use cases: start and stop tracking a file, list, log, diff,
//! roll back, and record or drop snapshots.
use vstd::prelude::*;
use crate::domain::date::{
    clock_gives, date_from_reading, is_utc_text, lemma_read_from_clock, reading_text, unix_time_now,
};
use crate::domain::dto::{DiffDTO, LogDTO, RollbackDTO};
use crate::domain::entity::{copy_snapshot, FileEntity, SnapshotEntity};
use crate::domain::factory::{build_file, build_snapshot};
use crate::domain::repository::{FileRepository, SnapshotRepository};
use crate::domain::uuid_util::{
    is_random_v4, lemma_drawn_from_random_source, lemma_ids_from_draws, random_bits, random_part,
    random_source_gives, uuid_from_bits, uuid_hyphenated, v4_marked,
};
use crate::text::owned;
use vstd::string::StringExecFns;

verus! {

// ---------------------------------------------------------------------------
// The messages of the refused requests.
// ---------------------------------------------------------------------------

pub open spec fn not_enough_to_diff_msg() -> Seq<char> {
    "not enough snapshots to diff"@
}

pub open spec fn nothing_before_target_msg() -> Seq<char> {
    "no snapshot available before the target snapshot"@
}

pub open spec fn nothing_to_roll_back_msg() -> Seq<char> {
    "no snapshots available to roll back"@
}

pub open spec fn snapshot_not_found_msg(id: Seq<char>) -> Seq<char> {
    "snapshot \""@ + id + "\" not found"@
}

// ---------------------------------------------------------------------------
// Finding a snapshot by its identifier.
// ---------------------------------------------------------------------------

/// The text of an optional string argument.
pub open spec fn opt_text(o: Option<&str>) -> Option<Seq<char>> {
    match o {
        Some(s) => Some(s@),
        None => None,
    }
}

/// `i` is the position of the first snapshot in `s` whose identifier is `id`.
pub open spec fn is_first_with_id(s: Seq<SnapshotEntity>, id: Seq<char>, i: int) -> bool {
    &&& 0 <= i < s.len()
    &&& s[i].id@ == id
    &&& forall|j: int| 0 <= j < i ==> s[j].id@ != id
}

/// The position of the first snapshot in `s` whose identifier is `id`, if any.
pub open spec fn first_with_id(s: Seq<SnapshotEntity>, id: Seq<char>) -> Option<int> {
    if exists|i: int| is_first_with_id(s, id, i) {
        Some(choose|i: int| is_first_with_id(s, id, i))
    } else {
        None
    }
}

/// There is at most one first position.
pub proof fn lemma_first_with_id_unique(s: Seq<SnapshotEntity>, id: Seq<char>, i: int, k: int)
    requires
        is_first_with_id(s, id, i),
        is_first_with_id(s, id, k),
    ensures
        i == k,
{
    if i < k {
        assert(s[i].id@ != id);
    } else if k < i {
        assert(s[k].id@ != id);
    }
}

/// Whenever a snapshot with identifier `id` occurs in `s`, `first_with_id` finds one.
pub proof fn lemma_first_with_id_finds_any(s: Seq<SnapshotEntity>, id: Seq<char>, k: int)
    requires
        0 <= k < s.len(),
        s[k].id@ == id,
    ensures
        first_with_id(s, id) is Some,
    decreases k,
{
    if forall|j: int| 0 <= j < k ==> s[j].id@ != id {
        assert(is_first_with_id(s, id, k));
    } else {
        let j = choose|j: int| 0 <= j < k && s[j].id@ == id;
        lemma_first_with_id_finds_any(s, id, j);
    }
}

/// The position of the first snapshot whose identifier is `id`.
pub fn find_snapshot_index(snapshots: &Vec<SnapshotEntity>, id: &str) -> (r: Option<usize>)
    ensures
        match r {
            Some(i) => is_first_with_id(snapshots@, id@, i as int) && first_with_id(
                snapshots@,
                id@,
            ) == Some(i as int),
            None => first_with_id(snapshots@, id@) is None && forall|j: int|
                0 <= j < snapshots@.len() ==> snapshots@[j].id@ != id@,
        },
{
    let target = owned(id);
    let mut i: usize = 0;
    while i < snapshots.len()
        invariant
            i <= snapshots@.len(),
            target@ == id@,
            forall|j: int| 0 <= j < i ==> snapshots@[j].id@ != id@,
        decreases snapshots@.len() - i,
    {
        if snapshots[i].id == target {
            proof {
                assert(is_first_with_id(snapshots@, id@, i as int));
                let k = choose|k: int| is_first_with_id(snapshots@, id@, k);
                lemma_first_with_id_unique(snapshots@, id@, i as int, k);
            }
            return Some(i);
        }
        i = i + 1;
    }
    None
}

fn not_found_message(id: &str) -> (r: String)
    ensures
        r@ == snapshot_not_found_msg(id@),
{
    let mut m = owned("snapshot \"");
    m.append(id);
    m.append("\" not found");
    m
}

// ---------------------------------------------------------------------------
// Which snapshots a diff compares, and which one a rollback restores.
// ---------------------------------------------------------------------------

/// The positions (from, to) of the snapshots a diff compares, or the message
/// of the refusal. `s` is the file's history, oldest first.
///
/// - fewer than two snapshots: refused;
/// - `from` and `to` given: the first snapshots with those identifiers;
/// - only `from` given: that snapshot and the latest one;
/// - only `to` given: that snapshot and the one just before it;
/// - neither given: the two latest snapshots.
pub open spec fn diff_choice(
    s: Seq<SnapshotEntity>,
    from: Option<Seq<char>>,
    to: Option<Seq<char>>,
) -> Result<(int, int), Seq<char>> {
    if s.len() < 2 {
        Err(not_enough_to_diff_msg())
    } else {
        match from {
            Some(f) => match first_with_id(s, f) {
                None => Err(snapshot_not_found_msg(f)),
                Some(i) => match to {
                    Some(t) => match first_with_id(s, t) {
                        None => Err(snapshot_not_found_msg(t)),
                        Some(j) => Ok((i, j)),
                    },
                    None => Ok((i, s.len() - 1)),
                },
            },
            None => match to {
                Some(t) => match first_with_id(s, t) {
                    None => Err(snapshot_not_found_msg(t)),
                    Some(j) => if j == 0 {
                        Err(nothing_before_target_msg())
                    } else {
                        Ok((j - 1, j))
                    },
                },
                None => Ok((s.len() - 2, s.len() - 1)),
            },
        }
    }
}

/// A diff compares two snapshots of the history itself; without `from`, it
/// compares a snapshot with the one just before it.
pub proof fn lemma_diff_choice_within_history(
    s: Seq<SnapshotEntity>,
    from: Option<Seq<char>>,
    to: Option<Seq<char>>,
)
    ensures
        diff_choice(s, from, to) is Err <==> s.len() < 2 || (from matches Some(f) && first_with_id(
            s,
            f,
        ) is None) || (to matches Some(t) && first_with_id(s, t) is None) || (from is None
            && (to matches Some(t) && first_with_id(s, t) == Some(0int))),
        diff_choice(s, from, to) matches Ok((i, j)) ==> 0 <= i < s.len() && 0 <= j < s.len(),
        from is None ==> (diff_choice(s, from, to) matches Ok((i, j)) ==> i + 1 == j),
        to is None ==> (diff_choice(s, from, to) matches Ok((i, j)) ==> j == s.len() - 1),
{
    if let Some(f) = from {
        if first_with_id(s, f) is Some {
            let i = choose|i: int| is_first_with_id(s, f, i);
        }
    }
    if let Some(t) = to {
        if first_with_id(s, t) is Some {
            let j = choose|j: int| is_first_with_id(s, t, j);
        }
    }
}

/// A rollback restores a snapshot of the history itself, by default the
/// latest one, and is refused only for an empty history or an unknown id.
pub proof fn lemma_rollback_choice_within_history(s: Seq<SnapshotEntity>, id: Option<Seq<char>>)
    ensures
        rollback_choice(s, id) is Err <==> s.len() == 0 || (id matches Some(x) && first_with_id(
            s,
            x,
        ) is None),
        rollback_choice(s, id) matches Ok(i) ==> 0 <= i < s.len(),
        id is None && s.len() > 0 ==> rollback_choice(s, id) == Ok::<int, Seq<char>>(
            s.len() - 1,
        ),
{
    if let Some(x) = id {
        if first_with_id(s, x) is Some {
            let i = choose|i: int| is_first_with_id(s, x, i);
        }
    }
}

/// `r` is what a diff of `file` with history `s` answers.
pub open spec fn diff_outcome(
    file: FileEntity,
    s: Seq<SnapshotEntity>,
    from: Option<Seq<char>>,
    to: Option<Seq<char>>,
    r: Result<DiffDTO, String>,
) -> bool {
    match diff_choice(s, from, to) {
        Ok((i, j)) => r matches Ok(d) && d.file_id == file.id && d.file_path == file.path
            && d.from == s[i] && d.to == s[j],
        Err(m) => r matches Err(e) && e@ == m,
    }
}

/// The position of the snapshot a rollback restores, or the message of the
/// refusal: the first snapshot with the given identifier, else the latest.
pub open spec fn rollback_choice(s: Seq<SnapshotEntity>, id: Option<Seq<char>>) -> Result<
    int,
    Seq<char>,
> {
    if s.len() == 0 {
        Err(nothing_to_roll_back_msg())
    } else {
        match id {
            Some(x) => match first_with_id(s, x) {
                Some(i) => Ok(i),
                None => Err(snapshot_not_found_msg(x)),
            },
            None => Ok(s.len() - 1),
        }
    }
}

/// `r` is what a rollback of `file` with history `s` answers.
pub open spec fn rollback_outcome(
    file: FileEntity,
    s: Seq<SnapshotEntity>,
    id: Option<Seq<char>>,
    r: Result<RollbackDTO, String>,
) -> bool {
    match rollback_choice(s, id) {
        Ok(i) => r matches Ok(d) && d.file_id == file.id && d.file_path == file.path
            && d.snapshot == s[i],
        Err(m) => r matches Err(e) && e@ == m,
    }
}

/// Picks the two snapshots of `file`'s history `snapshots` that a diff compares.
pub fn select_diff(
    file: FileEntity,
    snapshots: Vec<SnapshotEntity>,
    from_id: Option<&str>,
    to_id: Option<&str>,
) -> (r: Result<DiffDTO, String>)
    ensures
        diff_outcome(file, snapshots@, opt_text(from_id), opt_text(to_id), r),
{
    let n = snapshots.len();
    if n < 2 {
        return Err(owned("not enough snapshots to diff"));
    }
    let (fi, ti): (usize, usize) = match from_id {
        Some(from) => {
            let fi = match find_snapshot_index(&snapshots, from) {
                Some(i) => i,
                None => return Err(not_found_message(from)),
            };
            match to_id {
                Some(to) => match find_snapshot_index(&snapshots, to) {
                    Some(j) => (fi, j),
                    None => return Err(not_found_message(to)),
                },
                None => (fi, n - 1),
            }
        },
        None => match to_id {
            Some(to) => {
                let j = match find_snapshot_index(&snapshots, to) {
                    Some(j) => j,
                    None => return Err(not_found_message(to)),
                };
                if j == 0 {
                    return Err(owned("no snapshot available before the target snapshot"));
                }
                (j - 1, j)
            },
            None => (n - 2, n - 1),
        },
    };
    let from = copy_snapshot(&snapshots[fi]);
    let to = copy_snapshot(&snapshots[ti]);
    Ok(DiffDTO { file_id: file.id, file_path: file.path, from, to })
}

/// Picks the snapshot of `file`'s history `snapshots` that a rollback restores.
pub fn select_rollback(
    file: FileEntity,
    snapshots: Vec<SnapshotEntity>,
    snapshot_id: Option<&str>,
) -> (r: Result<RollbackDTO, String>)
    ensures
        rollback_outcome(file, snapshots@, opt_text(snapshot_id), r),
{
    let n = snapshots.len();
    if n == 0 {
        return Err(owned("no snapshots available to roll back"));
    }
    let i = match snapshot_id {
        Some(id) => match find_snapshot_index(&snapshots, id) {
            Some(i) => i,
            None => return Err(not_found_message(id)),
        },
        None => n - 1,
    };
    let snapshot = copy_snapshot(&snapshots[i]);
    Ok(RollbackDTO { file_id: file.id, file_path: file.path, snapshot })
}

/// The log of `file` with history `snapshots`.
pub fn log_of(file: FileEntity, snapshots: Vec<SnapshotEntity>) -> (r: LogDTO)
    ensures
        r.file_id == file.id,
        r.file_path == file.path,
        r.snapshots@ == snapshots@,
{
    LogDTO { file_id: file.id, file_path: file.path, snapshots }
}

// ---------------------------------------------------------------------------
// The use cases.
// ---------------------------------------------------------------------------

/// `f` is a new record for a file at `path`: that path, and the canonical
/// text of a random (version 4) UUID as identifier.
pub open spec fn is_fresh_file_record(f: FileEntity, path: Seq<char>) -> bool {
    &&& f.path@ == path
    &&& exists|v: u128| is_random_v4(v) && f.id@ == uuid_hyphenated(v)
}

/// `s` is a new snapshot holding `content`: the canonical text of a random
/// (version 4) UUID as identifier, and a date written as RFC 3339 text in UTC.
pub open spec fn is_fresh_snapshot(s: SnapshotEntity, content: Seq<char>) -> bool {
    &&& s.content@ == content
    &&& is_utc_text(s.date@)
    &&& exists|v: u128| is_random_v4(v) && s.id@ == uuid_hyphenated(v)
}

/// `f` is the record for a file at `path` whose identifier is made from the
/// random `bits`.
pub open spec fn is_file_record_from_bits(f: FileEntity, bits: u128, path: Seq<char>) -> bool {
    &&& f.path@ == path
    &&& f.id@ == uuid_hyphenated(v4_marked(bits))
}

/// `s` is the snapshot holding `content` whose identifier is made from the
/// random `bits` and whose date is the clock reading `secs`, `nanos`.
pub open spec fn is_snapshot_from_draw(
    s: SnapshotEntity,
    bits: u128,
    secs: u64,
    nanos: u32,
    content: Seq<char>,
) -> bool {
    &&& s.id@ == uuid_hyphenated(v4_marked(bits))
    &&& reading_text(secs, nanos) == Some(s.date@)
    &&& s.content@ == content
}

/// `f` is the record for a file at `path` whose identifier is made from bits
/// that the system's random source gave.
pub open spec fn is_drawn_file_record(f: FileEntity, path: Seq<char>) -> bool {
    exists|bits: u128|
        #![trigger is_file_record_from_bits(f, bits, path)]
        random_source_gives(Some(bits)) && is_file_record_from_bits(f, bits, path)
}

/// `s` is the snapshot holding `content` whose identifier is made from bits
/// that the system's random source gave and whose date is the text of a
/// reading that the system clock gave.
pub open spec fn is_drawn_snapshot(s: SnapshotEntity, content: Seq<char>) -> bool {
    exists|bits: u128, secs: u64, nanos: u32|
        #![trigger is_snapshot_from_draw(s, bits, secs, nanos, content)]
        random_source_gives(Some(bits)) && clock_gives(Some((secs, nanos)))
            && is_snapshot_from_draw(s, bits, secs, nanos, content)
}

/// The draws for a new snapshot can come out so that no snapshot is made of
/// them: the random source fails, the clock fails, or the clock gives a
/// reading that has no RFC 3339 text.
pub open spec fn snapshot_draw_can_fail() -> bool {
    ||| random_source_gives(None)
    ||| clock_gives(None)
    ||| exists|secs: u64, nanos: u32|
        #![trigger reading_text(secs, nanos)]
        clock_gives(Some((secs, nanos))) && reading_text(secs, nanos) is None
}

/// Two file records made from draws `a` and `b` have the same identifier
/// exactly when the draws agree on their random part: files tracked under
/// different draws get different identifiers, whatever their paths.
pub proof fn lemma_file_ids_follow_draws(
    f: FileEntity,
    g: FileEntity,
    a: u128,
    b: u128,
    p: Seq<char>,
    q: Seq<char>,
)
    requires
        is_file_record_from_bits(f, a, p),
        is_file_record_from_bits(g, b, q),
    ensures
        (f.id@ == g.id@) == (random_part(a) == random_part(b)),
{
    lemma_ids_from_draws(a, b);
}

/// Two snapshots made from draws `a` and `b` have the same identifier
/// exactly when the draws agree on their random part, whatever their
/// contents and readings; and snapshots made from the same clock reading
/// carry the same date, the RFC 3339 text of that reading.
pub proof fn lemma_snapshots_follow_draws(
    s: SnapshotEntity,
    t: SnapshotEntity,
    a: u128,
    b: u128,
    s_secs: u64,
    s_nanos: u32,
    t_secs: u64,
    t_nanos: u32,
    c: Seq<char>,
    d: Seq<char>,
)
    requires
        is_snapshot_from_draw(s, a, s_secs, s_nanos, c),
        is_snapshot_from_draw(t, b, t_secs, t_nanos, d),
    ensures
        (s.id@ == t.id@) == (random_part(a) == random_part(b)),
        reading_text(s_secs, s_nanos) == Some(s.date@),
        (s_secs, s_nanos) == (t_secs, t_nanos) ==> s.date@ == t.date@,
        reading_text(s_secs, s_nanos) != reading_text(t_secs, t_nanos) ==> s.date@ != t.date@,
{
    lemma_ids_from_draws(a, b);
}

/// The record for a file at `file_path` whose identifier is made from the
/// random `bits`.
pub fn file_record_from_bits(bits: u128, file_path: &str) -> (r: FileEntity)
    ensures
        is_file_record_from_bits(r, bits, file_path@),
        is_fresh_file_record(r, file_path@),
{
    let id = uuid_from_bits(bits);
    build_file(id.as_str(), file_path)
}

/// The snapshot holding `content` whose identifier is made from the random
/// `bits` and whose date is the clock reading `secs`, `nanos`; `None` exactly
/// where that reading has no RFC 3339 text.
pub fn snapshot_from_draw(bits: u128, secs: u64, nanos: u32, content: &str) -> (r: Option<
    SnapshotEntity,
>)
    ensures
        r is Some <==> reading_text(secs, nanos) is Some,
        r matches Some(s) ==> is_snapshot_from_draw(s, bits, secs, nanos, content@)
            && is_fresh_snapshot(s, content@),
{
    let id = uuid_from_bits(bits);
    match date_from_reading(secs, nanos) {
        Some(date) => Some(build_snapshot(id.as_str(), date.as_str(), content)),
        None => None,
    }
}

/// A new record for a file at `file_path`, with a fresh random identifier
/// made from bits just drawn from the system's random source; `None` exactly
/// where that source failed.
pub fn new_tracked_file(file_path: &str) -> (r: Option<FileEntity>)
    ensures
        r matches Some(f) ==> is_fresh_file_record(f, file_path@),
        r matches Some(f) ==> is_drawn_file_record(f, file_path@),
        r is None ==> random_source_gives(None),
{
    let drawn = random_bits();
    proof {
        lemma_drawn_from_random_source(drawn);
    }
    match drawn {
        Some(bits) => Some(file_record_from_bits(bits, file_path)),
        None => None,
    }
}

/// A new snapshot holding `content`, with an identifier made from bits just
/// drawn from the system's random source and the date of the reading just
/// taken from the clock; `None` exactly where those draws make no snapshot.
pub fn new_snapshot(content: &str) -> (r: Option<SnapshotEntity>)
    ensures
        r matches Some(s) ==> is_fresh_snapshot(s, content@),
        r matches Some(s) ==> is_drawn_snapshot(s, content@),
        r is None ==> snapshot_draw_can_fail(),
{
    let drawn = random_bits();
    proof {
        lemma_drawn_from_random_source(drawn);
    }
    let bits = match drawn {
        Some(bits) => bits,
        None => return None,
    };
    let reading = unix_time_now();
    proof {
        lemma_read_from_clock(reading);
    }
    match reading {
        Some((secs, nanos)) => snapshot_from_draw(bits, secs, nanos, content),
        None => None,
    }
}

/// Asks the repository, once, to keep the record for a file at `file_path`
/// whose identifier is made from the random `bits`.
pub fn track_file_from_bits<R: FileRepository>(bits: u128, file_path: &str, repository: &mut R)
    ensures
        exists|f: FileEntity|
            #[trigger] R::track_step(*old(repository), *final(repository), f)
                && is_file_record_from_bits(f, bits, file_path@) && is_fresh_file_record(
                f,
                file_path@,
            ),
{
    let file_to_track = file_record_from_bits(bits, file_path);
    let ghost f = file_to_track;
    repository.track(file_to_track);
    assert(R::track_step(*old(repository), *repository, f));
}

/// Starts tracking the file at `file_path` under a fresh identifier: the
/// repository is asked, once, to keep a new record for that path, whose
/// identifier is the UUID made from the bits just drawn from the system's
/// random source. Answers whether it was; where that source fails, nothing is
/// asked and the repository is left as it was.
pub fn start_track_file<R: FileRepository>(file_path: &str, repository: &mut R) -> (started: bool)
    ensures
        started ==> exists|f: FileEntity|
            #[trigger] R::track_step(*old(repository), *final(repository), f)
                && is_fresh_file_record(f, file_path@) && is_drawn_file_record(f, file_path@),
        !started ==> *final(repository) == *old(repository),
        !started ==> random_source_gives(None),
{
    let drawn = random_bits();
    proof {
        lemma_drawn_from_random_source(drawn);
    }
    match drawn {
        Some(bits) => {
            track_file_from_bits(bits, file_path, repository);
            true
        },
        None => false,
    }
}

/// Stops tracking the file named by `id_path` (identifier or path): the
/// snapshot repository is asked, once, to forget the file's snapshots, then
/// the file repository, once, to forget the file.
pub fn stop_to_track_file<F: FileRepository, S: SnapshotRepository>(
    id_path: &str,
    file_repository: &mut F,
    snap_repository: &mut S,
)
    ensures
        S::delete_all_step(*old(snap_repository), *final(snap_repository), id_path@),
        F::remove_step(*old(file_repository), *final(file_repository), id_path@),
{
    snap_repository.delete_all_by_file_id_path(id_path);
    file_repository.remove(id_path);
}

/// All tracked files, as the repository lists them.
pub fn list<R: FileRepository>(repository: &R) -> (r: Vec<FileEntity>)
    ensures
        repository.list_answer(r@),
{
    let file_entities = repository.list();
    file_entities
}

/// The history of the file named by `file_id_path`: the file the repository
/// finds for it, and the snapshots the snapshot repository holds under that
/// file's identifier.
pub fn get_info<F: FileRepository, S: SnapshotRepository>(
    file_id_path: &str,
    file_repository: &F,
    snap_repository: &S,
) -> (r: LogDTO)
    ensures
        exists|file: FileEntity, s: Seq<SnapshotEntity>|
            #[trigger] file_repository.lookup_answer(file_id_path@, file)
                && #[trigger] snap_repository.history_answer(file.id@, s)
                && r.file_id == file.id && r.file_path == file.path && r.snapshots@ == s,
{
    let file_entity = file_repository.get_by_id_or_path(file_id_path);
    let file_snapshots = snap_repository.get_by_id_or_path(file_entity.id.as_str());
    let ghost file = file_entity;
    let ghost s = file_snapshots@;
    let r = log_of(file_entity, file_snapshots);
    assert(file_repository.lookup_answer(file_id_path@, file) && snap_repository.history_answer(
        file.id@,
        s,
    ));
    r
}

/// The two snapshots to compare for the file named by `file_id_path`, chosen
/// in the history the snapshot repository holds under that file's identifier.
pub fn get_diff<F: FileRepository, S: SnapshotRepository>(
    file_id_path: &str,
    from_id: Option<&str>,
    to_id: Option<&str>,
    file_repository: &F,
    snap_repository: &S,
) -> (r: Result<DiffDTO, String>)
    ensures
        exists|file: FileEntity, s: Seq<SnapshotEntity>|
            #[trigger] file_repository.lookup_answer(file_id_path@, file)
                && #[trigger] snap_repository.history_answer(file.id@, s)
                && diff_outcome(file, s, opt_text(from_id), opt_text(to_id), r),
{
    let file_entity = file_repository.get_by_id_or_path(file_id_path);
    let file_snapshots = snap_repository.get_by_id_or_path(file_entity.id.as_str());
    let ghost file = file_entity;
    let ghost s = file_snapshots@;
    let r = select_diff(file_entity, file_snapshots, from_id, to_id);
    assert(file_repository.lookup_answer(file_id_path@, file) && snap_repository.history_answer(
        file.id@,
        s,
    ));
    assert(diff_outcome(file, s, opt_text(from_id), opt_text(to_id), r));
    r
}

/// The snapshot to restore for the file named by `file_id_path`, chosen in
/// the history the snapshot repository holds under that file's identifier.
pub fn get_rollback<F: FileRepository, S: SnapshotRepository>(
    file_id_path: &str,
    snapshot_id: Option<&str>,
    file_repository: &F,
    snap_repository: &S,
) -> (r: Result<RollbackDTO, String>)
    ensures
        exists|file: FileEntity, s: Seq<SnapshotEntity>|
            #[trigger] file_repository.lookup_answer(file_id_path@, file)
                && #[trigger] snap_repository.history_answer(file.id@, s)
                && rollback_outcome(file, s, opt_text(snapshot_id), r),
{
    let file_entity = file_repository.get_by_id_or_path(file_id_path);
    let file_snapshots = snap_repository.get_by_id_or_path(file_entity.id.as_str());
    let ghost file = file_entity;
    let ghost s = file_snapshots@;
    let r = select_rollback(file_entity, file_snapshots, snapshot_id);
    assert(file_repository.lookup_answer(file_id_path@, file) && snap_repository.history_answer(
        file.id@,
        s,
    ));
    assert(rollback_outcome(file, s, opt_text(snapshot_id), r));
    r
}

/// Asks the snapshot repository, once, to record for the file named by
/// `file_id_path` the snapshot holding `content` whose identifier is made from
/// the random `bits` and whose date is the clock reading `secs`, `nanos`.
/// Answers whether it did: it does exactly when the reading has an RFC 3339
/// text; otherwise the repository is left as it was.
pub fn add_snapshot_from_draw<S: SnapshotRepository>(
    file_id_path: &str,
    content: &str,
    bits: u128,
    secs: u64,
    nanos: u32,
    snap_repository: &mut S,
) -> (added: bool)
    ensures
        added == reading_text(secs, nanos) is Some,
        added ==> exists|s: SnapshotEntity|
            #[trigger] S::add_step(*old(snap_repository), *final(snap_repository), file_id_path@, s)
                && is_snapshot_from_draw(s, bits, secs, nanos, content@) && is_fresh_snapshot(
                s,
                content@,
            ),
        !added ==> *final(snap_repository) == *old(snap_repository),
{
    match snapshot_from_draw(bits, secs, nanos, content) {
        Some(snapshot) => {
            let ghost s = snapshot;
            snap_repository.add(file_id_path, snapshot);
            assert(S::add_step(*old(snap_repository), *snap_repository, file_id_path@, s));
            true
        },
        None => false,
    }
}

/// Records a new snapshot holding `content` for the file named by
/// `file_id_path`: the snapshot repository is asked, once, to record it, with
/// an identifier made from the bits just drawn from the system's random source
/// and the date of the reading just taken from the clock. Answers whether it
/// was; where the random source or the clock fails, or the reading has no
/// RFC 3339 text, nothing is asked and the repository is left as it was.
pub fn add_snapshot<S: SnapshotRepository>(
    file_id_path: &str,
    content: &str,
    snap_repository: &mut S,
) -> (added: bool)
    ensures
        added ==> exists|s: SnapshotEntity|
            #[trigger] S::add_step(*old(snap_repository), *final(snap_repository), file_id_path@, s)
                && is_fresh_snapshot(s, content@) && is_drawn_snapshot(s, content@),
        !added ==> *final(snap_repository) == *old(snap_repository),
        !added ==> snapshot_draw_can_fail(),
{
    let drawn = random_bits();
    proof {
        lemma_drawn_from_random_source(drawn);
    }
    let bits = match drawn {
        Some(bits) => bits,
        None => return false,
    };
    let reading = unix_time_now();
    proof {
        lemma_read_from_clock(reading);
    }
    match reading {
        Some((secs, nanos)) => add_snapshot_from_draw(
            file_id_path,
            content,
            bits,
            secs,
            nanos,
            snap_repository,
        ),
        None => false,
    }
}

/// Deletes the snapshot with identifier `snapshot_id`: the snapshot
/// repository is asked, once, to forget it.
pub fn remove_snapshot<S: SnapshotRepository>(snapshot_id: &str, snap_repository: &mut S)
    ensures
        S::delete_step(*old(snap_repository), *final(snap_repository), snapshot_id@),
{
    snap_repository.delete_by_snapshot_id(snapshot_id);
}

} // verus!
