use fhist::domain::entity::{FileEntity, SnapshotEntity};
use fhist::domain::factory::{build_file, build_snapshot};
use fhist::domain::repository::{FileRepository, SnapshotRepository};
use fhist::domain::service::{
    add_snapshot, find_snapshot_index, get_diff, get_info, get_rollback, list, log_of,
    new_snapshot, new_tracked_file, remove_snapshot, select_diff, select_rollback,
    start_track_file, stop_to_track_file,
};
use fhist::domain::uuid_util::{str_to_uuid, uuid_generate, uuid_to_str, UuidParseError};

fn snap(id: &str, date: &str, content: &str) -> SnapshotEntity {
    build_snapshot(id, date, content)
}

fn history() -> Vec<SnapshotEntity> {
    vec![
        snap("s1", "2024-01-01T00:00:00+00:00", "one"),
        snap("s2", "2024-01-02T00:00:00+00:00", "two"),
        snap("s3", "2024-01-03T00:00:00+00:00", "three"),
        snap("s4", "2024-01-04T00:00:00+00:00", "four"),
    ]
}

fn file() -> FileEntity {
    build_file("f-1", "/tmp/notes.txt")
}

#[derive(Default)]
struct MemoryFiles {
    files: Vec<FileEntity>,
    calls: Vec<String>,
}

impl FileRepository for MemoryFiles {
    fn track(&mut self, file: FileEntity) {
        self.calls.push(format!("track {}", file.path));
        self.files.push(file);
    }
    fn remove(&mut self, id_path: &str) {
        self.calls.push(format!("remove {}", id_path));
        self.files.retain(|f| f.id != id_path && f.path != id_path);
    }
    fn update(&mut self, file: FileEntity) {
        for f in self.files.iter_mut() {
            if f.id == file.id {
                f.path = file.path.clone();
            }
        }
    }
    fn get_by_id_or_path(&self, id_path: &str) -> FileEntity {
        self.files
            .iter()
            .find(|f| f.id == id_path || f.path == id_path)
            .cloned()
            .expect("file not found")
    }
    fn list(&self) -> Vec<FileEntity> {
        let mut v = self.files.clone();
        v.sort_by(|a, b| a.path.cmp(&b.path));
        v
    }
}

#[derive(Default)]
struct MemorySnapshots {
    snapshots: Vec<(String, SnapshotEntity)>,
    calls: Vec<String>,
}

impl SnapshotRepository for MemorySnapshots {
    fn delete_all_by_file_id_path(&mut self, file_id_path: &str) {
        self.calls.push(format!("delete_all {}", file_id_path));
        self.snapshots.retain(|(k, _)| k != file_id_path);
    }
    fn delete_by_snapshot_id(&mut self, snapshot_id: &str) {
        self.calls.push(format!("delete {}", snapshot_id));
        self.snapshots.retain(|(_, s)| s.id != snapshot_id);
    }
    fn add(&mut self, file_id_path: &str, snapshot: SnapshotEntity) {
        self.snapshots.push((file_id_path.to_string(), snapshot));
    }
    fn get_by_id_or_path(&self, file_id_path: &str) -> Vec<SnapshotEntity> {
        self.snapshots
            .iter()
            .filter(|(k, _)| k == file_id_path)
            .map(|(_, s)| s.clone())
            .collect()
    }
}

#[test]
fn uuid_text_is_hyphenated_lowercase() {
    let text = uuid_to_str(0xa1a2a3a4b1b2c1c2d1d2d3d4d5d6d7d8u128);
    assert_eq!(text, "a1a2a3a4-b1b2-c1c2-d1d2-d3d4d5d6d7d8");
    assert_eq!(uuid_to_str(0), "00000000-0000-0000-0000-000000000000");
    assert_eq!(uuid_to_str(u128::MAX), "ffffffff-ffff-ffff-ffff-ffffffffffff");
}

#[test]
fn uuid_text_reads_back() {
    let v = 0x550e8400e29b41d4a716446655440000u128;
    assert_eq!(str_to_uuid(&uuid_to_str(v)), Ok(v));
    assert_eq!(str_to_uuid("550e8400-e29b-41d4-a716-446655440000"), Ok(v));
}

#[test]
fn uuid_other_accepted_forms() {
    let v = 0x550e8400e29b41d4a716446655440000u128;
    assert_eq!(str_to_uuid("550e8400e29b41d4a716446655440000"), Ok(v));
    assert_eq!(str_to_uuid("{550e8400-e29b-41d4-a716-446655440000}"), Ok(v));
    assert_eq!(str_to_uuid("urn:uuid:550E8400-E29B-41D4-A716-446655440000"), Ok(v));
}

#[test]
fn uuid_invalid_text_is_refused() {
    assert_eq!(str_to_uuid(""), Err(UuidParseError::Invalid));
    assert_eq!(str_to_uuid("not a uuid"), Err(UuidParseError::Invalid));
    assert_eq!(str_to_uuid("550e8400-e29b-41d4-a716-44665544000g"), Err(UuidParseError::Invalid));
}

fn assert_random_v4_text(text: &str) {
    let chars: Vec<char> = text.chars().collect();
    assert_eq!(chars.len(), 36);
    for (k, c) in chars.iter().enumerate() {
        if k == 8 || k == 13 || k == 18 || k == 23 {
            assert_eq!(*c, '-');
        } else {
            assert!(c.is_ascii_digit() || ('a'..='f').contains(c), "{text}");
        }
    }
    assert_eq!(chars[14], '4');
    assert!(matches!(chars[19], '8' | '9' | 'a' | 'b'));
    let v = str_to_uuid(text).unwrap();
    assert_eq!((v >> 76) & 0xf, 4);
    assert_eq!((v >> 62) & 0x3, 2);
}

#[test]
fn generated_uuids_are_random_v4() {
    let a = uuid_generate().unwrap();
    let b = uuid_generate().unwrap();
    assert_random_v4_text(&a);
    assert_random_v4_text(&b);
    assert_ne!(a, b);
}

#[test]
fn factories_keep_their_arguments() {
    let f = build_file("id-1", "/a/b");
    assert_eq!(f.id, "id-1");
    assert_eq!(f.path, "/a/b");
    let s = build_snapshot("s", "2024-01-01T00:00:00+00:00", "body");
    assert_eq!(s.id, "s");
    assert_eq!(s.date, "2024-01-01T00:00:00+00:00");
    assert_eq!(s.content, "body");
}

#[test]
fn new_records_get_fresh_ids_and_current_time() {
    let f = new_tracked_file("/x/y").unwrap();
    assert_eq!(f.path, "/x/y");
    assert_random_v4_text(&f.id);
    let s = new_snapshot("hello").unwrap();
    assert_eq!(s.content, "hello");
    assert_random_v4_text(&s.id);
    let parsed = chrono::DateTime::parse_from_rfc3339(&s.date).expect("rfc3339 date");
    let age = chrono::Utc::now().signed_duration_since(parsed);
    assert!(age.num_seconds().abs() < 60);
    assert!(s.date.ends_with("+00:00"));
}

#[test]
fn find_snapshot_index_finds_first() {
    let mut h = history();
    h.push(snap("s2", "2024-01-05T00:00:00+00:00", "again"));
    assert_eq!(find_snapshot_index(&h, "s2"), Some(1));
    assert_eq!(find_snapshot_index(&h, "s1"), Some(0));
    assert_eq!(find_snapshot_index(&h, "zz"), None);
}

#[test]
fn diff_defaults_to_last_two() {
    let d = select_diff(file(), history(), None, None).unwrap();
    assert_eq!(d.file_id, "f-1");
    assert_eq!(d.file_path, "/tmp/notes.txt");
    assert_eq!(d.from.id, "s3");
    assert_eq!(d.to.id, "s4");
    assert_eq!(d.to.content, "four");
}

#[test]
fn diff_from_and_to() {
    let d = select_diff(file(), history(), Some("s1"), Some("s3")).unwrap();
    assert_eq!((d.from.id.as_str(), d.to.id.as_str()), ("s1", "s3"));
    let d = select_diff(file(), history(), Some("s4"), Some("s2")).unwrap();
    assert_eq!((d.from.id.as_str(), d.to.id.as_str()), ("s4", "s2"));
}

#[test]
fn diff_from_only_goes_to_latest() {
    let d = select_diff(file(), history(), Some("s2"), None).unwrap();
    assert_eq!((d.from.id.as_str(), d.to.id.as_str()), ("s2", "s4"));
}

#[test]
fn diff_to_only_uses_previous() {
    let d = select_diff(file(), history(), None, Some("s3")).unwrap();
    assert_eq!((d.from.id.as_str(), d.to.id.as_str()), ("s2", "s3"));
}

#[test]
fn diff_errors() {
    let one = vec![snap("s1", "2024-01-01T00:00:00+00:00", "one")];
    assert_eq!(
        select_diff(file(), one, None, None).err().unwrap(),
        "not enough snapshots to diff"
    );
    assert_eq!(
        select_diff(file(), Vec::new(), Some("s1"), Some("s2")).err().unwrap(),
        "not enough snapshots to diff"
    );
    assert_eq!(
        select_diff(file(), history(), Some("nope"), Some("also")).err().unwrap(),
        "snapshot \"nope\" not found"
    );
    assert_eq!(
        select_diff(file(), history(), Some("s1"), Some("also")).err().unwrap(),
        "snapshot \"also\" not found"
    );
    assert_eq!(
        select_diff(file(), history(), Some("x"), None).err().unwrap(),
        "snapshot \"x\" not found"
    );
    assert_eq!(
        select_diff(file(), history(), None, Some("y")).err().unwrap(),
        "snapshot \"y\" not found"
    );
    assert_eq!(
        select_diff(file(), history(), None, Some("s1")).err().unwrap(),
        "no snapshot available before the target snapshot"
    );
}

#[test]
fn rollback_defaults_to_latest() {
    let r = select_rollback(file(), history(), None).unwrap();
    assert_eq!(r.file_id, "f-1");
    assert_eq!(r.file_path, "/tmp/notes.txt");
    assert_eq!(r.snapshot.id, "s4");
    assert_eq!(r.snapshot.content, "four");
}

#[test]
fn rollback_to_named_snapshot() {
    let r = select_rollback(file(), history(), Some("s2")).unwrap();
    assert_eq!(r.snapshot.id, "s2");
    assert_eq!(r.snapshot.date, "2024-01-02T00:00:00+00:00");
}

#[test]
fn rollback_errors() {
    assert_eq!(
        select_rollback(file(), Vec::new(), None).err().unwrap(),
        "no snapshots available to roll back"
    );
    assert_eq!(
        select_rollback(file(), Vec::new(), Some("s1")).err().unwrap(),
        "no snapshots available to roll back"
    );
    assert_eq!(
        select_rollback(file(), history(), Some("missing")).err().unwrap(),
        "snapshot \"missing\" not found"
    );
}

#[test]
fn log_keeps_history() {
    let l = log_of(file(), history());
    assert_eq!(l.file_id, "f-1");
    assert_eq!(l.file_path, "/tmp/notes.txt");
    let ids: Vec<&str> = l.snapshots.iter().map(|s| s.id.as_str()).collect();
    assert_eq!(ids, vec!["s1", "s2", "s3", "s4"]);
}

fn repos_with_history() -> (MemoryFiles, MemorySnapshots) {
    let mut files = MemoryFiles::default();
    files.track(file());
    let mut snaps = MemorySnapshots::default();
    for s in history() {
        snaps.add("f-1", s);
    }
    (files, snaps)
}

#[test]
fn service_info_diff_and_rollback_go_through_repositories() {
    let (files, snaps) = repos_with_history();
    let log = get_info("/tmp/notes.txt", &files, &snaps);
    assert_eq!(log.file_id, "f-1");
    assert_eq!(log.snapshots.len(), 4);
    let d = get_diff("/tmp/notes.txt", None, Some("s2"), &files, &snaps).unwrap();
    assert_eq!((d.from.id.as_str(), d.to.id.as_str()), ("s1", "s2"));
    let r = get_rollback("f-1", None, &files, &snaps).unwrap();
    assert_eq!(r.snapshot.id, "s4");
    assert_eq!(r.file_path, "/tmp/notes.txt");
}

#[test]
fn service_track_list_and_stop() {
    let mut files = MemoryFiles::default();
    let mut snaps = MemorySnapshots::default();
    assert!(start_track_file("/b/second", &mut files));
    assert!(start_track_file("/a/first", &mut files));
    let listed = list(&files);
    let paths: Vec<&str> = listed.iter().map(|f| f.path.as_str()).collect();
    assert_eq!(paths, vec!["/a/first", "/b/second"]);
    for f in &listed {
        assert_random_v4_text(&f.id);
    }
    stop_to_track_file("/a/first", &mut files, &mut snaps);
    assert_eq!(snaps.calls, vec!["delete_all /a/first".to_string()]);
    assert_eq!(files.calls.last().unwrap(), "remove /a/first");
    assert_eq!(list(&files).len(), 1);
}

#[test]
fn service_add_and_remove_snapshot() {
    let mut snaps = MemorySnapshots::default();
    assert!(add_snapshot("/a/file", "content one", &mut snaps));
    let stored = snaps.get_by_id_or_path("/a/file");
    assert_eq!(stored.len(), 1);
    assert_eq!(stored[0].content, "content one");
    assert_random_v4_text(&stored[0].id);
    remove_snapshot(&stored[0].id, &mut snaps);
    assert_eq!(snaps.calls, vec![format!("delete {}", stored[0].id)]);
    assert!(snaps.get_by_id_or_path("/a/file").is_empty());
}
