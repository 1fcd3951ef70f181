use fhist::domain::date::date_from_reading;
use fhist::domain::entity::{FileEntity, SnapshotEntity};
use fhist::domain::repository::{FileRepository, SnapshotRepository};
use fhist::domain::service::{
    add_snapshot_from_draw, file_record_from_bits, snapshot_from_draw, track_file_from_bits,
};
use fhist::domain::uuid_util::uuid_from_bits;

#[derive(Default)]
struct Files {
    kept: Vec<FileEntity>,
}

impl FileRepository for Files {
    fn track(&mut self, file: FileEntity) {
        self.kept.push(file);
    }
    fn remove(&mut self, _id_path: &str) {}
    fn update(&mut self, _file: FileEntity) {}
    fn get_by_id_or_path(&self, _id_path: &str) -> FileEntity {
        self.kept[0].clone()
    }
    fn list(&self) -> Vec<FileEntity> {
        self.kept.clone()
    }
}

#[derive(Default)]
struct Snapshots {
    added: Vec<(String, SnapshotEntity)>,
}

impl SnapshotRepository for Snapshots {
    fn delete_all_by_file_id_path(&mut self, _file_id_path: &str) {}
    fn delete_by_snapshot_id(&mut self, _snapshot_id: &str) {}
    fn add(&mut self, file_id_path: &str, snapshot: SnapshotEntity) {
        self.added.push((file_id_path.to_string(), snapshot));
    }
    fn get_by_id_or_path(&self, _file_id_path: &str) -> Vec<SnapshotEntity> {
        Vec::new()
    }
}

#[test]
fn uuid_bits_are_marked_version_4() {
    assert_eq!(uuid_from_bits(0), "00000000-0000-4000-8000-000000000000");
    assert_eq!(uuid_from_bits(u128::MAX), "ffffffff-ffff-4fff-bfff-ffffffffffff");
}

#[test]
fn clock_readings_become_utc_text() {
    assert_eq!(date_from_reading(0, 0), Some("1970-01-01T00:00:00+00:00".to_string()));
    assert_eq!(
        date_from_reading(1_714_557_600, 500_000_000),
        Some("2024-05-01T10:00:00.500+00:00".to_string())
    );
    assert_eq!(date_from_reading(u64::MAX, 0), None);
    assert_eq!(date_from_reading(i64::MAX as u64, 0), None);
}

#[test]
fn records_from_drawn_bits() {
    let f = file_record_from_bits(0, "/x/y");
    assert_eq!(f.path, "/x/y");
    assert_eq!(f.id, "00000000-0000-4000-8000-000000000000");
    let mut files = Files::default();
    track_file_from_bits(u128::MAX, "/z", &mut files);
    assert_eq!(files.kept.len(), 1);
    assert_eq!(files.kept[0].id, "ffffffff-ffff-4fff-bfff-ffffffffffff");
    assert_eq!(files.kept[0].path, "/z");
}

#[test]
fn snapshots_from_a_draw() {
    let s = snapshot_from_draw(0, 0, 0, "body").unwrap();
    assert_eq!(s.id, "00000000-0000-4000-8000-000000000000");
    assert_eq!(s.date, "1970-01-01T00:00:00+00:00");
    assert_eq!(s.content, "body");
    assert!(snapshot_from_draw(0, u64::MAX, 0, "body").is_none());
}

#[test]
fn drawn_snapshots_reach_the_store_exactly_when_dated() {
    let mut store = Snapshots::default();
    assert!(add_snapshot_from_draw("/p", "c1", 0, 60, 0, &mut store));
    assert!(!add_snapshot_from_draw("/p", "c2", 0, u64::MAX, 0, &mut store));
    assert_eq!(store.added.len(), 1);
    assert_eq!(store.added[0].0, "/p");
    assert_eq!(store.added[0].1.content, "c1");
    assert_eq!(store.added[0].1.date, "1970-01-01T00:01:00+00:00");
}
