use fhist::domain::entity::{FileEntity, SnapshotEntity};
use fhist::domain::factory::build_file;
use fhist::domain::repository::SnapshotRepository;
use fhist::watcher::{
    refresh_due, triggers_snapshot, SnapshotWatchState, WatchEventKind,
    WATCH_REFRESH_INTERVAL_MS,
};

#[derive(Default)]
struct Recorder {
    added: Vec<(String, String)>,
}

impl SnapshotRepository for Recorder {
    fn delete_all_by_file_id_path(&mut self, _file_id_path: &str) {}
    fn delete_by_snapshot_id(&mut self, _snapshot_id: &str) {}
    fn add(&mut self, file_id_path: &str, snapshot: SnapshotEntity) {
        self.added.push((file_id_path.to_string(), snapshot.content));
    }
    fn get_by_id_or_path(&self, _file_id_path: &str) -> Vec<SnapshotEntity> {
        Vec::new()
    }
}

#[test]
fn only_create_and_modify_trigger_snapshots() {
    assert!(triggers_snapshot(WatchEventKind::Create));
    assert!(triggers_snapshot(WatchEventKind::Modify));
    assert!(!triggers_snapshot(WatchEventKind::Access));
    assert!(!triggers_snapshot(WatchEventKind::Remove));
    assert!(!triggers_snapshot(WatchEventKind::Any));
    assert!(!triggers_snapshot(WatchEventKind::Other));
}

#[test]
fn refresh_every_two_seconds() {
    assert_eq!(WATCH_REFRESH_INTERVAL_MS, 2000);
    assert!(!refresh_due(1999));
    assert!(refresh_due(2000));
    assert!(refresh_due(10_000));
    assert!(!refresh_due(0));
}

#[test]
fn each_path_is_watched_once() {
    let mut state = SnapshotWatchState::new();
    assert!(!state.is_watched("/a"));
    assert!(state.start_watching("/a"));
    assert!(state.is_watched("/a"));
    assert!(!state.start_watching("/a"));
    assert!(state.start_watching("/b"));
    assert!(state.is_watched("/b"));
}

fn files(paths: &[&str]) -> Vec<FileEntity> {
    paths.iter().map(|p| build_file("id", p)).collect()
}

#[test]
fn refresh_plans_only_unwatched_paths() {
    let mut state = SnapshotWatchState::new();
    let plan = state.plan_refresh(&files(&["/a", "/b", "/c"]));
    assert_eq!(plan, vec!["/a", "/b", "/c"]);
    state.apply_refresh(&plan, &vec![true, false, true]);
    assert!(state.is_watched("/a"));
    assert!(!state.is_watched("/b"));
    assert!(state.is_watched("/c"));
    let again = state.plan_refresh(&files(&["/a", "/b", "/c", "/d"]));
    assert_eq!(again, vec!["/b", "/d"]);
    state.apply_refresh(&again, &vec![true, true]);
    assert!(state.plan_refresh(&files(&["/a", "/b", "/c", "/d"])).is_empty());
}

#[test]
fn refresh_plans_each_path_once() {
    let state = SnapshotWatchState::new();
    let plan = state.plan_refresh(&files(&["/x", "/x", "/y"]));
    assert_eq!(plan, vec!["/x", "/y"]);
}

#[test]
fn identical_content_is_skipped() {
    let mut state = SnapshotWatchState::new();
    let mut repo = Recorder::default();
    assert!(state.record_change("/a", "v1", &mut repo));
    assert!(!state.record_change("/a", "v1", &mut repo));
    assert!(state.record_change("/b", "v1", &mut repo));
    assert!(state.record_change("/a", "v2", &mut repo));
    assert!(state.record_change("/a", "v1", &mut repo));
    assert!(!state.record_change("/a", "v1", &mut repo));
    assert_eq!(
        repo.added,
        vec![
            ("/a".to_string(), "v1".to_string()),
            ("/b".to_string(), "v1".to_string()),
            ("/a".to_string(), "v2".to_string()),
            ("/a".to_string(), "v1".to_string()),
        ]
    );
}

#[test]
fn only_changes_from_the_previous_content_are_recorded() {
    let mut state = SnapshotWatchState::new();
    let mut repo = Recorder::default();
    for c in ["A", "A", "B", "B", "A"] {
        state.record_change("/p", c, &mut repo);
    }
    let contents: Vec<String> = repo.added.iter().map(|(_, c)| c.clone()).collect();
    assert_eq!(contents, vec!["A", "B", "A"]);
}

#[test]
fn note_content_reports_changes() {
    let mut state = SnapshotWatchState::new();
    assert!(state.note_content("/x", ""));
    assert!(!state.note_content("/x", ""));
    assert!(state.note_content("/x", "a"));
    assert!(!state.is_watched("/x"));
}

#[test]
fn paths_are_compared_as_paths() {
    let mut state = SnapshotWatchState::new();
    assert!(state.start_watching("/a/b"));
    assert!(!state.start_watching("/a//b"));
    assert!(!state.start_watching("/a/./b/"));
    assert!(state.is_watched("/a/b/"));
    assert!(state.start_watching("/a/c"));
    let mut repo = Recorder::default();
    assert!(state.record_change("/x/y", "v", &mut repo));
    assert!(!state.record_change("/x//y", "v", &mut repo));
    assert_eq!(repo.added.len(), 1);
    let plan = state.plan_refresh(&files(&["/a//b", "/n/m", "/n/./m"]));
    assert_eq!(plan, vec!["/n/m"]);
}
