use fhist::adapters::repository::{removed_message, tracked_message, updated_message, LocalRepositoty};
use fhist::domain::factory::build_file;
use fhist::domain::repository::FileRepository;
use fhist::output::{
    clip_content, diff_info_lines, file_info_lines, format_content, indent_content,
    rollback_info_lines, snapshot_info_lines, trim_newlines_end, CONTENT_PREVIEW_LIMIT,
};
use fhist::paths::absolute_path;

#[test]
fn trimming_removes_only_trailing_newlines() {
    assert_eq!(trim_newlines_end("a\nb\n\n"), "a\nb");
    assert_eq!(trim_newlines_end("\n\n"), "");
    assert_eq!(trim_newlines_end("abc"), "abc");
    assert_eq!(trim_newlines_end("abc \n"), "abc ");
}

#[test]
fn clip_keeps_short_content() {
    assert_eq!(clip_content("hello", 5), "hello");
    assert_eq!(clip_content("hello", 10), "hello");
    assert_eq!(clip_content("", 0), "");
}

#[test]
fn clip_shortens_long_content() {
    assert_eq!(clip_content("hello world", 5), "hello...");
    assert_eq!(clip_content("abc", 0), "...");
}

#[test]
fn clip_counts_bytes_but_keeps_characters() {
    // 3 characters, 6 bytes: longer than 4 bytes, but only 3 characters to keep.
    assert_eq!(clip_content("ééé", 4), "ééé...");
    assert_eq!(clip_content("ééé", 6), "ééé");
    assert_eq!(clip_content("éééé", 2), "éé...");
}

#[test]
fn format_content_cases() {
    assert_eq!(format_content(""), "<empty>");
    assert_eq!(format_content("\n\n\n"), "<empty>");
    assert_eq!(format_content("line one\nline two\n"), "line one\nline two");
    let long: String = "x".repeat(CONTENT_PREVIEW_LIMIT + 50);
    let shown = format_content(&long);
    assert_eq!(shown.chars().count(), CONTENT_PREVIEW_LIMIT + 3);
    assert!(shown.ends_with("..."));
    let exact: String = "y".repeat(CONTENT_PREVIEW_LIMIT);
    assert_eq!(format_content(&exact), exact);
}

#[test]
fn indent_after_every_newline() {
    assert_eq!(indent_content("a\nb\nc"), "a\n  b\n  c");
    assert_eq!(indent_content("plain"), "plain");
    assert_eq!(indent_content("\n"), "\n  ");
}

#[test]
fn file_info_lines_text() {
    assert_eq!(
        file_info_lines("abc", "/p/q"),
        vec!["[file]".to_string(), "id: abc".to_string(), "path: /p/q".to_string()]
    );
}

#[test]
fn snapshot_info_lines_text() {
    let short = snapshot_info_lines("s1", "2024-01-01T00:00:00+00:00", "x\ny\n", false);
    assert_eq!(
        short,
        vec![
            "[snapshot]".to_string(),
            "id: s1".to_string(),
            "time: 2024-01-01T00:00:00+00:00".to_string(),
        ]
    );
    let verbose = snapshot_info_lines("s1", "2024-01-01T00:00:00+00:00", "x\ny\n", true);
    assert_eq!(verbose.len(), 5);
    assert_eq!(verbose[3], "content:");
    assert_eq!(verbose[4], "  x\n  y\n  ");
    let empty = snapshot_info_lines("s2", "t", "", true);
    assert_eq!(empty[4], "  ");
    let long: String = "a".repeat(CONTENT_PREVIEW_LIMIT + 1);
    let full = snapshot_info_lines("s3", "t", &long, true);
    assert_eq!(full[4], format!("  {long}"));
}

#[test]
fn diff_and_rollback_lines_text() {
    let lines = diff_info_lines("f", "/p", "a", "ta", "old\n", "b", "tb", "new\n");
    assert_eq!(
        lines,
        vec![
            "[file]", "id: f", "path: /p", "[snapshot]", "id: a", "time: ta", "content:",
            "  old\n  ", "[snapshot]", "id: b", "time: tb", "content:", "  new\n  ",
        ]
        .into_iter()
        .map(String::from)
        .collect::<Vec<_>>()
    );
    assert_eq!(
        rollback_info_lines("f", "/p", "s9"),
        vec!["[rollback]", "id: f", "path: /p", "snapshot: s9"]
            .into_iter()
            .map(String::from)
            .collect::<Vec<_>>()
    );
}

#[test]
fn local_repository_answers_example() {
    let mut repo = LocalRepositoty;
    let f = repo.get_by_id_or_path("whatever");
    assert_eq!(f.id, "id example");
    assert_eq!(f.path, "path example");
    let all = repo.list();
    assert_eq!(all.len(), 1);
    assert_eq!(all[0].path, "path example");
    repo.track(build_file("i", "p"));
    repo.remove("p");
    repo.update(build_file("i", "p"));
}

#[test]
fn local_repository_messages() {
    assert_eq!(tracked_message("/a"), "File with path \"/a\" was tracked");
    assert_eq!(removed_message("/a"), "File with path(or id)\"/a\" was removed");
    assert_eq!(updated_message("id1"), "File with id\"id1\" was updated");
}

#[test]
fn absolute_paths_are_kept() {
    assert_eq!(absolute_path("/etc/hosts", Some("/home/u")), "/etc/hosts");
    assert_eq!(absolute_path("/etc/hosts", None), "/etc/hosts");
}

#[test]
fn relative_paths_join_current_dir() {
    assert_eq!(absolute_path("notes.txt", Some("/home/u")), "/home/u/notes.txt");
    assert_eq!(absolute_path("a/b.txt", Some("/home/u/")), "/home/u/a/b.txt");
    assert_eq!(absolute_path("notes.txt", None), "notes.txt");
}
