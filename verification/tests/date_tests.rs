use fhist::domain::date::parse_datetime;
use fhist::domain::factory::snapshot_from_row;

#[test]
fn stored_dates_are_rewritten_in_utc() {
    assert_eq!(
        parse_datetime("2024-05-01T12:00:00+02:00"),
        Some("2024-05-01T10:00:00+00:00".to_string())
    );
    assert_eq!(
        parse_datetime("2024-05-01T10:00:00.5+00:00"),
        Some("2024-05-01T10:00:00.500+00:00".to_string())
    );
    assert_eq!(
        parse_datetime("2024-05-01T10:00:00Z"),
        Some("2024-05-01T10:00:00+00:00".to_string())
    );
}

#[test]
fn utc_dates_read_back_unchanged() {
    let t = "2024-01-02T03:04:05.123456789+00:00";
    assert_eq!(parse_datetime(t), Some(t.to_string()));
}

#[test]
fn malformed_dates_are_refused() {
    assert_eq!(parse_datetime(""), None);
    assert_eq!(parse_datetime("yesterday"), None);
    assert_eq!(parse_datetime("2024-13-01T00:00:00+00:00"), None);
}

#[test]
fn snapshot_rows() {
    let s = snapshot_from_row(
        "id-1".to_string(),
        "2024-05-01T12:00:00+02:00",
        "body".to_string(),
    )
    .unwrap();
    assert_eq!(s.id, "id-1");
    assert_eq!(s.content, "body");
    assert_eq!(s.date, "2024-05-01T10:00:00+00:00");
    assert!(snapshot_from_row("id".to_string(), "bad", "c".to_string()).is_none());
}

#[test]
fn current_time_is_utc_rfc3339() {
    let now = fhist::domain::date::now_rfc3339().expect("clock after the epoch");
    assert!(now.ends_with("+00:00"));
    assert_eq!(parse_datetime(&now), Some(now.clone()));
    let parsed = chrono::DateTime::parse_from_rfc3339(&now).unwrap();
    assert!(chrono::Utc::now().signed_duration_since(parsed).num_seconds().abs() < 60);
}
