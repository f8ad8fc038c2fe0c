use hearsay::model::{SessionStatus, SourceKind};
use hearsay::storage::{
    session_from_row, source_kind_from_sql, source_kind_to_sql, status_from_sql, status_to_sql,
    SessionRow, StorageError,
};

fn row(id: &str, kind: &str, status: &str) -> SessionRow {
    SessionRow {
        id: id.into(),
        name: "team standup".into(),
        source_kind: kind.into(),
        source_meta: "{\"device\":\"AT2020 USB\"}".into(),
        language: Some("pl".into()),
        audio_path: "/tmp/a.wav".into(),
        started_at_ms: 1_700_000_000_000,
        ended_at_ms: None,
        status: status.into(),
    }
}

const ID: &str = "01ARZ3NDEKTSV4RRFFQ69G5FAV";

#[test]
fn enum_texts_round_trip() {
    for k in [SourceKind::Mic, SourceKind::SystemAudio, SourceKind::Meet] {
        assert_eq!(source_kind_from_sql(source_kind_to_sql(k)).unwrap(), k);
    }
    for s in [SessionStatus::Active, SessionStatus::Completed, SessionStatus::Failed] {
        assert_eq!(status_from_sql(status_to_sql(s)).unwrap(), s);
    }
    assert_eq!(source_kind_to_sql(SourceKind::SystemAudio), "system_audio");
    assert_eq!(status_to_sql(SessionStatus::Completed), "completed");
}

#[test]
fn unknown_enum_text_is_corrupt() {
    match source_kind_from_sql("zoom") {
        Err(StorageError::CorruptEnum { column, value }) => {
            assert_eq!(column, "source_kind");
            assert_eq!(value, "zoom");
        }
        other => panic!("unexpected {other:?}"),
    }
    match status_from_sql("Active") {
        Err(StorageError::CorruptEnum { column, value }) => {
            assert_eq!(column, "status");
            assert_eq!(value, "Active");
        }
        other => panic!("unexpected {other:?}"),
    }
}

#[test]
fn rows_decode_into_sessions() {
    let m = session_from_row(row(ID, "mic", "active")).unwrap();
    assert_eq!(m.id.to_text(), ID);
    assert_eq!(m.source_kind, SourceKind::Mic);
    assert_eq!(m.status, SessionStatus::Active);
    assert_eq!(m.language.as_deref(), Some("pl"));
    assert_eq!(m.started_at_ms, 1_700_000_000_000);
}

#[test]
fn bad_rows_report_the_first_bad_column() {
    match session_from_row(row("not-a-ulid", "zoom", "x")) {
        Err(StorageError::InvalidSessionId(v)) => assert_eq!(v, "not-a-ulid"),
        other => panic!("unexpected {other:?}"),
    }
    match session_from_row(row(ID, "zoom", "x")) {
        Err(StorageError::CorruptEnum { column, .. }) => assert_eq!(column, "source_kind"),
        other => panic!("unexpected {other:?}"),
    }
    match session_from_row(row(ID, "meet", "x")) {
        Err(StorageError::CorruptEnum { column, .. }) => assert_eq!(column, "status"),
        other => panic!("unexpected {other:?}"),
    }
}
