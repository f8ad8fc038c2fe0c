use hearsay::model::SessionId;
use hearsay::routes::{asset_content_type, asset_path, replay_segments};
use hearsay::sessions::{
    audio_missing, json_string, new_mic_session, parse_session_id, ActiveSessions, ApiError,
    CreateRequest, StartParams,
};
use hearsay::model::Segment;

const ID: &str = "01ARZ3NDEKTSV4RRFFQ69G5FAV";

#[test]
fn bad_session_id_is_a_bad_request() {
    match parse_session_id("not-a-ulid") {
        Err(e @ ApiError::BadRequest(_)) => {
            assert_eq!(e.status_code(), 400);
            if let ApiError::BadRequest(m) = e {
                assert_eq!(m, "invalid session id: not-a-ulid");
            }
        }
        other => panic!("unexpected {other:?}"),
    }
    let id = parse_session_id(ID).unwrap();
    assert_eq!(id.to_text(), ID);
    // Lower case reads the same.
    assert_eq!(parse_session_id(&ID.to_lowercase()).unwrap(), id);
}

#[test]
fn session_id_text_round_trips() {
    for v in [0u128, 1, 42, u128::MAX, 0x0123_4567_89ab_cdef_0123_4567_89ab_cdef] {
        let id = SessionId { value: v };
        let t = id.to_text();
        assert_eq!(t.len(), 26);
        assert_eq!(SessionId::parse(&t), Some(id));
    }
}

#[test]
fn session_id_text_is_base32_most_significant_first() {
    assert_eq!(SessionId { value: 0 }.to_text(), "00000000000000000000000000");
    assert_eq!(SessionId { value: 31 }.to_text(), "0000000000000000000000000Z");
    assert_eq!(SessionId { value: u128::MAX }.to_text(), "7ZZZZZZZZZZZZZZZZZZZZZZZZZ");
    let v = 0x4141_4141_4141_4141_4141_4141_4141_4141u128;
    assert_eq!(SessionId { value: v }.to_text(), "21850M2GA1850M2GA1850M2GA1");
    // Digits above the top three bits are cut off when read back.
    assert_eq!(SessionId::parse("80000000000000000000000000"), Some(SessionId { value: 0 }));
    assert_eq!(SessionId::parse("0000000000000000000000000I"), None);
    assert_eq!(SessionId::parse("000000000000000000000000000"), None);
}

#[test]
fn stopping_twice_is_not_found() {
    let mut live: ActiveSessions<&str> = ActiveSessions::new();
    let id = SessionId { value: 5 };
    live.insert(id, "capture");
    assert!(live.is_active(id));
    assert!(matches!(live.ensure_inactive(id), Err(ApiError::BadRequest(_))));
    assert_eq!(live.active_ids(), vec![id]);
    assert_eq!(live.take(id).unwrap(), "capture");
    assert!(!live.is_active(id));
    assert!(live.ensure_inactive(id).is_ok());
    match live.take(id) {
        Err(e @ ApiError::NotFound(_)) => {
            assert_eq!(e.status_code(), 404);
            if let ApiError::NotFound(m) = e {
                assert_eq!(m, format!("active session {}", id.to_text()));
            }
        }
        other => panic!("unexpected {other:?}"),
    }
    assert!(live.active_ids().is_empty());
}

#[test]
fn active_ids_lists_each_session_once() {
    let mut live: ActiveSessions<u8> = ActiveSessions::new();
    for v in [3u128, 1, 2, 3] {
        live.insert(SessionId { value: v }, 0);
    }
    let mut ids: Vec<u128> = live.active_ids().into_iter().map(|i| i.value).collect();
    ids.sort();
    assert_eq!(ids, vec![1, 2, 3]);
    assert!(live.get(SessionId { value: 2 }).is_some());
    assert!(live.get(SessionId { value: 9 }).is_none());
}

#[test]
fn create_request_defaults_the_name() {
    let req = CreateRequest::Mic { name: None, language: Some("pl".into()), device_id: Some("usb".into()) };
    let (name, language, params) = req.into_start("Recording 2024-01-01 10:00".into());
    assert_eq!(name, "Recording 2024-01-01 10:00");
    assert_eq!(language.as_deref(), Some("pl"));
    match params {
        StartParams::Mic { device_id } => assert_eq!(device_id.as_deref(), Some("usb")),
    }
    let named = CreateRequest::Mic { name: Some("standup".into()), language: None, device_id: None };
    assert_eq!(named.into_start("x".into()).0, "standup");
}

fn seg(seq: u32, start_ms: u32, end_ms: u32, text: &str) -> Segment {
    Segment {
        session_id: SessionId { value: 1 },
        seq,
        start_ms,
        end_ms,
        text: text.into(),
        language: None,
        confidence_bits: None,
        speaker_id: None,
    }
}

#[test]
fn replay_skips_segments_before_start_ms() {
    let segments = vec![
        seg(0, 0, 500, "skip me"),
        seg(1, 600, 1_000, "still skip"),
        seg(2, 1_500, 2_000, "keep me"),
    ];
    let kept: Vec<String> = replay_segments(segments, 1_200).into_iter().map(|s| s.text).collect();
    assert_eq!(kept, vec!["keep me".to_string()]);
}

#[test]
fn replay_from_the_start_keeps_everything_that_lasts() {
    let segments = vec![seg(0, 0, 0, "empty"), seg(1, 0, 500, "a"), seg(2, 1_000, 1_800, "b")];
    let kept: Vec<u32> = replay_segments(segments, 0).into_iter().map(|s| s.seq).collect();
    assert_eq!(kept, vec![1, 2]);
}

#[test]
fn asset_paths_and_types() {
    assert_eq!(asset_path("/"), "index.html");
    assert_eq!(asset_path(""), "index.html");
    assert_eq!(asset_path("//assets/app.js"), "assets/app.js");
    assert_eq!(asset_content_type("index.html"), "text/html");
    assert_eq!(asset_content_type("assets/app.css"), "text/css");
    assert_eq!(asset_content_type("LICENSE"), "application/octet-stream");
}

#[test]
fn missing_audio_is_not_found() {
    let id = SessionId { value: 0 };
    match audio_missing(id) {
        ApiError::NotFound(m) => {
            assert_eq!(m, "audio file for session 00000000000000000000000000 missing on disk")
        }
        other => panic!("unexpected {other:?}"),
    }
}

#[test]
fn json_strings_are_escaped() {
    assert_eq!(json_string("AT2020 USB"), "\"AT2020 USB\"");
    assert_eq!(json_string("a\"b\\c"), "\"a\\\"b\\\\c\"");
    assert_eq!(json_string("\n\r\t\u{8}\u{c}\u{1}\u{1f}"), "\"\\n\\r\\t\\b\\f\\u0001\\u001f\"");
    assert_eq!(json_string("żółw \u{7f}"), "\"żółw \u{7f}\"");
    for s in ["", "plain", "q\"uote", "tab\tnew\nline", "\u{0}\u{1b}", "żółw"] {
        assert_eq!(json_string(s), serde_json::to_string(s).unwrap());
    }
}

#[test]
fn mic_session_names_its_device() {
    let id = SessionId { value: 1 };
    let m = new_mic_session(id, "n".into(), None, Some("Mic \"2\""), "/a.wav".into(), 5);
    assert_eq!(m.source_meta, "{\"device_id\":\"Mic \\\"2\\\"\"}");
    let d = new_mic_session(id, "n".into(), None, None, "/a.wav".into(), 5);
    assert_eq!(d.source_meta, "{\"device_id\":null}");
}
