use hearsay::devices::{build_device_list, choose_device, AudioError, DeviceChoice, DeviceProbe};
use hearsay::icon::icon_rgba;
use hearsay::model::{SessionId, Segment};
use hearsay::pipeline_args::parse_args;
use hearsay::summarize::{
    check_transcript, default_max_tokens, default_n_ctx, default_n_gpu_layers, Generation,
    GenerationStep, SummarizeError, SummarizerConfig,
};
use hearsay::summarize_child::{check_resummarize, child_outcome, to_api_error, SummarizeChildError};
use hearsay::sessions::ApiError;
use hearsay::summarize_test_args::{parse_summarize_test_args, SummarizeTestArgsError};
use hearsay::transcribe::{number_segments, segment_from_decoder, transcription_language, TranscribedSegment};

fn args(v: &[&str]) -> Result<hearsay::pipeline_args::Args, String> {
    parse_args(&v.iter().map(|s| s.to_string()).collect())
}

#[test]
fn pipeline_args_are_read() {
    let a = args(&["m.wav", "--whisper", "w.bin", "--language", "pl"]).unwrap();
    assert_eq!(a.audio, "m.wav");
    assert_eq!(a.whisper_model, "w.bin");
    assert_eq!(a.gemma_model, None);
    assert_eq!(a.language.as_deref(), Some("pl"));
    let b = args(&["--gemma", "g.gguf", "--whisper", "w.bin", "x.wav"]).unwrap();
    assert_eq!(b.gemma_model.as_deref(), Some("g.gguf"));
    assert_eq!(b.audio, "x.wav");
}

#[test]
fn pipeline_args_errors() {
    assert_eq!(args(&["-h"]).unwrap_err(), "help");
    assert_eq!(args(&["a.wav", "--help"]).unwrap_err(), "help");
    assert_eq!(args(&["a.wav", "b.wav"]).unwrap_err(), "unexpected argument: b.wav");
    assert_eq!(args(&["--whisper", "w"]).unwrap_err(), "missing audio file path");
    assert_eq!(args(&["a.wav"]).unwrap_err(), "missing --whisper PATH");
    // A trailing flag has no value, which clears an earlier one.
    assert_eq!(args(&["a.wav", "--whisper", "w", "--whisper"]).unwrap_err(), "missing --whisper PATH");
}

#[test]
fn icon_draws_a_white_h_on_black() {
    let px = icon_rgba();
    assert_eq!(px.len(), 32 * 32 * 4);
    let at = |x: usize, y: usize| &px[(y * 32 + x) * 4..(y * 32 + x) * 4 + 4];
    assert_eq!(at(0, 0), &[0, 0, 0, 255]);
    assert_eq!(at(9, 6), &[255, 255, 255, 255]);
    assert_eq!(at(22, 20), &[255, 255, 255, 255]);
    assert_eq!(at(15, 16), &[255, 255, 255, 255]);
    assert_eq!(at(22, 10), &[0, 0, 0, 255]);
    assert_eq!(at(31, 31), &[0, 0, 0, 255]);
}

#[test]
fn device_list_skips_unreadable_devices() {
    let probes = vec![
        DeviceProbe { name: Some("USB Mic".into()), config: Some((48_000, 2)) },
        DeviceProbe { name: None, config: Some((44_100, 1)) },
        DeviceProbe { name: Some("Built-in".into()), config: None },
        DeviceProbe { name: Some("Headset".into()), config: Some((16_000, 1)) },
    ];
    let list = build_device_list(probes, Some("Headset".into()));
    assert_eq!(list.len(), 2);
    assert_eq!(list[0].id, "USB Mic");
    assert!(!list[0].is_default);
    assert_eq!(list[0].default_sample_rate, 48_000);
    assert!(list[1].is_default);
    assert_eq!(list.iter().filter(|d| d.is_default).count(), 1);
}

#[test]
fn device_choice() {
    let names = vec![None, Some("a".to_string()), Some("b".to_string()), Some("a".to_string())];
    assert_eq!(choose_device(Some("a"), &names, true).unwrap(), DeviceChoice::Listed(1));
    assert!(matches!(choose_device(Some("zz"), &names, true), Err(AudioError::DeviceNotFound(n)) if n == "zz"));
    assert_eq!(choose_device(None, &names, true).unwrap(), DeviceChoice::HostDefault);
    assert!(matches!(choose_device(None, &names, false), Err(AudioError::NoDevices)));
}

#[test]
fn decoder_segments_are_session_relative() {
    let s = segment_from_decoder("  hello there \n", 150, 320, 20_000);
    assert_eq!(s.start_ms, 21_500);
    assert_eq!(s.end_ms, 23_200);
    assert_eq!(s.text, "hello there");
    assert!(s.language.is_none());
    let neg = segment_from_decoder("x", -5, 10, 7);
    assert_eq!(neg.start_ms, 7);
    let sat = segment_from_decoder("x", 0, 1_000, u32::MAX - 10);
    assert_eq!(sat.end_ms, u32::MAX);
}

#[test]
fn transcribed_segments_are_numbered_in_order() {
    let raw = vec![
        TranscribedSegment { start_ms: 0, end_ms: 10, text: "a".into(), language: None },
        TranscribedSegment { start_ms: 10, end_ms: 20, text: "b".into(), language: Some("en".into()) },
    ];
    let out = number_segments(SessionId { value: 9 }, raw);
    assert_eq!(out.len(), 2);
    assert_eq!(out[1].seq, 1);
    assert_eq!(out[1].text, "b");
    assert_eq!(out[1].language.as_deref(), Some("en"));
    assert_eq!(out[0].session_id, SessionId { value: 9 });
    assert!(out[0].speaker_id.is_none() && out[0].confidence_bits.is_none());
}

#[test]
fn auto_language_means_detection() {
    assert_eq!(transcription_language(None), None);
    assert_eq!(transcription_language(Some("auto")), None);
    assert_eq!(transcription_language(Some("pl")).as_deref(), Some("pl"));
}

fn seg(text: &str) -> Segment {
    Segment {
        session_id: SessionId { value: 1 },
        seq: 0,
        start_ms: 0,
        end_ms: 1,
        text: text.into(),
        language: None,
        confidence_bits: None,
        speaker_id: None,
    }
}

#[test]
fn blank_transcripts_are_refused() {
    assert!(matches!(check_transcript(&[]), Err(SummarizeError::EmptyTranscript)));
    assert!(matches!(check_transcript(&[seg(" "), seg("\n\t")]), Err(SummarizeError::EmptyTranscript)));
    assert!(check_transcript(&[seg(" "), seg("hi")]).is_ok());
}

#[test]
fn summarizer_settings() {
    let c = SummarizerConfig::for_model("/models/g.gguf".into());
    assert_eq!(c.model_path, "/models/g.gguf");
    assert_eq!((c.n_ctx, c.n_threads, c.n_gpu_layers, c.max_tokens, c.seed), (32_768, 0, 999, 1_500, 42));
    assert_eq!((default_n_ctx(), default_n_gpu_layers(), default_max_tokens()), (4_096, 999, 1_500));
}

#[test]
fn generation_stops_at_end_token_or_cap() {
    let mut g = Generation::new(10, 3);
    assert!(g.wants_token());
    assert_eq!(g.on_token(false, "Hel"), GenerationStep::Decode { position: 10 });
    assert_eq!(g.on_token(false, "lo"), GenerationStep::Decode { position: 11 });
    assert_eq!(g.on_token(true, "<eos>"), GenerationStep::Done);
    assert!(!g.wants_token());
    assert_eq!(g.output(), "Hello");
    let mut capped = Generation::new(0, 2);
    capped.on_token(false, "a");
    capped.on_token(false, "b");
    assert!(!capped.wants_token());
    assert_eq!(capped.output(), "ab");
}

#[test]
fn child_outcomes() {
    assert_eq!(child_outcome(true, Some(0), "## TL;DR".into(), "noise".into()).unwrap(), "## TL;DR");
    match child_outcome(false, None, String::new(), "  boom \n".into()) {
        Err(SummarizeChildError::ChildFailed { status, stderr }) => {
            assert_eq!(status, -1);
            assert_eq!(stderr, "boom");
        }
        other => panic!("unexpected {other:?}"),
    }
    let e = SummarizeChildError::ChildFailed { status: -3, stderr: "oops".into() };
    assert_eq!(e.message(), "child exited with status -3: oops");
    match to_api_error(e) {
        ApiError::Internal(m) => assert_eq!(m, "summarize: child exited with status -3: oops"),
        other => panic!("unexpected {other:?}"),
    }
    match to_api_error(SummarizeChildError::BinaryMissing("/x/child".into())) {
        ApiError::BadRequest(m) => assert_eq!(m, "summarize worker binary not found at `/x/child`"),
        other => panic!("unexpected {other:?}"),
    }
}

#[test]
fn summaries_need_a_session_a_model_and_a_transcript() {
    let id = SessionId { value: 3 };
    let model = "/data/models/gemma3-12b-q4.gguf";
    match check_resummarize(id, false, model, false, &[]) {
        Err(ApiError::NotFound(m)) => assert_eq!(m, format!("session {}", id.to_text())),
        other => panic!("unexpected {other:?}"),
    }
    match check_resummarize(id, true, model, true, &[]) {
        Err(ApiError::BadRequest(m)) => assert_eq!(m, "no transcript yet"),
        other => panic!("unexpected {other:?}"),
    }
    assert!(check_resummarize(id, true, model, true, &[seg("x")]).is_ok());
    // With a transcript the worker is started even without the model; the
    // worker then reports the failure.
    assert!(check_resummarize(id, true, model, false, &[seg("x")]).is_ok());
    match check_resummarize(id, false, model, true, &[seg("x")]) {
        Err(ApiError::NotFound(_)) => {}
        other => panic!("unexpected {other:?}"),
    }
}

#[test]
fn summarize_400_when_no_model_loaded() {
    // A stored session without segments and without a model on disk.
    let id = SessionId { value: 9 };
    let e = check_resummarize(id, true, "/data/models/gemma3-12b-q4.gguf", false, &[]).unwrap_err();
    assert_eq!(e.status_code(), 400);
    match e {
        ApiError::BadRequest(m) => {
            assert!(m.contains("model"));
            assert_eq!(
                m,
                "summarization model not found at `/data/models/gemma3-12b-q4.gguf`. \
                 Run scripts/setup-models.sh to fetch one."
            );
        }
        other => panic!("unexpected {other:?}"),
    }
}

#[test]
fn generation_positions_are_bounded_only_while_decoding() {
    let mut g = Generation::new(i32::MAX - 1, u32::MAX);
    assert_eq!(g.next_position(), i32::MAX - 1);
    assert_eq!(g.on_token(false, "a"), GenerationStep::Decode { position: i32::MAX - 1 });
    assert_eq!(g.next_position(), i32::MAX);
    assert_eq!(g.on_token(true, ""), GenerationStep::Done);
    assert_eq!(g.output(), "a");
}

fn test_args(v: &[&str]) -> Result<hearsay::summarize_test_args::SummarizeTestArgs, SummarizeTestArgsError> {
    parse_summarize_test_args(&v.iter().map(|s| s.to_string()).collect())
}

#[test]
fn summarize_test_args_are_read() {
    let a = test_args(&["g.gguf"]).unwrap();
    assert_eq!((a.model_path.as_str(), a.language.clone(), a.n_ctx), ("g.gguf", None, 4096));
    let a = test_args(&["g.gguf", "--language", "pl", "--n-ctx", "8192"]).unwrap();
    assert_eq!((a.language.as_deref(), a.n_ctx), (Some("pl"), 8192));
    assert_eq!(test_args(&["g.gguf", "--n-ctx", "+16"]).unwrap().n_ctx, 16);
    assert_eq!(test_args(&["g.gguf", "--n-ctx", "lots"]).unwrap().n_ctx, 4096);
    assert_eq!(test_args(&["g.gguf", "--n-ctx", "4294967296"]).unwrap().n_ctx, 4096);
    assert_eq!(test_args(&["g.gguf", "--n-ctx"]).unwrap().n_ctx, 4096);
    assert_eq!(test_args(&["g.gguf", "--language"]).unwrap().language, None);
    assert!(matches!(test_args(&[]), Err(SummarizeTestArgsError::Usage)));
    match test_args(&["g.gguf", "--seed", "1"]) {
        Err(SummarizeTestArgsError::Unexpected(a)) => assert_eq!(a, "--seed"),
        other => panic!("unexpected {other:?}"),
    }
}
