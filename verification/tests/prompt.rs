use hearsay::model::{Segment, SessionId};
use hearsay::prompt::{build, format_timestamp, format_transcript};

fn seg(seq: u32, start_ms: u32, end_ms: u32, text: &str, speaker: Option<u32>) -> Segment {
    Segment {
        session_id: SessionId { value: 7 },
        seq,
        start_ms,
        end_ms,
        text: text.to_owned(),
        language: None,
        confidence_bits: None,
        speaker_id: speaker,
    }
}

#[test]
fn timestamp_under_hour_uses_mm_ss() {
    assert_eq!(format_timestamp(0), "00:00");
    assert_eq!(format_timestamp(5_000), "00:05");
    assert_eq!(format_timestamp(125_000), "02:05");
}

#[test]
fn timestamp_over_hour_uses_h_mm_ss() {
    assert_eq!(format_timestamp(3_600_000), "1:00:00");
    assert_eq!(format_timestamp(3_725_000), "1:02:05");
}

#[test]
fn transcript_drops_blank_segments() {
    let s = vec![
        seg(0, 0, 1_000, "Hello", Some(1)),
        seg(1, 1_000, 2_000, "  ", Some(2)),
        seg(2, 2_000, 3_000, "World", None),
    ];
    let p = build(&s, Some("en"));
    assert!(p.user.contains("[00:00] Speaker 1: Hello"));
    assert!(!p.user.contains("[00:01]")); // blank segment skipped
    assert!(p.user.contains("[00:02] World"));
}

#[test]
fn polish_uses_polish_intro_and_structure_headers() {
    let p = build(&[seg(0, 0, 1_000, "Dzień dobry", Some(1))], Some("pl"));
    assert!(p.system.contains("polsku"));
    assert!(p.system.contains("Decyzje"));
    assert!(p.system.contains("Zadania"));
    assert!(p.user.contains("Transkrypcja:"));
}

#[test]
fn unsupported_language_falls_back_to_english_template() {
    // A language without a template is summarized in English rather than refused.
    let p = build(&[seg(0, 0, 1_000, "Bonjour", None)], Some("fr"));
    assert!(p.system.contains("English"));
}

#[test]
fn no_language_specified_falls_back_to_english() {
    let p = build(&[seg(0, 0, 1_000, "hi", None)], None);
    assert!(p.system.contains("English"));
}

#[test]
fn timestamp_edges() {
    assert_eq!(format_timestamp(999), "00:00");
    assert_eq!(format_timestamp(59_999), "00:59");
    assert_eq!(format_timestamp(3_599_999), "59:59");
    assert_eq!(format_timestamp(36_000_000), "10:00:00");
    assert_eq!(format_timestamp(u32::MAX), "1193:02:47");
}

#[test]
fn transcript_lines_are_exact_and_trimmed() {
    let s = vec![
        seg(0, 61_000, 62_000, "  first line \n", Some(12)),
        seg(1, 3_661_000, 3_662_000, "\tsecond", None),
    ];
    assert_eq!(
        format_transcript(&s),
        "[01:01] Speaker 12: first line\n[1:01:01] second\n"
    );
    assert_eq!(format_transcript(&[]), "");
}

#[test]
fn prompt_messages_are_assembled_exactly() {
    let p = build(&[seg(0, 0, 500, "ok", None)], Some("en"));
    assert!(p.system.starts_with("You are an assistant that summarizes meeting transcripts. Read"));
    assert!(p.system.contains("in English.\n\nUse this exact structure (Markdown):\n## TL;DR\n"));
    assert!(p.system.ends_with("Omit the section if none."));
    assert_eq!(p.user, "Transcript:\n[00:00] ok\n");
}
