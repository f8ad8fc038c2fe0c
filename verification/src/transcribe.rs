//! What the transcriber hands back and how it becomes part of a session:
//! decoder times are shifted to be session-relative, texts are trimmed, and
//! stored segments are numbered in arrival order.

use vstd::prelude::*;

use crate::model::{SessionId, Segment};
use crate::text::{chars_of, str_eq, string_from_chars, trim, trim_chars};

verus! {

/// Why transcription could not start or run.
#[derive(Debug, Clone)]
pub enum TranscribeError {
    ModelMissing { path: String },
    Whisper(String),
    NonUtf8Path(String),
}

/// Feeding audio to a worker that has already shut down.
#[derive(Debug, Clone, Copy, PartialEq, Eq, Structural)]
pub enum FeedError {
    Closed,
}

/// Settings of a transcriber.
#[derive(Debug, Clone)]
pub struct TranscriberConfig {
    pub model_path: String,
    /// ISO-639-1 language code, or `None` to let the model auto-detect.
    pub language: Option<String>,
    /// Threads the decoder uses internally; 0 lets it pick.
    pub n_threads: i32,
}

/// One decoded stretch of speech, with session-relative times.
#[derive(Debug, Clone)]
pub struct TranscribedSegment {
    pub start_ms: u32,
    pub end_ms: u32,
    pub text: String,
    /// `None` when the model was started with an explicit language.
    pub language: Option<String>,
}

/// A decoder time in centiseconds as non-negative milliseconds, cut to 32 bits.
pub open spec fn cs_to_ms(cs: int) -> u32 {
    if cs * 10 < 0 {
        0u32
    } else {
        (cs * 10) as u32
    }
}

/// `a + b`, saturating at `u32::MAX`.
pub open spec fn sat_add(a: u32, b: u32) -> u32 {
    if a + b > u32::MAX {
        u32::MAX
    } else {
        (a + b) as u32
    }
}

pub fn saturating_add_u32(a: u32, b: u32) -> (r: u32)
    ensures
        r == sat_add(a, b),
{
    if a as u64 + b as u64 > u32::MAX as u64 {
        u32::MAX
    } else {
        a + b
    }
}

fn centis_to_ms(cs: i64) -> (ms: u32)
    requires
        i64::MIN <= cs * 10 <= i64::MAX,
    ensures
        ms == cs_to_ms(cs as int),
{
    let v = cs * 10;
    if v < 0 {
        0
    } else {
        v as u32
    }
}

/// The segment for decoder output `text` spanning `t0_cs..t1_cs`
/// (centiseconds, relative to the chunk) of a chunk starting at `offset_ms`.
pub fn segment_from_decoder(text: &str, t0_cs: i64, t1_cs: i64, offset_ms: u32) -> (s:
    TranscribedSegment)
    requires
        i64::MIN <= t0_cs * 10 <= i64::MAX,
        i64::MIN <= t1_cs * 10 <= i64::MAX,
    ensures
        s.start_ms == sat_add(offset_ms, cs_to_ms(t0_cs as int)),
        s.end_ms == sat_add(offset_ms, cs_to_ms(t1_cs as int)),
        s.text@ == trim(text@),
        s.language is None,
{
    let local_start_ms = centis_to_ms(t0_cs);
    let local_end_ms = centis_to_ms(t1_cs);
    let t = trim_chars(&chars_of(text));
    TranscribedSegment {
        start_ms: saturating_add_u32(offset_ms, local_start_ms),
        end_ms: saturating_add_u32(offset_ms, local_end_ms),
        text: string_from_chars(&t),
        language: None,
    }
}

/// The stored form of transcribed segment `seg`, numbered `seq`.
pub open spec fn stored(session_id: SessionId, seq: u32, seg: TranscribedSegment) -> Segment {
    Segment {
        session_id,
        seq,
        start_ms: seg.start_ms,
        end_ms: seg.end_ms,
        text: seg.text,
        language: seg.language,
        confidence_bits: None,
        speaker_id: None,
    }
}

/// The stored form of transcribed segment `seg`, numbered `seq`: no
/// confidence and no speaker yet.
pub fn store_segment(session_id: SessionId, seq: u32, seg: TranscribedSegment) -> (s: Segment)
    ensures
        s == stored(session_id, seq, seg),
        s.session_id == session_id,
        s.seq == seq,
        s.start_ms == seg.start_ms,
        s.end_ms == seg.end_ms,
        s.text == seg.text,
        s.language == seg.language,
        s.confidence_bits is None,
        s.speaker_id is None,
{
    Segment {
        session_id,
        seq,
        start_ms: seg.start_ms,
        end_ms: seg.end_ms,
        text: seg.text,
        language: seg.language,
        confidence_bits: None,
        speaker_id: None,
    }
}

/// All transcribed segments of a session in stored form, numbered by
/// position (the number cut to 32 bits).
pub fn number_segments(session_id: SessionId, raw: Vec<TranscribedSegment>) -> (out: Vec<Segment>)
    ensures
        out@.len() == raw@.len(),
        forall|i: int|
            0 <= i < raw@.len() ==> #[trigger] out@[i] == stored(session_id, i as u32, raw@[i]),
        forall|i: int|
            0 <= i < raw@.len() ==> {
                &&& (#[trigger] out@[i]).session_id == session_id
                &&& out@[i].seq == i as u32
                &&& out@[i].start_ms == raw@[i].start_ms
                &&& out@[i].end_ms == raw@[i].end_ms
                &&& out@[i].text == raw@[i].text
                &&& out@[i].language == raw@[i].language
                &&& out@[i].confidence_bits is None
                &&& out@[i].speaker_id is None
            },
        forall|i: int| 0 <= i <= u32::MAX && i < raw@.len() ==> (#[trigger] out@[i]).seq as int == i,
{
    let mut out: Vec<Segment> = Vec::new();
    let ghost all = raw@;
    let n = raw.len();
    assert(all.len() == n);
    let mut i: usize = 0;
    for seg in it: raw.into_iter()
        invariant
            i == it.index(),
            it.seq() == all,
            all.len() <= usize::MAX,
            out@.len() == i,
            forall|k: int| 0 <= k < i ==> #[trigger] out@[k] == stored(session_id, k as u32, all[k]),
    {
        out.push(store_segment(session_id, i as u32, seg));
        i = i + 1;
    }
    out
}

/// A stored segment is the transcribed one, unchanged, under its session and
/// number; it has no confidence and no speaker yet.
pub proof fn lemma_stored_keeps_segment(session_id: SessionId, seq: u32, seg: TranscribedSegment)
    ensures
        stored(session_id, seq, seg).session_id == session_id,
        stored(session_id, seq, seg).seq == seq,
        stored(session_id, seq, seg).start_ms == seg.start_ms,
        stored(session_id, seq, seg).end_ms == seg.end_ms,
        stored(session_id, seq, seg).text == seg.text,
        stored(session_id, seq, seg).language == seg.language,
        stored(session_id, seq, seg).confidence_bits is None,
        stored(session_id, seq, seg).speaker_id is None,
{
}

/// Decoder times are shifted by the chunk's offset: a time of `cs`
/// centiseconds in the chunk is `10 * cs` milliseconds after the offset
/// (negative times count as 0), and the sum saturates at `u32::MAX`.
pub proof fn lemma_decoder_times(offset_ms: u32, cs: int)
    requires
        0 <= cs * 10 <= u32::MAX,
    ensures
        cs_to_ms(cs) as int == cs * 10,
        offset_ms + cs * 10 <= u32::MAX ==> sat_add(offset_ms, cs_to_ms(cs)) as int == offset_ms
            + cs * 10,
        offset_ms + cs * 10 > u32::MAX ==> sat_add(offset_ms, cs_to_ms(cs)) == u32::MAX,
{
}

/// A negative decoder time counts as the chunk's start.
pub proof fn lemma_negative_time(offset_ms: u32, cs: int)
    requires
        cs < 0,
    ensures
        cs_to_ms(cs) == 0,
        sat_add(offset_ms, cs_to_ms(cs)) == offset_ms,
{
}

pub const AUTO_LANGUAGE: &'static str = "auto";

/// The language the model is started with: `"auto"` or no language means
/// auto-detection.
pub open spec fn model_language(language: Option<Seq<char>>) -> Option<Seq<char>> {
    match language {
        None => None,
        Some(l) => if l == AUTO_LANGUAGE@ {
            None
        } else {
            Some(l)
        },
    }
}

/// The language to start the transcriber with for a session's language.
pub fn transcription_language(language: Option<&str>) -> (r: Option<String>)
    ensures
        r matches Some(s) ==> model_language(
            match language {
                Some(l) => Some(l@),
                None => None,
            },
        ) == Some(s@),
        r is None ==> model_language(
            match language {
                Some(l) => Some(l@),
                None => None,
            },
        ) is None,
{
    match language {
        None => None,
        Some(l) => {
            if str_eq(l, AUTO_LANGUAGE) {
                None
            } else {
                Some(l.to_owned())
            }
        },
    }
}

/// `"auto"` or no language lets the model detect it; any other language is
/// handed to the model as it is.
pub proof fn lemma_model_language(l: Seq<char>)
    ensures
        model_language(None) is None,
        model_language(Some("auto"@)) is None,
        l != "auto"@ ==> model_language(Some(l)) == Some(l),
{
    reveal_strlit("auto");
    assert(AUTO_LANGUAGE@ == "auto"@);
}

} // verus!
