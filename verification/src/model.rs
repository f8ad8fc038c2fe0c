//! The data every part of hearsay passes around: sessions, transcript
//! segments, speakers, summaries and audio frames.
//!
//! Timestamps are milliseconds since the Unix epoch, paths are their text,
//! and a segment's confidence is held as the bits of its `f32`.

use vstd::prelude::*;

verus! {

/// Identifies a recording session. Its text form is a ULID.
#[derive(Clone, Copy, Debug, PartialEq, Eq, Hash, Structural)]
pub struct SessionId {
    pub value: u128,
}

/// Where a session's audio comes from.
#[derive(Clone, Copy, Debug, PartialEq, Eq, Structural)]
pub enum SourceKind {
    Mic,
    SystemAudio,
    Meet,
}

/// The life-cycle state of a session.
#[derive(Clone, Copy, Debug, PartialEq, Eq, Structural)]
pub enum SessionStatus {
    Active,
    Completed,
    Failed,
}

/// A recording session as stored.
#[derive(Clone, Debug)]
pub struct SessionMeta {
    pub id: SessionId,
    pub name: String,
    pub source_kind: SourceKind,
    /// Free-form JSON describing the source (device id, meet url, ...).
    pub source_meta: String,
    /// ISO-639-1 ("pl", "en") or `None` to auto-detect.
    pub language: Option<String>,
    pub audio_path: String,
    pub started_at_ms: i64,
    pub ended_at_ms: Option<i64>,
    pub status: SessionStatus,
}

/// A single transcribed slice of speech inside a session.
#[derive(Clone, Debug)]
pub struct Segment {
    pub session_id: SessionId,
    /// Monotonically increasing index inside the session.
    pub seq: u32,
    /// Milliseconds since the start of the session.
    pub start_ms: u32,
    pub end_ms: u32,
    pub text: String,
    /// ISO-639-1 language code if the transcriber attached one.
    pub language: Option<String>,
    /// The confidence, as the bit pattern of an `f32`.
    pub confidence_bits: Option<u32>,
    /// Filled in by the diarization step; `None` during the live transcript.
    pub speaker_id: Option<u32>,
}

/// A speaker discovered by the diarization step. `label` starts as `None`
/// (the frontend renders "Speaker N"); the user can override it later.
#[derive(Clone, Debug)]
pub struct Speaker {
    pub session_id: SessionId,
    pub speaker_id: u32,
    pub label: Option<String>,
}

/// A generated meeting summary.
#[derive(Clone, Debug)]
pub struct Summary {
    pub session_id: SessionId,
    /// Identifies which model produced this summary, e.g. "gemma3-12b-q4".
    pub model: String,
    /// Markdown body.
    pub content: String,
    pub generated_at_ms: i64,
}

} // verus!
