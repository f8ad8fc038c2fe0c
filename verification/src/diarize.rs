//! Speaker diarization results: stretches of speech attributed to speakers.

use vstd::prelude::*;

verus! {

/// Why diarization could not run.
#[derive(Debug, Clone)]
pub enum DiarizeError {
    ModelMissing(String),
    Unimplemented,
}

/// A contiguous stretch of speech attributed to a single speaker.
#[derive(Clone, Copy, Debug, PartialEq, Eq, Structural)]
pub struct Turn {
    pub start_ms: u32,
    pub end_ms: u32,
    pub speaker_id: u32,
}

} // verus!
