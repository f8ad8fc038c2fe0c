//! The bridge to the meeting sidecar process, which delivers the meeting's
//! audio as frames.

use vstd::prelude::*;

verus! {

/// Why the meeting sidecar could not deliver audio.
#[derive(Debug, Clone)]
pub enum MeetBridgeError {
    SidecarMissing(String),
    SidecarExited(String),
    Io(String),
    Unimplemented,
}

} // verus!
