//! hearsay: the verified core of a local meeting recorder, transcriber and
//! summarizer.
//!
//! - [`chunker`] cuts the normalized audio stream into transcription chunks;
//!   [`frames`] cuts it into capture frames.
//! - [`transcribe`] turns decoder output into session segments.
//! - [`prompt`], [`summarize`] and [`summarize_child`] build the summary
//!   prompt, drive token generation and interpret the worker process.
//! - [`config`] holds the daemon's settings and their defaults.
//! - [`model`], [`ids`] and [`storage`] define the stored data and its
//!   encoding.
//! - [`sessions`] and [`routes`] hold the daemon's bookkeeping and the
//!   decisions of its HTTP endpoints.
//! - [`devices`], [`icon`], [`pipeline_args`], [`diarize`] and [`meet`]
//!   cover device listing, the tray icon, the pipeline tool's arguments and
//!   the remaining error types; [`summarize_test_args`] reads the summarize
//!   test tool's arguments.

pub mod chunker;
pub mod config;
pub mod devices;
pub mod diarize;
pub mod frames;
pub mod icon;
pub mod ids;
pub mod meet;
pub mod model;
pub mod pipeline_args;
pub mod prompt;
pub mod routes;
pub mod sessions;
pub mod storage;
pub mod summarize;
pub mod summarize_child;
pub mod summarize_test_args;
pub mod text;
pub mod transcribe;
