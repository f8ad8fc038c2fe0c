# hearsay

A local meeting recorder: it captures a microphone, transcribes the audio
with a Whisper model, stores sessions in SQLite and summarizes finished
meetings with a local Gemma model, all behind a small HTTP/WebSocket daemon.

## Layout

- `src/` is the library, written in Verus. Every function in it carries a
  contract that Verus proves: how audio is cut into frames and
  transcription chunks, how decoder output becomes numbered segments, how
  the summary prompt is rendered, how the token loop decides to stop, how
  settings override their defaults, how stored rows decode, and which
  requests the daemon answers with which errors. Calls into outside crates
  (`ulid`, `mime_guess`) sit behind small trusted wrappers
  whose contracts say what those crates do.
- `tests/` runs the library on concrete inputs.
- `app/` is the daemon around the library: audio capture, the models, the
  database, the HTTP routes and process handling. It calls the library for
  the decisions above and does the I/O itself.
