//! The daemon's bookkeeping of live sessions and the decisions its HTTP
//! handlers make: which ids are well-formed, which sessions may be stopped
//! or deleted, and what a create request starts.

use vstd::prelude::*;

use crate::ids::{is_ulid_text, ulid_text, ulid_value};
use vstd::std_specs::iter::IteratorSpec;
use crate::config::{join_path, path_join};
use crate::model::{SessionId, SessionMeta, SessionStatus, SourceKind};
use crate::text::{chars_of, push_str, string_from_chars};

verus! {

broadcast use vstd::std_specs::hash::group_hash_axioms;

/// An error answered to an HTTP client.
#[derive(Debug, Clone)]
pub enum ApiError {
    /// The request is malformed or not allowed in the current state (400).
    BadRequest(String),
    /// The thing asked for does not exist (404).
    NotFound(String),
    /// Something failed on the server's side (500).
    Internal(String),
}

/// The HTTP status an error is answered with.
pub open spec fn status_of_error(e: ApiError) -> u16 {
    match e {
        ApiError::BadRequest(_) => 400,
        ApiError::NotFound(_) => 404,
        ApiError::Internal(_) => 500,
    }
}

/// The message an error carries.
pub open spec fn message_of(e: ApiError) -> Seq<char> {
    match e {
        ApiError::BadRequest(m) => m@,
        ApiError::NotFound(m) => m@,
        ApiError::Internal(m) => m@,
    }
}

impl ApiError {
    pub fn status_code(&self) -> (c: u16)
        ensures
            c == status_of_error(*self),
    {
        match self {
            ApiError::BadRequest(_) => 400,
            ApiError::NotFound(_) => 404,
            ApiError::Internal(_) => 500,
        }
    }
}

pub const INVALID_ID_PREFIX: &'static str = "invalid session id: ";

pub const SESSION_PREFIX: &'static str = "session ";

pub const ACTIVE_SESSION_PREFIX: &'static str = "active session ";

pub const STILL_ACTIVE: &'static str = "session is active; stop it first";

pub const NO_TRANSCRIPT: &'static str = "no transcript yet";

fn concat(a: &str, b: &str) -> (s: String)
    ensures
        s@ == a@ + b@,
{
    let mut v = chars_of(a);
    push_str(&mut v, b);
    string_from_chars(&v)
}

/// Reads a session id from a request path; anything but a ULID is a bad
/// request naming the offending text.
pub fn parse_session_id(raw: &str) -> (r: Result<SessionId, ApiError>)
    ensures
        r is Ok <==> is_ulid_text(raw@),
        r matches Ok(id) ==> id.value == ulid_value(raw@),
        r matches Err(e) ==> e is BadRequest && message_of(e) == INVALID_ID_PREFIX@ + raw@,
{
    match SessionId::parse(raw) {
        Some(id) => Ok(id),
        None => Err(ApiError::BadRequest(concat(INVALID_ID_PREFIX, raw))),
    }
}

/// "session <id>" was not found.
pub fn session_not_found(id: SessionId) -> (e: ApiError)
    ensures
        e is NotFound,
        message_of(e) == SESSION_PREFIX@ + ulid_text(id.value),
{
    let t = id.to_text();
    ApiError::NotFound(concat(SESSION_PREFIX, t.as_str()))
}

/// "active session <id>" was not found.
pub fn active_session_not_found(id: SessionId) -> (e: ApiError)
    ensures
        e is NotFound,
        message_of(e) == ACTIVE_SESSION_PREFIX@ + ulid_text(id.value),
{
    let t = id.to_text();
    ApiError::NotFound(concat(ACTIVE_SESSION_PREFIX, t.as_str()))
}

pub const AUDIO_MISSING_PREFIX: &'static str = "audio file for session ";

pub const AUDIO_MISSING_SUFFIX: &'static str = " missing on disk";

/// The recording of session `id` is not on disk.
pub fn audio_missing(id: SessionId) -> (e: ApiError)
    ensures
        e is NotFound,
        message_of(e) == AUDIO_MISSING_PREFIX@ + ulid_text(id.value) + AUDIO_MISSING_SUFFIX@,
{
    let t = id.to_text();
    let mut out = chars_of(AUDIO_MISSING_PREFIX);
    push_str(&mut out, t.as_str());
    push_str(&mut out, AUDIO_MISSING_SUFFIX);
    ApiError::NotFound(string_from_chars(&out))
}

/// The directory under the data directory that holds per-session files.
pub const SESSIONS_DIR: &'static str = "sessions";

/// The name of a session's recording.
pub const AUDIO_FILE: &'static str = "audio.wav";

/// Where session `id` keeps its recording: `<data_dir>/sessions/<id>/audio.wav`.
pub open spec fn session_audio_path_of(data_dir: Seq<char>, id: SessionId) -> Seq<char> {
    path_join(path_join(path_join(data_dir, SESSIONS_DIR@), ulid_text(id.value)), AUDIO_FILE@)
}

/// The directory and the recording path of session `id`.
pub fn session_paths(data_dir: &str, id: SessionId) -> (r: (String, String))
    ensures
        r.0@ == path_join(path_join(data_dir@, SESSIONS_DIR@), ulid_text(id.value)),
        r.1@ == session_audio_path_of(data_dir@, id),
{
    let sessions = join_path(data_dir, SESSIONS_DIR);
    let t = id.to_text();
    let dir = join_path(sessions.as_str(), t.as_str());
    let audio = join_path(dir.as_str(), AUDIO_FILE);
    (dir, audio)
}

/// A lower-case hexadecimal digit.
pub open spec fn hex_digit(d: int) -> char {
    if d < 10 {
        ('0' as int + d) as char
    } else {
        ('a' as int + d - 10) as char
    }
}

/// How one character is written inside a JSON string (as `serde_json`
/// writes it): quote and backslash get a backslash, the control characters
/// with a short form use it, the other control characters below 0x20 are
/// `\u00XX` in lower-case hex, and every other character stands as it is.
pub open spec fn json_escape(c: char) -> Seq<char> {
    if c == '"' {
        seq!['\\', '"']
    } else if c == '\\' {
        seq!['\\', '\\']
    } else if c == '\x08' {
        seq!['\\', 'b']
    } else if c == '\t' {
        seq!['\\', 't']
    } else if c == '\n' {
        seq!['\\', 'n']
    } else if c == '\x0C' {
        seq!['\\', 'f']
    } else if c == '\r' {
        seq!['\\', 'r']
    } else if (c as int) < 0x20 {
        seq!['\\', 'u', '0', '0', hex_digit(c as int / 16), hex_digit(c as int % 16)]
    } else {
        seq![c]
    }
}

/// The characters of `s`, each escaped for a JSON string.
pub open spec fn json_escaped(s: Seq<char>) -> Seq<char>
    decreases s.len(),
{
    if s.len() == 0 {
        Seq::empty()
    } else {
        json_escaped(s.drop_last()) + json_escape(s.last())
    }
}

/// The JSON string literal of `s`.
pub open spec fn json_quoted(s: Seq<char>) -> Seq<char> {
    seq!['"'] + json_escaped(s) + seq!['"']
}

fn push_json_escape(out: &mut Vec<char>, c: char)
    ensures
        final(out)@ == old(out)@ + json_escape(c),
{
    if c == '"' {
        out.push('\\');
        out.push('"');
    } else if c == '\\' {
        out.push('\\');
        out.push('\\');
    } else if c == '\x08' {
        out.push('\\');
        out.push('b');
    } else if c == '\t' {
        out.push('\\');
        out.push('t');
    } else if c == '\n' {
        out.push('\\');
        out.push('n');
    } else if c == '\x0C' {
        out.push('\\');
        out.push('f');
    } else if c == '\r' {
        out.push('\\');
        out.push('r');
    } else if (c as u32) < 0x20 {
        let u = c as u32;
        let hi = u / 16;
        let lo = u % 16;
        out.push('\\');
        out.push('u');
        out.push('0');
        out.push('0');
        out.push(if hi < 10 { ('0' as u8 + hi as u8) as char } else { ('a' as u8 + hi as u8 - 10) as char });
        out.push(if lo < 10 { ('0' as u8 + lo as u8) as char } else { ('a' as u8 + lo as u8 - 10) as char });
    } else {
        out.push(c);
    }
}

/// The JSON string literal of `s`: quoted, with its characters escaped.
pub fn json_string(s: &str) -> (j: String)
    ensures
        j@ == json_quoted(s@),
{
    let cs = chars_of(s);
    let mut out: Vec<char> = Vec::new();
    out.push('"');
    let mut i: usize = 0;
    while i < cs.len()
        invariant
            i <= cs@.len(),
            out@ == seq!['"'] + json_escaped(cs@.subrange(0, i as int)),
        decreases cs@.len() - i,
    {
        push_json_escape(&mut out, cs[i]);
        proof {
            let pre = cs@.subrange(0, i + 1);
            assert(pre.drop_last() == cs@.subrange(0, i as int));
            assert(pre.last() == cs@[i as int]);
        }
        i = i + 1;
    }
    assert(cs@.subrange(0, cs@.len() as int) == cs@);
    out.push('"');
    string_from_chars(&out)
}

pub const DEVICE_META_OPEN: &'static str = "{\"device_id\":";

pub const JSON_NULL: &'static str = "null";

/// The source description of a microphone session: a JSON object naming
/// the device (`null` for the default device).
pub open spec fn mic_source_meta_of(device_id: Option<Seq<char>>) -> Seq<char> {
    DEVICE_META_OPEN@ + match device_id {
        Some(d) => json_quoted(d),
        None => JSON_NULL@,
    } + seq!['}']
}

/// The session record of a microphone session that starts recording now.
pub fn new_mic_session(
    id: SessionId,
    name: String,
    language: Option<String>,
    device_id: Option<&str>,
    audio_path: String,
    started_at_ms: i64,
) -> (m: SessionMeta)
    ensures
        m.id == id,
        m.name == name,
        m.source_kind == SourceKind::Mic,
        m.source_meta@ == mic_source_meta_of(
            match device_id {
                Some(d) => Some(d@),
                None => None,
            },
        ),
        m.language == language,
        m.audio_path == audio_path,
        m.started_at_ms == started_at_ms,
        m.ended_at_ms is None,
        m.status == SessionStatus::Active,
{
    let mut meta = chars_of(DEVICE_META_OPEN);
    match device_id {
        Some(d) => {
            let j = json_string(d);
            push_str(&mut meta, j.as_str());
        },
        None => push_str(&mut meta, JSON_NULL),
    }
    meta.push('}');
    SessionMeta {
        id,
        name,
        source_kind: SourceKind::Mic,
        source_meta: string_from_chars(&meta),
        language,
        audio_path,
        started_at_ms,
        ended_at_ms: None,
        status: SessionStatus::Active,
    }
}

/// Per-source-kind parameters needed at session start.
#[derive(Debug, Clone)]
pub enum StartParams {
    Mic { device_id: Option<String> },
}

/// The body of a request to create a session.
#[derive(Debug, Clone)]
pub enum CreateRequest {
    Mic { name: Option<String>, language: Option<String>, device_id: Option<String> },
}

impl CreateRequest {
    /// The session name, language and start parameters the request asks
    /// for; a request without a name gets `default_name`.
    pub fn into_start(self, default_name: String) -> (r: (String, Option<String>, StartParams))
        ensures
            match self {
                CreateRequest::Mic { name, language, device_id } => {
                    &&& r.0 == match name {
                        Some(n) => n,
                        None => default_name,
                    }
                    &&& r.1 == language
                    &&& r.2 == StartParams::Mic { device_id }
                },
            },
    {
        match self {
            CreateRequest::Mic { name, language, device_id } => {
                let n = match name {
                    Some(n) => n,
                    None => default_name,
                };
                (n, language, StartParams::Mic { device_id })
            },
        }
    }
}

/// The live sessions, each with what keeps it running.
pub struct ActiveSessions<A> {
    map: std::collections::HashMap<u128, A>,
}

impl<A> ActiveSessions<A> {
    /// The live sessions by id value.
    pub closed spec fn view(&self) -> Map<u128, A> {
        self.map@
    }

    pub fn new() -> (s: Self)
        ensures
            s.view() == Map::<u128, A>::empty(),
    {
        ActiveSessions { map: std::collections::HashMap::new() }
    }

    /// Registers a live session (replacing any with the same id).
    pub fn insert(&mut self, id: SessionId, a: A)
        ensures
            final(self).view() == old(self).view().insert(id.value, a),
    {
        self.map.insert(id.value, a);
    }

    pub fn is_active(&self, id: SessionId) -> (b: bool)
        ensures
            b == self.view().contains_key(id.value),
    {
        self.map.contains_key(&id.value)
    }

    /// What keeps session `id` running, if it is live.
    pub fn get(&self, id: SessionId) -> (r: Option<&A>)
        ensures
            r matches Some(a) ==> self.view().contains_key(id.value) && *a == self.view()[id.value],
            r is None ==> !self.view().contains_key(id.value),
    {
        self.map.get(&id.value)
    }

    /// Takes session `id` out of the live set to stop it; stopping a session
    /// that is not live is "not found".
    pub fn take(&mut self, id: SessionId) -> (r: Result<A, ApiError>)
        ensures
            final(self).view() == old(self).view().remove(id.value),
            r is Ok <==> old(self).view().contains_key(id.value),
            r matches Ok(a) ==> a == old(self).view()[id.value],
            r matches Err(e) ==> e is NotFound && message_of(e) == ACTIVE_SESSION_PREFIX@
                + ulid_text(id.value),
    {
        match self.map.remove(&id.value) {
            Some(a) => Ok(a),
            None => Err(active_session_not_found(id)),
        }
    }

    /// A session may be deleted only once it is no longer live.
    pub fn ensure_inactive(&self, id: SessionId) -> (r: Result<(), ApiError>)
        ensures
            r is Ok <==> !self.view().contains_key(id.value),
            r matches Err(e) ==> e is BadRequest && message_of(e) == STILL_ACTIVE@,
    {
        if self.map.contains_key(&id.value) {
            Err(ApiError::BadRequest(STILL_ACTIVE.to_owned()))
        } else {
            Ok(())
        }
    }

    /// The ids of all live sessions, each once, in no particular order.
    pub fn active_ids(&self) -> (ids: Vec<SessionId>)
        ensures
            ids@.len() == self.view().dom().len(),
            forall|i: int| 0 <= i < ids@.len() ==> self.view().contains_key(#[trigger] ids@[i].value),
            forall|k: u128| #[trigger] self.view().contains_key(k) ==> exists|i: int|
                0 <= i < ids@.len() && ids@[i].value == k,
            forall|i: int, j: int|
                0 <= i < ids@.len() && 0 <= j < ids@.len() && i != j ==> ids@[i].value
                    != ids@[j].value,
    {
        let ghost keys = vstd::std_specs::hash::spec_keys_iter(&self.map).remaining();
        let mut ids: Vec<SessionId> = Vec::new();
        for k in it: self.map.keys()
            invariant
                it.seq() == keys,
                ids@.len() == it.index(),
                forall|i: int| 0 <= i < it.index() ==> #[trigger] ids@[i].value == keys.unref()[i],
        {
            ids.push(SessionId { value: *k });
        }
        proof {
            let u = keys.unref();
            assert(u.to_set() == self.map@.dom());
            assert forall|i: int| 0 <= i < ids@.len() implies self.view().contains_key(
                #[trigger] ids@[i].value,
            ) by {
                assert(u.contains(u[i]));
                assert(u.to_set().contains(u[i]));
            }
            assert forall|k: u128| #[trigger] self.view().contains_key(k) implies exists|i: int|
                0 <= i < ids@.len() && ids@[i].value == k by {
                assert(u.to_set().contains(k));
                assert(u.contains(k));
                let i = choose|i: int| 0 <= i < u.len() && u[i] == k;
                assert(ids@[i].value == k);
            }
            assert forall|i: int, j: int|
                0 <= i < ids@.len() && 0 <= j < ids@.len() && i != j implies ids@[i].value
                != ids@[j].value by {
                assert(keys.no_duplicates());
                assert(keys[i] != keys[j]);
            }
        }
        ids
    }
}

/// Starting a session makes it live; stopping it makes it not live again, so
/// a second stop is "not found" and the session may then be deleted.
pub proof fn lemma_start_then_stop<A>(live: Map<u128, A>, id: SessionId, a: A)
    ensures
        live.insert(id.value, a).contains_key(id.value),
        live.insert(id.value, a)[id.value] == a,
        !live.insert(id.value, a).remove(id.value).contains_key(id.value),
        live.insert(id.value, a).remove(id.value) == live.remove(id.value),
{
    assert(live.insert(id.value, a).remove(id.value) =~= live.remove(id.value));
}

/// A character that JSON needs to escape: a quote, a backslash or a control
/// character below 0x20.
pub open spec fn needs_escape(c: char) -> bool {
    c == '"' || c == '\\' || (c as int) < 0x20
}

/// Escaping works character by character: the escape of two texts one after
/// the other is their escapes one after the other, and a text with nothing
/// to escape is written as it is. A quote or backslash gets a backslash in
/// front; any other control character becomes a backslash followed by
/// characters that need no escaping.
pub proof fn lemma_json_escaping(a: Seq<char>, b: Seq<char>, c: char)
    ensures
        json_escaped(a + b) == json_escaped(a) + json_escaped(b),
        (forall|i: int| 0 <= i < a.len() ==> !needs_escape(#[trigger] a[i])) ==> json_escaped(a)
            == a,
        json_quoted(a) == seq!['"'] + json_escaped(a) + seq!['"'],
        !needs_escape(c) ==> json_escape(c) == seq![c],
        c == '"' ==> json_escape(c) == seq!['\\', '"'],
        c == '\\' ==> json_escape(c) == seq!['\\', '\\'],
        (c as int) < 0x20 ==> {
            &&& json_escape(c).len() >= 2
            &&& json_escape(c)[0] == '\\'
            &&& forall|i: int|
                1 <= i < json_escape(c).len() ==> !needs_escape(#[trigger] json_escape(c)[i])
        },
        (c as int) < 0x20 && c != '\x08' && c != '\t' && c != '\n' && c != '\x0C' && c != '\r'
            ==> json_escape(c) == seq!['\\', 'u', '0', '0', hex_digit(c as int / 16), hex_digit(c as int % 16)],
{
    lemma_json_concat(a, b);
    lemma_json_plain(a);
}

proof fn lemma_json_concat(a: Seq<char>, b: Seq<char>)
    ensures
        json_escaped(a + b) == json_escaped(a) + json_escaped(b),
    decreases b.len(),
{
    if b.len() == 0 {
        assert(a + b == a);
        assert(json_escaped(b) == Seq::<char>::empty());
        assert(json_escaped(a) + Seq::<char>::empty() == json_escaped(a));
    } else {
        lemma_json_concat(a, b.drop_last());
        assert((a + b).drop_last() == a + b.drop_last());
        assert((a + b).last() == b.last());
        assert(json_escaped(a) + json_escaped(b.drop_last()) + json_escape(b.last()) == json_escaped(a)
            + (json_escaped(b.drop_last()) + json_escape(b.last())));
    }
}

proof fn lemma_json_plain(a: Seq<char>)
    ensures
        (forall|i: int| 0 <= i < a.len() ==> !needs_escape(#[trigger] a[i])) ==> json_escaped(a)
            == a,
    decreases a.len(),
{
    if a.len() > 0 {
        lemma_json_plain(a.drop_last());
        if forall|i: int| 0 <= i < a.len() ==> !needs_escape(#[trigger] a[i]) {
            assert forall|i: int| 0 <= i < a.drop_last().len() implies !needs_escape(
                #[trigger] a.drop_last()[i],
            ) by {
                assert(a.drop_last()[i] == a[i]);
            }
            assert(!needs_escape(a[a.len() - 1]));
            assert(a.drop_last().push(a.last()) == a);
        }
    }
}

/// The hexadecimal digits are `0-9` then `a-f`, in increasing order.
pub proof fn lemma_hex_digit(d: int, e: int)
    requires
        0 <= d < 16,
        0 <= e < 16,
    ensures
        d < e ==> hex_digit(d) < hex_digit(e),
        hex_digit(0) == '0',
        hex_digit(9) == '9',
        hex_digit(10) == 'a',
        hex_digit(15) == 'f',
{
}

/// Bad requests are answered with 400, missing things with 404 and server
/// failures with 500, whatever the message.
pub proof fn lemma_status_codes(m: String)
    ensures
        status_of_error(ApiError::BadRequest(m)) == 400,
        status_of_error(ApiError::NotFound(m)) == 404,
        status_of_error(ApiError::Internal(m)) == 500,
        message_of(ApiError::BadRequest(m)) == m@,
        message_of(ApiError::NotFound(m)) == m@,
        message_of(ApiError::Internal(m)) == m@,
{
}

/// A session's recording is `sessions/<id>/audio.wav` under the data
/// directory, and a microphone session describes its source as
/// `{"device_id":<name as a JSON string>}`, or `{"device_id":null}` for the
/// default device.
pub proof fn lemma_session_files(data_dir: Seq<char>, id: SessionId, device: Seq<char>)
    ensures
        session_audio_path_of(data_dir, id) == path_join(
            path_join(path_join(data_dir, "sessions"@), ulid_text(id.value)),
            "audio.wav"@,
        ),
        mic_source_meta_of(Some(device)) == "{\"device_id\":"@ + json_quoted(device) + seq!['}'],
        mic_source_meta_of(None) == "{\"device_id\":null}"@,
{
    reveal_strlit("{\"device_id\":");
    reveal_strlit("null");
    reveal_strlit("{\"device_id\":null}");
    assert(mic_source_meta_of(None) =~= "{\"device_id\":null}"@);
}

} // verus!
