//! How sessions are encoded in the database: the small enums are stored as
//! TEXT, and a stored row is decoded back into a [`SessionMeta`].

use vstd::prelude::*;

use crate::ids::{is_ulid_text, ulid_value};
use crate::model::{SessionId, SessionMeta, SessionStatus, SourceKind};
use crate::text::str_eq;

verus! {

/// Why a storage operation failed.
#[derive(Debug, Clone)]
pub enum StorageError {
    /// The database reported an error.
    Sqlite(String),
    /// The file system reported an error.
    Io(String),
    Unimplemented,
    /// The audio writer was used after it was finalized.
    AlreadyFinalized,
    /// A stored session id is not a ULID.
    InvalidSessionId(String),
    /// A stored enum column holds a value no variant is written as.
    CorruptEnum { column: String, value: String },
}

/// `e` reports that `column` holds the unknown value `value`.
pub open spec fn is_corrupt(e: StorageError, column: Seq<char>, value: Seq<char>) -> bool {
    match e {
        StorageError::CorruptEnum { column: c, value: v } => c@ == column && v@ == value,
        _ => false,
    }
}

/// `e` reports that the stored id `value` is not a ULID.
pub open spec fn is_invalid_id(e: StorageError, value: Seq<char>) -> bool {
    match e {
        StorageError::InvalidSessionId(v) => v@ == value,
        _ => false,
    }
}

pub const MIC: &'static str = "mic";

pub const SYSTEM_AUDIO: &'static str = "system_audio";

pub const MEET: &'static str = "meet";

pub const ACTIVE: &'static str = "active";

pub const COMPLETED: &'static str = "completed";

pub const FAILED: &'static str = "failed";

pub const SOURCE_KIND_COLUMN: &'static str = "source_kind";

pub const STATUS_COLUMN: &'static str = "status";

/// The text a source kind is stored as.
pub open spec fn source_kind_text(k: SourceKind) -> Seq<char> {
    match k {
        SourceKind::Mic => MIC@,
        SourceKind::SystemAudio => SYSTEM_AUDIO@,
        SourceKind::Meet => MEET@,
    }
}

/// The source kind stored as `s`, if any.
pub open spec fn source_kind_of(s: Seq<char>) -> Option<SourceKind> {
    if s == MIC@ {
        Some(SourceKind::Mic)
    } else if s == SYSTEM_AUDIO@ {
        Some(SourceKind::SystemAudio)
    } else if s == MEET@ {
        Some(SourceKind::Meet)
    } else {
        None
    }
}

/// The text a session status is stored as.
pub open spec fn status_text(s: SessionStatus) -> Seq<char> {
    match s {
        SessionStatus::Active => ACTIVE@,
        SessionStatus::Completed => COMPLETED@,
        SessionStatus::Failed => FAILED@,
    }
}

/// The session status stored as `s`, if any.
pub open spec fn status_of(s: Seq<char>) -> Option<SessionStatus> {
    if s == ACTIVE@ {
        Some(SessionStatus::Active)
    } else if s == COMPLETED@ {
        Some(SessionStatus::Completed)
    } else if s == FAILED@ {
        Some(SessionStatus::Failed)
    } else {
        None
    }
}

pub fn source_kind_to_sql(k: SourceKind) -> (s: &'static str)
    ensures
        s@ == source_kind_text(k),
{
    match k {
        SourceKind::Mic => MIC,
        SourceKind::SystemAudio => SYSTEM_AUDIO,
        SourceKind::Meet => MEET,
    }
}

/// Decodes a stored source kind; anything else is a corrupt column.
pub fn source_kind_from_sql(s: &str) -> (r: Result<SourceKind, StorageError>)
    ensures
        r matches Ok(k) ==> source_kind_of(s@) == Some(k),
        r is Err <==> source_kind_of(s@) is None,
        r matches Err(e) ==> is_corrupt(e, SOURCE_KIND_COLUMN@, s@),
{
    if str_eq(s, MIC) {
        Ok(SourceKind::Mic)
    } else if str_eq(s, SYSTEM_AUDIO) {
        Ok(SourceKind::SystemAudio)
    } else if str_eq(s, MEET) {
        Ok(SourceKind::Meet)
    } else {
        Err(StorageError::CorruptEnum { column: SOURCE_KIND_COLUMN.to_owned(), value: s.to_owned() })
    }
}

pub fn status_to_sql(st: SessionStatus) -> (s: &'static str)
    ensures
        s@ == status_text(st),
{
    match st {
        SessionStatus::Active => ACTIVE,
        SessionStatus::Completed => COMPLETED,
        SessionStatus::Failed => FAILED,
    }
}

/// Decodes a stored session status; anything else is a corrupt column.
pub fn status_from_sql(s: &str) -> (r: Result<SessionStatus, StorageError>)
    ensures
        r matches Ok(st) ==> status_of(s@) == Some(st),
        r is Err <==> status_of(s@) is None,
        r matches Err(e) ==> is_corrupt(e, STATUS_COLUMN@, s@),
{
    if str_eq(s, ACTIVE) {
        Ok(SessionStatus::Active)
    } else if str_eq(s, COMPLETED) {
        Ok(SessionStatus::Completed)
    } else if str_eq(s, FAILED) {
        Ok(SessionStatus::Failed)
    } else {
        Err(StorageError::CorruptEnum { column: STATUS_COLUMN.to_owned(), value: s.to_owned() })
    }
}

/// Reading back what a source kind is written as gives that source kind.
pub proof fn lemma_source_kind_roundtrip(k: SourceKind)
    ensures
        source_kind_of(source_kind_text(k)) == Some(k),
{
    reveal_strlit("mic");
    reveal_strlit("system_audio");
    reveal_strlit("meet");
    assert(MIC@ == "mic"@);
    assert(MIC@.len() == 3);
    assert(SYSTEM_AUDIO@.len() == 12);
    assert(MEET@.len() == 4);
}

/// Reading back what a status is written as gives that status.
pub proof fn lemma_status_roundtrip(s: SessionStatus)
    ensures
        status_of(status_text(s)) == Some(s),
{
    reveal_strlit("active");
    reveal_strlit("completed");
    reveal_strlit("failed");
    assert(ACTIVE@.len() == 6);
    assert(COMPLETED@.len() == 9);
    assert(FAILED@.len() == 6);
    assert(ACTIVE@[0] != FAILED@[0]);
}

/// A `sessions` row as the database returns it.
#[derive(Debug, Clone)]
pub struct SessionRow {
    pub id: String,
    pub name: String,
    pub source_kind: String,
    pub source_meta: String,
    pub language: Option<String>,
    pub audio_path: String,
    pub started_at_ms: i64,
    pub ended_at_ms: Option<i64>,
    pub status: String,
}

/// Decodes a stored session: the id must be a ULID, the source kind and
/// status must be ones this crate writes; the other columns pass through.
pub fn session_from_row(row: SessionRow) -> (r: Result<SessionMeta, StorageError>)
    ensures
        r is Ok <==> is_ulid_text(row.id@) && source_kind_of(row.source_kind@) is Some && status_of(
            row.status@,
        ) is Some,
        !is_ulid_text(row.id@) ==> (r matches Err(e) && is_invalid_id(e, row.id@)),
        is_ulid_text(row.id@) && source_kind_of(row.source_kind@) is None ==> (r matches Err(e)
            && is_corrupt(e, SOURCE_KIND_COLUMN@, row.source_kind@)),
        is_ulid_text(row.id@) && source_kind_of(row.source_kind@) is Some && status_of(
            row.status@,
        ) is None ==> (r matches Err(e) && is_corrupt(e, STATUS_COLUMN@, row.status@)),
        r matches Ok(m) ==> {
            &&& m.id.value == ulid_value(row.id@)
            &&& m.name == row.name
            &&& Some(m.source_kind) == source_kind_of(row.source_kind@)
            &&& m.source_meta == row.source_meta
            &&& m.language == row.language
            &&& m.audio_path == row.audio_path
            &&& m.started_at_ms == row.started_at_ms
            &&& m.ended_at_ms == row.ended_at_ms
            &&& Some(m.status) == status_of(row.status@)
        },
{
    let id = match SessionId::parse(row.id.as_str()) {
        Some(id) => id,
        None => {
            return Err(StorageError::InvalidSessionId(row.id));
        },
    };
    let source_kind = source_kind_from_sql(row.source_kind.as_str())?;
    let status = status_from_sql(row.status.as_str())?;
    Ok(
        SessionMeta {
            id,
            name: row.name,
            source_kind,
            source_meta: row.source_meta,
            language: row.language,
            audio_path: row.audio_path,
            started_at_ms: row.started_at_ms,
            ended_at_ms: row.ended_at_ms,
            status,
        },
    )
}

/// The migrations still to apply to a database at schema version
/// `current`: those with a higher id, in order.
pub fn pending_migrations(current: u32, ids: &Vec<u32>) -> (p: Vec<u32>)
    ensures
        p@ == ids@.filter(|id: u32| id > current),
{
    let ghost pred = |id: u32| id > current;
    let mut p: Vec<u32> = Vec::new();
    let mut i: usize = 0;
    while i < ids.len()
        invariant
            i <= ids@.len(),
            pred == (|id: u32| id > current),
            p@ == ids@.take(i as int).filter(pred),
        decreases ids@.len() - i,
    {
        proof {
            reveal_with_fuel(Seq::<_>::filter, 1);
            assert(ids@.take(i + 1).drop_last() == ids@.take(i as int));
        }
        if ids[i] > current {
            p.push(ids[i]);
        }
        i = i + 1;
    }
    assert(ids@.take(ids@.len() as int) == ids@);
    p
}

/// Migrating is idempotent: once the schema version is at least every
/// migration's id, nothing is left to apply.
pub proof fn lemma_migrated_is_idempotent(current: u32, ids: Seq<u32>)
    requires
        forall|i: int| 0 <= i < ids.len() ==> ids[i] <= current,
    ensures
        ids.filter(|id: u32| id > current).len() == 0,
    decreases ids.len(),
{
    reveal_with_fuel(Seq::<_>::filter, 1);
    if ids.len() > 0 {
        let rest = ids.drop_last();
        assert forall|i: int| 0 <= i < rest.len() implies rest[i] <= current by {
            assert(rest[i] == ids[i]);
        }
        lemma_migrated_is_idempotent(current, rest);
    }
}

/// The texts the enums are stored as.
pub proof fn lemma_stored_texts()
    ensures
        source_kind_text(SourceKind::Mic) == "mic"@,
        source_kind_text(SourceKind::SystemAudio) == "system_audio"@,
        source_kind_text(SourceKind::Meet) == "meet"@,
        status_text(SessionStatus::Active) == "active"@,
        status_text(SessionStatus::Completed) == "completed"@,
        status_text(SessionStatus::Failed) == "failed"@,
{
}

/// Distinct variants are stored as distinct texts, and only the texts the
/// enums are written as read back as a variant.
pub proof fn lemma_stored_texts_distinct(a: SourceKind, b: SourceKind, s: SessionStatus, t: SessionStatus, x: Seq<char>)
    ensures
        a != b ==> source_kind_text(a) != source_kind_text(b),
        s != t ==> status_text(s) != status_text(t),
        source_kind_of(x) matches Some(k) ==> source_kind_text(k) == x,
        status_of(x) matches Some(st) ==> status_text(st) == x,
{
    lemma_source_kind_roundtrip(a);
    lemma_source_kind_roundtrip(b);
    lemma_status_roundtrip(s);
    lemma_status_roundtrip(t);
}

} // verus!
